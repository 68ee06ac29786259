//! The throwables and the entry classes: how each is lexed, and that each is read
//! as one class.
use vstd::prelude::*;

use crate::injection::header;
use crate::injection::reading::{
    declares_class, reads_arguments, reads_assignment, reads_block, reads_block_end, reads_call,
    reads_call_statement, reads_chain_end, reads_chained_call, reads_constructor,
    reads_declaration, reads_derived_class, reads_field, reads_if, reads_last_argument,
    reads_last_parameter, reads_literal, reads_members_end, reads_method, reads_next_member,
    reads_next_statement, reads_no_arguments, reads_no_operator, reads_no_parameters,
    reads_operation, reads_operator, reads_parameters, reads_return, reads_root_class,
    reads_simple, reads_this, reads_variable,
};
use crate::injection::spelling::{
    is_word, lexes_name, name_tok, reads_colon_text, reads_gap, reads_key_space, reads_line,
    reads_name, reads_name_space, reads_operator_sign, reads_sign, reads_space, rest, sign_tok,
    spells, spells_both, tok,
};
use crate::injection::vocabulary::{is_common, words_are_known};
use crate::lexer::{Tok, TokenV, in_word, next_line, word_kind};
use crate::prelude::throwable_source;

verus! {

/// The tokens of what a class starts with.
pub open spec fn class_front_tokens(l: int) -> Seq<TokenV> {
    seq![
        sign_tok(Tok::Class, l),
    ]
}

proof fn spelling_of_class_front()
    ensures
        "class "@.len() == 6,
        spells("class "@, 0, "class"@),
        "class "@[5] == ' ',
{
    reveal_strlit("class ");
    reveal_strlit("class");
}

/// Lexing them.
proof fn lexes_class_front(s: Seq<char>, b: int, l: int, done: Seq<TokenV>)
    requires
        spells(s, b, "class "@),
    ensures
        rest(s, b, l, done) == rest(s, b + 6, l, done + class_front_tokens(l)),
        !in_word("class "@[0]) ==> !in_word(s[b]),
{
    words_are_known();
    spelling_of_class_front();
    reads_gap(s, b, "class "@, 0);
    let text = "class "@;
    let d0 = done;
    reads_key_space(s, b, text, 0, 6, "class"@, Tok::Class, l, d0);
    let d1 = d0.push(sign_tok(Tok::Class, l));
    assert(d1 =~= done + class_front_tokens(l));
}

/// The tokens of what stands before a superclass.
pub open spec fn extends_mark_tokens(l: int) -> Seq<TokenV> {
    seq![
        name_tok("extends"@, l),
    ]
}

proof fn spelling_of_extends_mark()
    ensures
        " extends "@.len() == 9,
        spells(" extends "@, 1, "extends"@),
        " extends "@[0] == ' ' && " extends "@[8] == ' ',
{
    reveal_strlit(" extends ");
    reveal_strlit("extends");
}

/// Lexing them.
proof fn lexes_extends_mark(s: Seq<char>, b: int, l: int, done: Seq<TokenV>)
    requires
        spells(s, b, " extends "@),
    ensures
        rest(s, b, l, done) == rest(s, b + 9, l, done + extends_mark_tokens(l)),
        !in_word(" extends "@[0]) ==> !in_word(s[b]),
{
    words_are_known();
    spelling_of_extends_mark();
    reads_gap(s, b, " extends "@, 0);
    let text = " extends "@;
    let d0 = done;
    reads_space(s, b, text, 0, l, d0);
    reads_name_space(s, b, text, 1, 9, "extends"@, l, d0);
    let d1 = d0.push(name_tok("extends"@, l));
    assert(d1 =~= done + extends_mark_tokens(l));
}

/// The tokens of the start of a body.
pub open spec fn derived_open_tokens(l: int) -> Seq<TokenV> {
    seq![
        sign_tok(Tok::LBrace, l),
    ]
}

proof fn spelling_of_derived_open()
    ensures
        " {\n  "@.len() == 5,
        " {\n  "@[0] == ' ' && " {\n  "@[1] == '{' && " {\n  "@[2] == '\n',
        " {\n  "@[3] == ' ' && " {\n  "@[4] == ' ',
{
    reveal_strlit(" {\n  ");
}

/// Lexing them.
proof fn lexes_derived_open(s: Seq<char>, b: int, l: int, done: Seq<TokenV>)
    requires
        spells(s, b, " {\n  "@),
    ensures
        rest(s, b, l, done) == rest(s, b + 5, next_line(l), done + derived_open_tokens(l)),
        !in_word(" {\n  "@[0]) ==> !in_word(s[b]),
{
    words_are_known();
    spelling_of_derived_open();
    reads_gap(s, b, " {\n  "@, 0);
    let text = " {\n  "@;
    let d0 = done;
    reads_space(s, b, text, 0, l, d0);
    reads_sign(s, b, text, 1, Tok::LBrace, l, d0);
    let d1 = d0.push(sign_tok(Tok::LBrace, l));
    reads_line(s, b, text, 2, l, d1);
    reads_space(s, b, text, 3, next_line(l), d1);
    reads_space(s, b, text, 4, next_line(l), d1);
    assert(d1 =~= done + derived_open_tokens(l));
}

/// The tokens of a constructor without a message, behind its name.
pub open spec fn no_message_tokens(l: int) -> Seq<TokenV> {
    seq![
        sign_tok(Tok::LParen, l), sign_tok(Tok::RParen, l), sign_tok(Tok::LBrace, l),
        sign_tok(Tok::RBrace, l),
    ]
}

proof fn spelling_of_no_message()
    ensures
        "() { }\n  "@.len() == 9,
        "() { }\n  "@[0] == '(' && "() { }\n  "@[1] == ')' && "() { }\n  "@[2] == ' ',
        "() { }\n  "@[3] == '{' && "() { }\n  "@[4] == ' ' && "() { }\n  "@[5] == '}',
        "() { }\n  "@[6] == '\n' && "() { }\n  "@[7] == ' ' && "() { }\n  "@[8] == ' ',
{
    reveal_strlit("() { }\n  ");
}

/// Lexing them.
proof fn lexes_no_message(s: Seq<char>, b: int, l: int, done: Seq<TokenV>)
    requires
        spells(s, b, "() { }\n  "@),
    ensures
        rest(s, b, l, done) == rest(s, b + 9, next_line(l), done + no_message_tokens(l)),
        !in_word("() { }\n  "@[0]) ==> !in_word(s[b]),
{
    words_are_known();
    spelling_of_no_message();
    reads_gap(s, b, "() { }\n  "@, 0);
    let text = "() { }\n  "@;
    let d0 = done;
    reads_sign(s, b, text, 0, Tok::LParen, l, d0);
    let d1 = d0.push(sign_tok(Tok::LParen, l));
    reads_sign(s, b, text, 1, Tok::RParen, l, d1);
    let d2 = d1.push(sign_tok(Tok::RParen, l));
    reads_space(s, b, text, 2, l, d2);
    reads_sign(s, b, text, 3, Tok::LBrace, l, d2);
    let d3 = d2.push(sign_tok(Tok::LBrace, l));
    reads_space(s, b, text, 4, l, d3);
    reads_sign(s, b, text, 5, Tok::RBrace, l, d3);
    let d4 = d3.push(sign_tok(Tok::RBrace, l));
    reads_line(s, b, text, 6, l, d4);
    reads_space(s, b, text, 7, next_line(l), d4);
    reads_space(s, b, text, 8, next_line(l), d4);
    assert(d4 =~= done + no_message_tokens(l));
}

/// The tokens of a constructor that hands its message on, behind its name, and the end of the class.
pub open spec fn passed_message_tokens(l: int) -> Seq<TokenV> {
    seq![
        sign_tok(Tok::LParen, l), name_tok("String"@, l), name_tok("m"@, l),
        sign_tok(Tok::RParen, l), sign_tok(Tok::LBrace, l), name_tok("super"@, l),
        sign_tok(Tok::LParen, l), name_tok("m"@, l), sign_tok(Tok::RParen, l),
        sign_tok(Tok::Semi, l), sign_tok(Tok::RBrace, l), sign_tok(Tok::RBrace, next_line(l)),
    ]
}

proof fn spelling_of_passed_message()
    ensures
        "(String m) { super(m); }\n}\n"@.len() == 27,
        spells("(String m) { super(m); }\n}\n"@, 1, "String"@),
        spells("(String m) { super(m); }\n}\n"@, 8, "m"@),
        spells("(String m) { super(m); }\n}\n"@, 13, "super"@),
        spells("(String m) { super(m); }\n}\n"@, 19, "m"@),
        "(String m) { super(m); }\n}\n"@[0] == '(',
        "(String m) { super(m); }\n}\n"@[1] == 'S',
        "(String m) { super(m); }\n}\n"@[7] == ' ',
        "(String m) { super(m); }\n}\n"@[9] == ')',
        "(String m) { super(m); }\n}\n"@[10] == ' ',
        "(String m) { super(m); }\n}\n"@[11] == '{',
        "(String m) { super(m); }\n}\n"@[12] == ' ',
        "(String m) { super(m); }\n}\n"@[18] == '(',
        "(String m) { super(m); }\n}\n"@[19] == 'm',
        "(String m) { super(m); }\n}\n"@[20] == ')',
        "(String m) { super(m); }\n}\n"@[21] == ';',
        "(String m) { super(m); }\n}\n"@[22] == ' ',
        "(String m) { super(m); }\n}\n"@[23] == '}',
        "(String m) { super(m); }\n}\n"@[24] == '\n',
        "(String m) { super(m); }\n}\n"@[25] == '}',
        "(String m) { super(m); }\n}\n"@[26] == '\n',
{
    reveal_strlit("(String m) { super(m); }\n}\n");
    reveal_strlit("String");
    reveal_strlit("m");
    reveal_strlit("super");
}

/// Lexing them.
proof fn lexes_passed_message(s: Seq<char>, b: int, l: int, done: Seq<TokenV>)
    requires
        spells(s, b, "(String m) { super(m); }\n}\n"@),
    ensures
        rest(s, b, l, done) == rest(s, b + 27, next_line(next_line(l)), done + passed_message_tokens(l)),
        !in_word("(String m) { super(m); }\n}\n"@[0]) ==> !in_word(s[b]),
{
    words_are_known();
    spelling_of_passed_message();
    reads_gap(s, b, "(String m) { super(m); }\n}\n"@, 0);
    let text = "(String m) { super(m); }\n}\n"@;
    let d0 = done;
    reads_sign(s, b, text, 0, Tok::LParen, l, d0);
    let d1 = d0.push(sign_tok(Tok::LParen, l));
    reads_name_space(s, b, text, 1, 8, "String"@, l, d1);
    let d2 = d1.push(name_tok("String"@, l));
    reads_name(s, b, text, 8, 9, "m"@, l, d2);
    let d3 = d2.push(name_tok("m"@, l));
    reads_sign(s, b, text, 9, Tok::RParen, l, d3);
    let d4 = d3.push(sign_tok(Tok::RParen, l));
    reads_space(s, b, text, 10, l, d4);
    reads_sign(s, b, text, 11, Tok::LBrace, l, d4);
    let d5 = d4.push(sign_tok(Tok::LBrace, l));
    reads_space(s, b, text, 12, l, d5);
    reads_name(s, b, text, 13, 18, "super"@, l, d5);
    let d6 = d5.push(name_tok("super"@, l));
    reads_sign(s, b, text, 18, Tok::LParen, l, d6);
    let d7 = d6.push(sign_tok(Tok::LParen, l));
    reads_name(s, b, text, 19, 20, "m"@, l, d7);
    let d8 = d7.push(name_tok("m"@, l));
    reads_sign(s, b, text, 20, Tok::RParen, l, d8);
    let d9 = d8.push(sign_tok(Tok::RParen, l));
    reads_sign(s, b, text, 21, Tok::Semi, l, d9);
    let d10 = d9.push(sign_tok(Tok::Semi, l));
    reads_space(s, b, text, 22, l, d10);
    reads_sign(s, b, text, 23, Tok::RBrace, l, d10);
    let d11 = d10.push(sign_tok(Tok::RBrace, l));
    reads_line(s, b, text, 24, l, d11);
    reads_sign(s, b, text, 25, Tok::RBrace, next_line(l), d11);
    let d12 = d11.push(sign_tok(Tok::RBrace, next_line(l)));
    reads_line(s, b, text, 26, next_line(l), d12);
    assert(d12 =~= done + passed_message_tokens(l));
}

/// The tokens of the start of the body of the root.
pub open spec fn root_open_tokens(l: int) -> Seq<TokenV> {
    seq![
        sign_tok(Tok::LBrace, l), name_tok("String"@, next_line(l)),
        name_tok("detailMessage"@, next_line(l)), sign_tok(Tok::Semi, next_line(l)),
    ]
}

proof fn spelling_of_root_open()
    ensures
        " {\n  String detailMessage;\n  "@.len() == 29,
        spells(" {\n  String detailMessage;\n  "@, 5, "String"@),
        spells(" {\n  String detailMessage;\n  "@, 12, "detailMessage"@),
        " {\n  String detailMessage;\n  "@[0] == ' ',
        " {\n  String detailMessage;\n  "@[1] == '{',
        " {\n  String detailMessage;\n  "@[2] == '\n',
        " {\n  String detailMessage;\n  "@[3] == ' ',
        " {\n  String detailMessage;\n  "@[4] == ' ',
        " {\n  String detailMessage;\n  "@[11] == ' ',
        " {\n  String detailMessage;\n  "@[25] == ';',
        " {\n  String detailMessage;\n  "@[26] == '\n',
        " {\n  String detailMessage;\n  "@[27] == ' ',
        " {\n  String detailMessage;\n  "@[28] == ' ',
{
    reveal_strlit(" {\n  String detailMessage;\n  ");
    reveal_strlit("String");
    reveal_strlit("detailMessage");
}

/// Lexing them.
proof fn lexes_root_open(s: Seq<char>, b: int, l: int, done: Seq<TokenV>)
    requires
        spells(s, b, " {\n  String detailMessage;\n  "@),
    ensures
        rest(s, b, l, done) == rest(s, b + 29, next_line(next_line(l)), done + root_open_tokens(l)),
        !in_word(" {\n  String detailMessage;\n  "@[0]) ==> !in_word(s[b]),
{
    words_are_known();
    spelling_of_root_open();
    reads_gap(s, b, " {\n  String detailMessage;\n  "@, 0);
    let text = " {\n  String detailMessage;\n  "@;
    let d0 = done;
    reads_space(s, b, text, 0, l, d0);
    reads_sign(s, b, text, 1, Tok::LBrace, l, d0);
    let d1 = d0.push(sign_tok(Tok::LBrace, l));
    reads_line(s, b, text, 2, l, d1);
    reads_space(s, b, text, 3, next_line(l), d1);
    reads_space(s, b, text, 4, next_line(l), d1);
    reads_name_space(s, b, text, 5, 12, "String"@, next_line(l), d1);
    let d2 = d1.push(name_tok("String"@, next_line(l)));
    reads_name(s, b, text, 12, 25, "detailMessage"@, next_line(l), d2);
    let d3 = d2.push(name_tok("detailMessage"@, next_line(l)));
    reads_sign(s, b, text, 25, Tok::Semi, next_line(l), d3);
    let d4 = d3.push(sign_tok(Tok::Semi, next_line(l)));
    reads_line(s, b, text, 26, next_line(l), d4);
    reads_space(s, b, text, 27, next_line(next_line(l)), d4);
    reads_space(s, b, text, 28, next_line(next_line(l)), d4);
    assert(d4 =~= done + root_open_tokens(l));
}

/// The tokens of the constructor that keeps its message, behind its name.
pub open spec fn kept_message_tokens(l: int) -> Seq<TokenV> {
    seq![
        sign_tok(Tok::LParen, l), name_tok("String"@, l), name_tok("m"@, l),
        sign_tok(Tok::RParen, l), sign_tok(Tok::LBrace, l), name_tok("detailMessage"@, l),
        sign_tok(Tok::Assign, l), name_tok("m"@, l), sign_tok(Tok::Semi, l),
        sign_tok(Tok::RBrace, l),
    ]
}

proof fn spelling_of_kept_message()
    ensures
        "(String m) { detailMessage = m; }\n  "@.len() == 36,
        spells("(String m) { detailMessage = m; }\n  "@, 1, "String"@),
        spells("(String m) { detailMessage = m; }\n  "@, 8, "m"@),
        spells("(String m) { detailMessage = m; }\n  "@, 13, "detailMessage"@),
        spells("(String m) { detailMessage = m; }\n  "@, 29, "m"@),
        "(String m) { detailMessage = m; }\n  "@[0] == '(',
        "(String m) { detailMessage = m; }\n  "@[1] == 'S',
        "(String m) { detailMessage = m; }\n  "@[7] == ' ',
        "(String m) { detailMessage = m; }\n  "@[9] == ')',
        "(String m) { detailMessage = m; }\n  "@[10] == ' ',
        "(String m) { detailMessage = m; }\n  "@[11] == '{',
        "(String m) { detailMessage = m; }\n  "@[12] == ' ',
        "(String m) { detailMessage = m; }\n  "@[26] == ' ',
        "(String m) { detailMessage = m; }\n  "@[27] == '=',
        "(String m) { detailMessage = m; }\n  "@[28] == ' ',
        "(String m) { detailMessage = m; }\n  "@[30] == ';',
        "(String m) { detailMessage = m; }\n  "@[31] == ' ',
        "(String m) { detailMessage = m; }\n  "@[32] == '}',
        "(String m) { detailMessage = m; }\n  "@[33] == '\n',
        "(String m) { detailMessage = m; }\n  "@[34] == ' ',
        "(String m) { detailMessage = m; }\n  "@[35] == ' ',
{
    reveal_strlit("(String m) { detailMessage = m; }\n  ");
    reveal_strlit("String");
    reveal_strlit("detailMessage");
    reveal_strlit("m");
}

/// Lexing them.
proof fn lexes_kept_message(s: Seq<char>, b: int, l: int, done: Seq<TokenV>)
    requires
        spells(s, b, "(String m) { detailMessage = m; }\n  "@),
    ensures
        rest(s, b, l, done) == rest(s, b + 36, next_line(l), done + kept_message_tokens(l)),
        !in_word("(String m) { detailMessage = m; }\n  "@[0]) ==> !in_word(s[b]),
{
    words_are_known();
    spelling_of_kept_message();
    reads_gap(s, b, "(String m) { detailMessage = m; }\n  "@, 0);
    let text = "(String m) { detailMessage = m; }\n  "@;
    let d0 = done;
    reads_sign(s, b, text, 0, Tok::LParen, l, d0);
    let d1 = d0.push(sign_tok(Tok::LParen, l));
    reads_name_space(s, b, text, 1, 8, "String"@, l, d1);
    let d2 = d1.push(name_tok("String"@, l));
    reads_name(s, b, text, 8, 9, "m"@, l, d2);
    let d3 = d2.push(name_tok("m"@, l));
    reads_sign(s, b, text, 9, Tok::RParen, l, d3);
    let d4 = d3.push(sign_tok(Tok::RParen, l));
    reads_space(s, b, text, 10, l, d4);
    reads_sign(s, b, text, 11, Tok::LBrace, l, d4);
    let d5 = d4.push(sign_tok(Tok::LBrace, l));
    reads_space(s, b, text, 12, l, d5);
    reads_name_space(s, b, text, 13, 27, "detailMessage"@, l, d5);
    let d6 = d5.push(name_tok("detailMessage"@, l));
    reads_operator_sign(s, b, text, 27, 28, Tok::Assign, l, d6);
    let d7 = d6.push(sign_tok(Tok::Assign, l));
    reads_space(s, b, text, 28, l, d7);
    reads_name(s, b, text, 29, 30, "m"@, l, d7);
    let d8 = d7.push(name_tok("m"@, l));
    reads_sign(s, b, text, 30, Tok::Semi, l, d8);
    let d9 = d8.push(sign_tok(Tok::Semi, l));
    reads_space(s, b, text, 31, l, d9);
    reads_sign(s, b, text, 32, Tok::RBrace, l, d9);
    let d10 = d9.push(sign_tok(Tok::RBrace, l));
    reads_line(s, b, text, 33, l, d10);
    reads_space(s, b, text, 34, next_line(l), d10);
    reads_space(s, b, text, 35, next_line(l), d10);
    assert(d10 =~= done + kept_message_tokens(l));
}

/// The tokens of the accessor of the message.
pub open spec fn message_getter_tokens(l: int) -> Seq<TokenV> {
    seq![
        name_tok("String"@, l), name_tok("getMessage"@, l), sign_tok(Tok::LParen, l),
        sign_tok(Tok::RParen, l), sign_tok(Tok::LBrace, l), sign_tok(Tok::Return, l),
        name_tok("detailMessage"@, l), sign_tok(Tok::Semi, l), sign_tok(Tok::RBrace, l),
    ]
}

proof fn spelling_of_message_getter()
    ensures
        "String getMessage() { return detailMessage; }\n  "@.len() == 48,
        spells("String getMessage() { return detailMessage; }\n  "@, 0, "String"@),
        spells("String getMessage() { return detailMessage; }\n  "@, 7, "getMessage"@),
        spells("String getMessage() { return detailMessage; }\n  "@, 22, "return"@),
        spells("String getMessage() { return detailMessage; }\n  "@, 29, "detailMessage"@),
        "String getMessage() { return detailMessage; }\n  "@[6] == ' ',
        "String getMessage() { return detailMessage; }\n  "@[17] == '(',
        "String getMessage() { return detailMessage; }\n  "@[18] == ')',
        "String getMessage() { return detailMessage; }\n  "@[19] == ' ',
        "String getMessage() { return detailMessage; }\n  "@[20] == '{',
        "String getMessage() { return detailMessage; }\n  "@[21] == ' ',
        "String getMessage() { return detailMessage; }\n  "@[28] == ' ',
        "String getMessage() { return detailMessage; }\n  "@[42] == ';',
        "String getMessage() { return detailMessage; }\n  "@[43] == ' ',
        "String getMessage() { return detailMessage; }\n  "@[44] == '}',
        "String getMessage() { return detailMessage; }\n  "@[45] == '\n',
        "String getMessage() { return detailMessage; }\n  "@[46] == ' ',
        "String getMessage() { return detailMessage; }\n  "@[47] == ' ',
{
    reveal_strlit("String getMessage() { return detailMessage; }\n  ");
    reveal_strlit("String");
    reveal_strlit("detailMessage");
    reveal_strlit("getMessage");
    reveal_strlit("return");
}

/// Lexing them.
proof fn lexes_message_getter(s: Seq<char>, b: int, l: int, done: Seq<TokenV>)
    requires
        spells(s, b, "String getMessage() { return detailMessage; }\n  "@),
    ensures
        rest(s, b, l, done) == rest(s, b + 48, next_line(l), done + message_getter_tokens(l)),
        !in_word("String getMessage() { return detailMessage; }\n  "@[0]) ==> !in_word(s[b]),
{
    words_are_known();
    spelling_of_message_getter();
    reads_gap(s, b, "String getMessage() { return detailMessage; }\n  "@, 0);
    let text = "String getMessage() { return detailMessage; }\n  "@;
    let d0 = done;
    reads_name_space(s, b, text, 0, 7, "String"@, l, d0);
    let d1 = d0.push(name_tok("String"@, l));
    reads_name(s, b, text, 7, 17, "getMessage"@, l, d1);
    let d2 = d1.push(name_tok("getMessage"@, l));
    reads_sign(s, b, text, 17, Tok::LParen, l, d2);
    let d3 = d2.push(sign_tok(Tok::LParen, l));
    reads_sign(s, b, text, 18, Tok::RParen, l, d3);
    let d4 = d3.push(sign_tok(Tok::RParen, l));
    reads_space(s, b, text, 19, l, d4);
    reads_sign(s, b, text, 20, Tok::LBrace, l, d4);
    let d5 = d4.push(sign_tok(Tok::LBrace, l));
    reads_space(s, b, text, 21, l, d5);
    reads_key_space(s, b, text, 22, 29, "return"@, Tok::Return, l, d5);
    let d6 = d5.push(sign_tok(Tok::Return, l));
    reads_name(s, b, text, 29, 42, "detailMessage"@, l, d6);
    let d7 = d6.push(name_tok("detailMessage"@, l));
    reads_sign(s, b, text, 42, Tok::Semi, l, d7);
    let d8 = d7.push(sign_tok(Tok::Semi, l));
    reads_space(s, b, text, 43, l, d8);
    reads_sign(s, b, text, 44, Tok::RBrace, l, d8);
    let d9 = d8.push(sign_tok(Tok::RBrace, l));
    reads_line(s, b, text, 45, l, d9);
    reads_space(s, b, text, 46, next_line(l), d9);
    reads_space(s, b, text, 47, next_line(l), d9);
    assert(d9 =~= done + message_getter_tokens(l));
}

/// The tokens of its localized form.
pub open spec fn localized_getter_tokens(l: int) -> Seq<TokenV> {
    seq![
        name_tok("String"@, l), name_tok("getLocalizedMessage"@, l), sign_tok(Tok::LParen, l),
        sign_tok(Tok::RParen, l), sign_tok(Tok::LBrace, l), sign_tok(Tok::Return, l),
        name_tok("getMessage"@, l), sign_tok(Tok::LParen, l), sign_tok(Tok::RParen, l),
        sign_tok(Tok::Semi, l), sign_tok(Tok::RBrace, l),
    ]
}

proof fn spelling_of_localized_getter()
    ensures
        "String getLocalizedMessage() { return getMessage(); }\n  "@.len() == 56,
        spells("String getLocalizedMessage() { return getMessage(); }\n  "@, 0, "String"@),
        spells("String getLocalizedMessage() { return getMessage(); }\n  "@, 7, "getLocalizedMessage"@),
        spells("String getLocalizedMessage() { return getMessage(); }\n  "@, 31, "return"@),
        spells("String getLocalizedMessage() { return getMessage(); }\n  "@, 38, "getMessage"@),
        "String getLocalizedMessage() { return getMessage(); }\n  "@[6] == ' ',
        "String getLocalizedMessage() { return getMessage(); }\n  "@[26] == '(',
        "String getLocalizedMessage() { return getMessage(); }\n  "@[27] == ')',
        "String getLocalizedMessage() { return getMessage(); }\n  "@[28] == ' ',
        "String getLocalizedMessage() { return getMessage(); }\n  "@[29] == '{',
        "String getLocalizedMessage() { return getMessage(); }\n  "@[30] == ' ',
        "String getLocalizedMessage() { return getMessage(); }\n  "@[37] == ' ',
        "String getLocalizedMessage() { return getMessage(); }\n  "@[48] == '(',
        "String getLocalizedMessage() { return getMessage(); }\n  "@[49] == ')',
        "String getLocalizedMessage() { return getMessage(); }\n  "@[50] == ';',
        "String getLocalizedMessage() { return getMessage(); }\n  "@[51] == ' ',
        "String getLocalizedMessage() { return getMessage(); }\n  "@[52] == '}',
        "String getLocalizedMessage() { return getMessage(); }\n  "@[53] == '\n',
        "String getLocalizedMessage() { return getMessage(); }\n  "@[54] == ' ',
        "String getLocalizedMessage() { return getMessage(); }\n  "@[55] == ' ',
{
    reveal_strlit("String getLocalizedMessage() { return getMessage(); }\n  ");
    reveal_strlit("String");
    reveal_strlit("getLocalizedMessage");
    reveal_strlit("getMessage");
    reveal_strlit("return");
}

/// Lexing them.
proof fn lexes_localized_getter(s: Seq<char>, b: int, l: int, done: Seq<TokenV>)
    requires
        spells(s, b, "String getLocalizedMessage() { return getMessage(); }\n  "@),
    ensures
        rest(s, b, l, done) == rest(s, b + 56, next_line(l), done + localized_getter_tokens(l)),
        !in_word("String getLocalizedMessage() { return getMessage(); }\n  "@[0]) ==> !in_word(s[b]),
{
    words_are_known();
    spelling_of_localized_getter();
    reads_gap(s, b, "String getLocalizedMessage() { return getMessage(); }\n  "@, 0);
    let text = "String getLocalizedMessage() { return getMessage(); }\n  "@;
    let d0 = done;
    reads_name_space(s, b, text, 0, 7, "String"@, l, d0);
    let d1 = d0.push(name_tok("String"@, l));
    reads_name(s, b, text, 7, 26, "getLocalizedMessage"@, l, d1);
    let d2 = d1.push(name_tok("getLocalizedMessage"@, l));
    reads_sign(s, b, text, 26, Tok::LParen, l, d2);
    let d3 = d2.push(sign_tok(Tok::LParen, l));
    reads_sign(s, b, text, 27, Tok::RParen, l, d3);
    let d4 = d3.push(sign_tok(Tok::RParen, l));
    reads_space(s, b, text, 28, l, d4);
    reads_sign(s, b, text, 29, Tok::LBrace, l, d4);
    let d5 = d4.push(sign_tok(Tok::LBrace, l));
    reads_space(s, b, text, 30, l, d5);
    reads_key_space(s, b, text, 31, 38, "return"@, Tok::Return, l, d5);
    let d6 = d5.push(sign_tok(Tok::Return, l));
    reads_name(s, b, text, 38, 48, "getMessage"@, l, d6);
    let d7 = d6.push(name_tok("getMessage"@, l));
    reads_sign(s, b, text, 48, Tok::LParen, l, d7);
    let d8 = d7.push(sign_tok(Tok::LParen, l));
    reads_sign(s, b, text, 49, Tok::RParen, l, d8);
    let d9 = d8.push(sign_tok(Tok::RParen, l));
    reads_sign(s, b, text, 50, Tok::Semi, l, d9);
    let d10 = d9.push(sign_tok(Tok::Semi, l));
    reads_space(s, b, text, 51, l, d10);
    reads_sign(s, b, text, 52, Tok::RBrace, l, d10);
    let d11 = d10.push(sign_tok(Tok::RBrace, l));
    reads_line(s, b, text, 53, l, d11);
    reads_space(s, b, text, 54, next_line(l), d11);
    reads_space(s, b, text, 55, next_line(l), d11);
    assert(d11 =~= done + localized_getter_tokens(l));
}

/// The tokens of the text of a throwable, and the end of the class.
pub open spec fn root_text_tokens(l: int) -> Seq<TokenV> {
    seq![
        name_tok("String"@, l), name_tok("toString"@, l), sign_tok(Tok::LParen, l),
        sign_tok(Tok::RParen, l), sign_tok(Tok::LBrace, l), name_tok("String"@, l),
        name_tok("n"@, l), sign_tok(Tok::Assign, l), name_tok("this"@, l),
        sign_tok(Tok::Dot, l), name_tok("getClass"@, l), sign_tok(Tok::LParen, l),
        sign_tok(Tok::RParen, l), sign_tok(Tok::Dot, l), name_tok("getName"@, l),
        sign_tok(Tok::LParen, l), sign_tok(Tok::RParen, l), sign_tok(Tok::Semi, l),
        sign_tok(Tok::If, l), sign_tok(Tok::LParen, l), name_tok("detailMessage"@, l),
        sign_tok(Tok::EqEq, l), name_tok("null"@, l), sign_tok(Tok::RParen, l),
        sign_tok(Tok::LBrace, l), sign_tok(Tok::Return, l), name_tok("n"@, l),
        sign_tok(Tok::Semi, l), sign_tok(Tok::RBrace, l), sign_tok(Tok::Return, l),
        name_tok("n"@, l), sign_tok(Tok::Plus, l), tok(Tok::Str, seq![':', ' '], l),
        sign_tok(Tok::Plus, l), name_tok("detailMessage"@, l), sign_tok(Tok::Semi, l),
        sign_tok(Tok::RBrace, l), sign_tok(Tok::RBrace, next_line(l)),
    ]
}

proof fn spelling_of_root_text()
    ensures
        "String toString() { String n = this.getClass().getName(); if (detailMessage == null) { return n; } return n + \": \" + detailMessage; }\n}\n"@.len() == 136,
        spells("String toString() { String n = this.getClass().getName(); if (detailMessage == null) { return n; } return n + \": \" + detailMessage; }\n}\n"@, 0, "String"@),
        spells("String toString() { String n = this.getClass().getName(); if (detailMessage == null) { return n; } return n + \": \" + detailMessage; }\n}\n"@, 7, "toString"@),
        spells("String toString() { String n = this.getClass().getName(); if (detailMessage == null) { return n; } return n + \": \" + detailMessage; }\n}\n"@, 20, "String"@),
        spells("String toString() { String n = this.getClass().getName(); if (detailMessage == null) { return n; } return n + \": \" + detailMessage; }\n}\n"@, 27, "n"@),
        spells("String toString() { String n = this.getClass().getName(); if (detailMessage == null) { return n; } return n + \": \" + detailMessage; }\n}\n"@, 31, "this"@),
        spells("String toString() { String n = this.getClass().getName(); if (detailMessage == null) { return n; } return n + \": \" + detailMessage; }\n}\n"@, 36, "getClass"@),
        spells("String toString() { String n = this.getClass().getName(); if (detailMessage == null) { return n; } return n + \": \" + detailMessage; }\n}\n"@, 47, "getName"@),
        spells("String toString() { String n = this.getClass().getName(); if (detailMessage == null) { return n; } return n + \": \" + detailMessage; }\n}\n"@, 58, "if"@),
        spells("String toString() { String n = this.getClass().getName(); if (detailMessage == null) { return n; } return n + \": \" + detailMessage; }\n}\n"@, 62, "detailMessage"@),
        spells("String toString() { String n = this.getClass().getName(); if (detailMessage == null) { return n; } return n + \": \" + detailMessage; }\n}\n"@, 79, "null"@),
        spells("String toString() { String n = this.getClass().getName(); if (detailMessage == null) { return n; } return n + \": \" + detailMessage; }\n}\n"@, 87, "return"@),
        spells("String toString() { String n = this.getClass().getName(); if (detailMessage == null) { return n; } return n + \": \" + detailMessage; }\n}\n"@, 94, "n"@),
        spells("String toString() { String n = this.getClass().getName(); if (detailMessage == null) { return n; } return n + \": \" + detailMessage; }\n}\n"@, 99, "return"@),
        spells("String toString() { String n = this.getClass().getName(); if (detailMessage == null) { return n; } return n + \": \" + detailMessage; }\n}\n"@, 106, "n"@),
        spells("String toString() { String n = this.getClass().getName(); if (detailMessage == null) { return n; } return n + \": \" + detailMessage; }\n}\n"@, 117, "detailMessage"@),
        "String toString() { String n = this.getClass().getName(); if (detailMessage == null) { return n; } return n + \": \" + detailMessage; }\n}\n"@[6] == ' ',
        "String toString() { String n = this.getClass().getName(); if (detailMessage == null) { return n; } return n + \": \" + detailMessage; }\n}\n"@[15] == '(',
        "String toString() { String n = this.getClass().getName(); if (detailMessage == null) { return n; } return n + \": \" + detailMessage; }\n}\n"@[16] == ')',
        "String toString() { String n = this.getClass().getName(); if (detailMessage == null) { return n; } return n + \": \" + detailMessage; }\n}\n"@[17] == ' ',
        "String toString() { String n = this.getClass().getName(); if (detailMessage == null) { return n; } return n + \": \" + detailMessage; }\n}\n"@[18] == '{',
        "String toString() { String n = this.getClass().getName(); if (detailMessage == null) { return n; } return n + \": \" + detailMessage; }\n}\n"@[19] == ' ',
        "String toString() { String n = this.getClass().getName(); if (detailMessage == null) { return n; } return n + \": \" + detailMessage; }\n}\n"@[26] == ' ',
        "String toString() { String n = this.getClass().getName(); if (detailMessage == null) { return n; } return n + \": \" + detailMessage; }\n}\n"@[28] == ' ',
        "String toString() { String n = this.getClass().getName(); if (detailMessage == null) { return n; } return n + \": \" + detailMessage; }\n}\n"@[29] == '=',
        "String toString() { String n = this.getClass().getName(); if (detailMessage == null) { return n; } return n + \": \" + detailMessage; }\n}\n"@[30] == ' ',
        "String toString() { String n = this.getClass().getName(); if (detailMessage == null) { return n; } return n + \": \" + detailMessage; }\n}\n"@[35] == '.',
        "String toString() { String n = this.getClass().getName(); if (detailMessage == null) { return n; } return n + \": \" + detailMessage; }\n}\n"@[36] == 'g',
        "String toString() { String n = this.getClass().getName(); if (detailMessage == null) { return n; } return n + \": \" + detailMessage; }\n}\n"@[44] == '(',
        "String toString() { String n = this.getClass().getName(); if (detailMessage == null) { return n; } return n + \": \" + detailMessage; }\n}\n"@[45] == ')',
        "String toString() { String n = this.getClass().getName(); if (detailMessage == null) { return n; } return n + \": \" + detailMessage; }\n}\n"@[46] == '.',
        "String toString() { String n = this.getClass().getName(); if (detailMessage == null) { return n; } return n + \": \" + detailMessage; }\n}\n"@[47] == 'g',
        "String toString() { String n = this.getClass().getName(); if (detailMessage == null) { return n; } return n + \": \" + detailMessage; }\n}\n"@[54] == '(',
        "String toString() { String n = this.getClass().getName(); if (detailMessage == null) { return n; } return n + \": \" + detailMessage; }\n}\n"@[55] == ')',
        "String toString() { String n = this.getClass().getName(); if (detailMessage == null) { return n; } return n + \": \" + detailMessage; }\n}\n"@[56] == ';',
        "String toString() { String n = this.getClass().getName(); if (detailMessage == null) { return n; } return n + \": \" + detailMessage; }\n}\n"@[57] == ' ',
        "String toString() { String n = this.getClass().getName(); if (detailMessage == null) { return n; } return n + \": \" + detailMessage; }\n}\n"@[60] == ' ',
        "String toString() { String n = this.getClass().getName(); if (detailMessage == null) { return n; } return n + \": \" + detailMessage; }\n}\n"@[61] == '(',
        "String toString() { String n = this.getClass().getName(); if (detailMessage == null) { return n; } return n + \": \" + detailMessage; }\n}\n"@[62] == 'd',
        "String toString() { String n = this.getClass().getName(); if (detailMessage == null) { return n; } return n + \": \" + detailMessage; }\n}\n"@[75] == ' ',
        "String toString() { String n = this.getClass().getName(); if (detailMessage == null) { return n; } return n + \": \" + detailMessage; }\n}\n"@[76] == '=',
        "String toString() { String n = this.getClass().getName(); if (detailMessage == null) { return n; } return n + \": \" + detailMessage; }\n}\n"@[77] == '=',
        "String toString() { String n = this.getClass().getName(); if (detailMessage == null) { return n; } return n + \": \" + detailMessage; }\n}\n"@[78] == ' ',
        "String toString() { String n = this.getClass().getName(); if (detailMessage == null) { return n; } return n + \": \" + detailMessage; }\n}\n"@[83] == ')',
        "String toString() { String n = this.getClass().getName(); if (detailMessage == null) { return n; } return n + \": \" + detailMessage; }\n}\n"@[84] == ' ',
        "String toString() { String n = this.getClass().getName(); if (detailMessage == null) { return n; } return n + \": \" + detailMessage; }\n}\n"@[85] == '{',
        "String toString() { String n = this.getClass().getName(); if (detailMessage == null) { return n; } return n + \": \" + detailMessage; }\n}\n"@[86] == ' ',
        "String toString() { String n = this.getClass().getName(); if (detailMessage == null) { return n; } return n + \": \" + detailMessage; }\n}\n"@[93] == ' ',
        "String toString() { String n = this.getClass().getName(); if (detailMessage == null) { return n; } return n + \": \" + detailMessage; }\n}\n"@[95] == ';',
        "String toString() { String n = this.getClass().getName(); if (detailMessage == null) { return n; } return n + \": \" + detailMessage; }\n}\n"@[96] == ' ',
        "String toString() { String n = this.getClass().getName(); if (detailMessage == null) { return n; } return n + \": \" + detailMessage; }\n}\n"@[97] == '}',
        "String toString() { String n = this.getClass().getName(); if (detailMessage == null) { return n; } return n + \": \" + detailMessage; }\n}\n"@[98] == ' ',
        "String toString() { String n = this.getClass().getName(); if (detailMessage == null) { return n; } return n + \": \" + detailMessage; }\n}\n"@[105] == ' ',
        "String toString() { String n = this.getClass().getName(); if (detailMessage == null) { return n; } return n + \": \" + detailMessage; }\n}\n"@[107] == ' ',
        "String toString() { String n = this.getClass().getName(); if (detailMessage == null) { return n; } return n + \": \" + detailMessage; }\n}\n"@[108] == '+',
        "String toString() { String n = this.getClass().getName(); if (detailMessage == null) { return n; } return n + \": \" + detailMessage; }\n}\n"@[109] == ' ',
        "String toString() { String n = this.getClass().getName(); if (detailMessage == null) { return n; } return n + \": \" + detailMessage; }\n}\n"@[110] == '\"',
        "String toString() { String n = this.getClass().getName(); if (detailMessage == null) { return n; } return n + \": \" + detailMessage; }\n}\n"@[111] == ':',
        "String toString() { String n = this.getClass().getName(); if (detailMessage == null) { return n; } return n + \": \" + detailMessage; }\n}\n"@[112] == ' ',
        "String toString() { String n = this.getClass().getName(); if (detailMessage == null) { return n; } return n + \": \" + detailMessage; }\n}\n"@[113] == '\"',
        "String toString() { String n = this.getClass().getName(); if (detailMessage == null) { return n; } return n + \": \" + detailMessage; }\n}\n"@[114] == ' ',
        "String toString() { String n = this.getClass().getName(); if (detailMessage == null) { return n; } return n + \": \" + detailMessage; }\n}\n"@[115] == '+',
        "String toString() { String n = this.getClass().getName(); if (detailMessage == null) { return n; } return n + \": \" + detailMessage; }\n}\n"@[116] == ' ',
        "String toString() { String n = this.getClass().getName(); if (detailMessage == null) { return n; } return n + \": \" + detailMessage; }\n}\n"@[130] == ';',
        "String toString() { String n = this.getClass().getName(); if (detailMessage == null) { return n; } return n + \": \" + detailMessage; }\n}\n"@[131] == ' ',
        "String toString() { String n = this.getClass().getName(); if (detailMessage == null) { return n; } return n + \": \" + detailMessage; }\n}\n"@[132] == '}',
        "String toString() { String n = this.getClass().getName(); if (detailMessage == null) { return n; } return n + \": \" + detailMessage; }\n}\n"@[133] == '\n',
        "String toString() { String n = this.getClass().getName(); if (detailMessage == null) { return n; } return n + \": \" + detailMessage; }\n}\n"@[134] == '}',
        "String toString() { String n = this.getClass().getName(); if (detailMessage == null) { return n; } return n + \": \" + detailMessage; }\n}\n"@[135] == '\n',
{
    reveal_strlit("String toString() { String n = this.getClass().getName(); if (detailMessage == null) { return n; } return n + \": \" + detailMessage; }\n}\n");
    reveal_strlit("String");
    reveal_strlit("detailMessage");
    reveal_strlit("getClass");
    reveal_strlit("getName");
    reveal_strlit("if");
    reveal_strlit("n");
    reveal_strlit("null");
    reveal_strlit("return");
    reveal_strlit("this");
    reveal_strlit("toString");
}

/// Lexing them.
proof fn lexes_root_text(s: Seq<char>, b: int, l: int, done: Seq<TokenV>)
    requires
        spells(s, b, "String toString() { String n = this.getClass().getName(); if (detailMessage == null) { return n; } return n + \": \" + detailMessage; }\n}\n"@),
    ensures
        rest(s, b, l, done) == rest(s, b + 136, next_line(next_line(l)), done + root_text_tokens(l)),
        !in_word("String toString() { String n = this.getClass().getName(); if (detailMessage == null) { return n; } return n + \": \" + detailMessage; }\n}\n"@[0]) ==> !in_word(s[b]),
{
    words_are_known();
    spelling_of_root_text();
    reads_gap(s, b, "String toString() { String n = this.getClass().getName(); if (detailMessage == null) { return n; } return n + \": \" + detailMessage; }\n}\n"@, 0);
    let text = "String toString() { String n = this.getClass().getName(); if (detailMessage == null) { return n; } return n + \": \" + detailMessage; }\n}\n"@;
    let d0 = done;
    reads_name_space(s, b, text, 0, 7, "String"@, l, d0);
    let d1 = d0.push(name_tok("String"@, l));
    reads_name(s, b, text, 7, 15, "toString"@, l, d1);
    let d2 = d1.push(name_tok("toString"@, l));
    reads_sign(s, b, text, 15, Tok::LParen, l, d2);
    let d3 = d2.push(sign_tok(Tok::LParen, l));
    reads_sign(s, b, text, 16, Tok::RParen, l, d3);
    let d4 = d3.push(sign_tok(Tok::RParen, l));
    reads_space(s, b, text, 17, l, d4);
    reads_sign(s, b, text, 18, Tok::LBrace, l, d4);
    let d5 = d4.push(sign_tok(Tok::LBrace, l));
    reads_space(s, b, text, 19, l, d5);
    reads_name_space(s, b, text, 20, 27, "String"@, l, d5);
    let d6 = d5.push(name_tok("String"@, l));
    reads_name_space(s, b, text, 27, 29, "n"@, l, d6);
    let d7 = d6.push(name_tok("n"@, l));
    reads_operator_sign(s, b, text, 29, 30, Tok::Assign, l, d7);
    let d8 = d7.push(sign_tok(Tok::Assign, l));
    reads_space(s, b, text, 30, l, d8);
    reads_name(s, b, text, 31, 35, "this"@, l, d8);
    let d9 = d8.push(name_tok("this"@, l));
    reads_sign(s, b, text, 35, Tok::Dot, l, d9);
    let d10 = d9.push(sign_tok(Tok::Dot, l));
    reads_name(s, b, text, 36, 44, "getClass"@, l, d10);
    let d11 = d10.push(name_tok("getClass"@, l));
    reads_sign(s, b, text, 44, Tok::LParen, l, d11);
    let d12 = d11.push(sign_tok(Tok::LParen, l));
    reads_sign(s, b, text, 45, Tok::RParen, l, d12);
    let d13 = d12.push(sign_tok(Tok::RParen, l));
    reads_sign(s, b, text, 46, Tok::Dot, l, d13);
    let d14 = d13.push(sign_tok(Tok::Dot, l));
    reads_name(s, b, text, 47, 54, "getName"@, l, d14);
    let d15 = d14.push(name_tok("getName"@, l));
    reads_sign(s, b, text, 54, Tok::LParen, l, d15);
    let d16 = d15.push(sign_tok(Tok::LParen, l));
    reads_sign(s, b, text, 55, Tok::RParen, l, d16);
    let d17 = d16.push(sign_tok(Tok::RParen, l));
    reads_sign(s, b, text, 56, Tok::Semi, l, d17);
    let d18 = d17.push(sign_tok(Tok::Semi, l));
    reads_space(s, b, text, 57, l, d18);
    reads_key_space(s, b, text, 58, 61, "if"@, Tok::If, l, d18);
    let d19 = d18.push(sign_tok(Tok::If, l));
    reads_sign(s, b, text, 61, Tok::LParen, l, d19);
    let d20 = d19.push(sign_tok(Tok::LParen, l));
    reads_name_space(s, b, text, 62, 76, "detailMessage"@, l, d20);
    let d21 = d20.push(name_tok("detailMessage"@, l));
    reads_operator_sign(s, b, text, 76, 78, Tok::EqEq, l, d21);
    let d22 = d21.push(sign_tok(Tok::EqEq, l));
    reads_space(s, b, text, 78, l, d22);
    reads_name(s, b, text, 79, 83, "null"@, l, d22);
    let d23 = d22.push(name_tok("null"@, l));
    reads_sign(s, b, text, 83, Tok::RParen, l, d23);
    let d24 = d23.push(sign_tok(Tok::RParen, l));
    reads_space(s, b, text, 84, l, d24);
    reads_sign(s, b, text, 85, Tok::LBrace, l, d24);
    let d25 = d24.push(sign_tok(Tok::LBrace, l));
    reads_space(s, b, text, 86, l, d25);
    reads_key_space(s, b, text, 87, 94, "return"@, Tok::Return, l, d25);
    let d26 = d25.push(sign_tok(Tok::Return, l));
    reads_name(s, b, text, 94, 95, "n"@, l, d26);
    let d27 = d26.push(name_tok("n"@, l));
    reads_sign(s, b, text, 95, Tok::Semi, l, d27);
    let d28 = d27.push(sign_tok(Tok::Semi, l));
    reads_space(s, b, text, 96, l, d28);
    reads_sign(s, b, text, 97, Tok::RBrace, l, d28);
    let d29 = d28.push(sign_tok(Tok::RBrace, l));
    reads_space(s, b, text, 98, l, d29);
    reads_key_space(s, b, text, 99, 106, "return"@, Tok::Return, l, d29);
    let d30 = d29.push(sign_tok(Tok::Return, l));
    reads_name_space(s, b, text, 106, 108, "n"@, l, d30);
    let d31 = d30.push(name_tok("n"@, l));
    reads_operator_sign(s, b, text, 108, 109, Tok::Plus, l, d31);
    let d32 = d31.push(sign_tok(Tok::Plus, l));
    reads_space(s, b, text, 109, l, d32);
    reads_colon_text(s, b, text, 110, l, d32);
    let d33 = d32.push(tok(Tok::Str, seq![':', ' '], l));
    reads_space(s, b, text, 114, l, d33);
    reads_operator_sign(s, b, text, 115, 116, Tok::Plus, l, d33);
    let d34 = d33.push(sign_tok(Tok::Plus, l));
    reads_space(s, b, text, 116, l, d34);
    reads_name(s, b, text, 117, 130, "detailMessage"@, l, d34);
    let d35 = d34.push(name_tok("detailMessage"@, l));
    reads_sign(s, b, text, 130, Tok::Semi, l, d35);
    let d36 = d35.push(sign_tok(Tok::Semi, l));
    reads_space(s, b, text, 131, l, d36);
    reads_sign(s, b, text, 132, Tok::RBrace, l, d36);
    let d37 = d36.push(sign_tok(Tok::RBrace, l));
    reads_line(s, b, text, 133, l, d37);
    reads_sign(s, b, text, 134, Tok::RBrace, next_line(l), d37);
    let d38 = d37.push(sign_tok(Tok::RBrace, next_line(l)));
    reads_line(s, b, text, 135, next_line(l), d38);
    assert(d38 =~= done + root_text_tokens(l));
}

/// The tokens of what an entry class starts with.
pub open spec fn entry_front_tokens(l: int) -> Seq<TokenV> {
    seq![
        sign_tok(Tok::Public, l), sign_tok(Tok::Class, l),
    ]
}

proof fn spelling_of_entry_front()
    ensures
        "public class "@.len() == 13,
        spells("public class "@, 0, "public"@) && spells("public class "@, 7, "class"@),
        "public class "@[6] == ' ' && "public class "@[12] == ' ',
{
    reveal_strlit("public class ");
    reveal_strlit("class");
    reveal_strlit("public");
}

/// Lexing them.
proof fn lexes_entry_front(s: Seq<char>, b: int, l: int, done: Seq<TokenV>)
    requires
        spells(s, b, "public class "@),
    ensures
        rest(s, b, l, done) == rest(s, b + 13, l, done + entry_front_tokens(l)),
        !in_word("public class "@[0]) ==> !in_word(s[b]),
{
    words_are_known();
    spelling_of_entry_front();
    reads_gap(s, b, "public class "@, 0);
    let text = "public class "@;
    let d0 = done;
    reads_key_space(s, b, text, 0, 7, "public"@, Tok::Public, l, d0);
    let d1 = d0.push(sign_tok(Tok::Public, l));
    reads_key_space(s, b, text, 7, 13, "class"@, Tok::Class, l, d1);
    let d2 = d1.push(sign_tok(Tok::Class, l));
    assert(d2 =~= done + entry_front_tokens(l));
}

/// The tokens of an empty entry point.
pub open spec fn entry_body_tokens(l: int) -> Seq<TokenV> {
    seq![
        sign_tok(Tok::LBrace, l), sign_tok(Tok::Public, l), sign_tok(Tok::Static, l),
        sign_tok(Tok::Void, l), name_tok("main"@, l), sign_tok(Tok::LParen, l),
        name_tok("String"@, l), sign_tok(Tok::LBracket, l), sign_tok(Tok::RBracket, l),
        name_tok("a"@, l), sign_tok(Tok::RParen, l), sign_tok(Tok::LBrace, l),
        sign_tok(Tok::RBrace, l), sign_tok(Tok::RBrace, l),
    ]
}

proof fn spelling_of_entry_body()
    ensures
        " { public static void main(String[] a) { } }\n"@.len() == 45,
        spells(" { public static void main(String[] a) { } }\n"@, 3, "public"@),
        spells(" { public static void main(String[] a) { } }\n"@, 10, "static"@),
        spells(" { public static void main(String[] a) { } }\n"@, 17, "void"@),
        spells(" { public static void main(String[] a) { } }\n"@, 22, "main"@),
        spells(" { public static void main(String[] a) { } }\n"@, 27, "String"@),
        spells(" { public static void main(String[] a) { } }\n"@, 36, "a"@),
        " { public static void main(String[] a) { } }\n"@[0] == ' ',
        " { public static void main(String[] a) { } }\n"@[1] == '{',
        " { public static void main(String[] a) { } }\n"@[2] == ' ',
        " { public static void main(String[] a) { } }\n"@[9] == ' ',
        " { public static void main(String[] a) { } }\n"@[16] == ' ',
        " { public static void main(String[] a) { } }\n"@[21] == ' ',
        " { public static void main(String[] a) { } }\n"@[26] == '(',
        " { public static void main(String[] a) { } }\n"@[27] == 'S',
        " { public static void main(String[] a) { } }\n"@[33] == '[',
        " { public static void main(String[] a) { } }\n"@[34] == ']',
        " { public static void main(String[] a) { } }\n"@[35] == ' ',
        " { public static void main(String[] a) { } }\n"@[37] == ')',
        " { public static void main(String[] a) { } }\n"@[38] == ' ',
        " { public static void main(String[] a) { } }\n"@[39] == '{',
        " { public static void main(String[] a) { } }\n"@[40] == ' ',
        " { public static void main(String[] a) { } }\n"@[41] == '}',
        " { public static void main(String[] a) { } }\n"@[42] == ' ',
        " { public static void main(String[] a) { } }\n"@[43] == '}',
        " { public static void main(String[] a) { } }\n"@[44] == '\n',
{
    reveal_strlit(" { public static void main(String[] a) { } }\n");
    reveal_strlit("String");
    reveal_strlit("a");
    reveal_strlit("main");
    reveal_strlit("public");
    reveal_strlit("static");
    reveal_strlit("void");
}

/// Lexing them.
proof fn lexes_entry_body(s: Seq<char>, b: int, l: int, done: Seq<TokenV>)
    requires
        spells(s, b, " { public static void main(String[] a) { } }\n"@),
    ensures
        rest(s, b, l, done) == rest(s, b + 45, next_line(l), done + entry_body_tokens(l)),
        !in_word(" { public static void main(String[] a) { } }\n"@[0]) ==> !in_word(s[b]),
{
    words_are_known();
    spelling_of_entry_body();
    reads_gap(s, b, " { public static void main(String[] a) { } }\n"@, 0);
    let text = " { public static void main(String[] a) { } }\n"@;
    let d0 = done;
    reads_space(s, b, text, 0, l, d0);
    reads_sign(s, b, text, 1, Tok::LBrace, l, d0);
    let d1 = d0.push(sign_tok(Tok::LBrace, l));
    reads_space(s, b, text, 2, l, d1);
    reads_key_space(s, b, text, 3, 10, "public"@, Tok::Public, l, d1);
    let d2 = d1.push(sign_tok(Tok::Public, l));
    reads_key_space(s, b, text, 10, 17, "static"@, Tok::Static, l, d2);
    let d3 = d2.push(sign_tok(Tok::Static, l));
    reads_key_space(s, b, text, 17, 22, "void"@, Tok::Void, l, d3);
    let d4 = d3.push(sign_tok(Tok::Void, l));
    reads_name(s, b, text, 22, 26, "main"@, l, d4);
    let d5 = d4.push(name_tok("main"@, l));
    reads_sign(s, b, text, 26, Tok::LParen, l, d5);
    let d6 = d5.push(sign_tok(Tok::LParen, l));
    reads_name(s, b, text, 27, 33, "String"@, l, d6);
    let d7 = d6.push(name_tok("String"@, l));
    reads_sign(s, b, text, 33, Tok::LBracket, l, d7);
    let d8 = d7.push(sign_tok(Tok::LBracket, l));
    reads_sign(s, b, text, 34, Tok::RBracket, l, d8);
    let d9 = d8.push(sign_tok(Tok::RBracket, l));
    reads_space(s, b, text, 35, l, d9);
    reads_name(s, b, text, 36, 37, "a"@, l, d9);
    let d10 = d9.push(name_tok("a"@, l));
    reads_sign(s, b, text, 37, Tok::RParen, l, d10);
    let d11 = d10.push(sign_tok(Tok::RParen, l));
    reads_space(s, b, text, 38, l, d11);
    reads_sign(s, b, text, 39, Tok::LBrace, l, d11);
    let d12 = d11.push(sign_tok(Tok::LBrace, l));
    reads_space(s, b, text, 40, l, d12);
    reads_sign(s, b, text, 41, Tok::RBrace, l, d12);
    let d13 = d12.push(sign_tok(Tok::RBrace, l));
    reads_space(s, b, text, 42, l, d13);
    reads_sign(s, b, text, 43, Tok::RBrace, l, d13);
    let d14 = d13.push(sign_tok(Tok::RBrace, l));
    reads_line(s, b, text, 44, l, d14);
    assert(d14 =~= done + entry_body_tokens(l));
}

/// The tokens of a throwable with a superclass.
pub open spec fn derived_row(name: Seq<char>, sup: Seq<char>, l: int) -> Seq<TokenV> {
    class_front_tokens(l) + seq![name_tok(name, l)] + extends_mark_tokens(l) + seq![name_tok(sup, l)] + derived_open_tokens(l) + seq![name_tok(name, next_line(l))] + no_message_tokens(next_line(l)) + seq![name_tok(name, next_line(next_line(l)))] + passed_message_tokens(next_line(next_line(l)))
}

/// It is lexed as these tokens.
pub proof fn lexes_derived_row(name: Seq<char>, sup: Seq<char>, s: Seq<char>, b: int, l: int, done: Seq<TokenV>)
    requires
        is_common(name),
        is_common(sup),
        spells(s, b, throwable_source(name, sup)),
    ensures
        rest(s, b, l, done) == rest(s, b + throwable_source(name, sup).len(), next_line(next_line(next_line(next_line(l)))), done + derived_row(name, sup, l)),
{
    spelling_of_class_front();
    spelling_of_extends_mark();
    spelling_of_derived_open();
    spelling_of_no_message();
    spelling_of_passed_message();
    spells_both(s, b, "class "@ + name + " extends "@ + sup + " {\n  "@ + name + "() { }\n  "@ + name, "(String m) { super(m); }\n}\n"@);
    spells_both(s, b, "class "@ + name + " extends "@ + sup + " {\n  "@ + name + "() { }\n  "@, name);
    spells_both(s, b, "class "@ + name + " extends "@ + sup + " {\n  "@ + name, "() { }\n  "@);
    spells_both(s, b, "class "@ + name + " extends "@ + sup + " {\n  "@, name);
    spells_both(s, b, "class "@ + name + " extends "@ + sup, " {\n  "@);
    spells_both(s, b, "class "@ + name + " extends "@, sup);
    spells_both(s, b, "class "@ + name, " extends "@);
    spells_both(s, b, "class "@, name);
    let d0 = done;
    lexes_class_front(s, b + 0, l, d0);
    let d1 = d0 + class_front_tokens(l);
    reads_gap(s, b + 6 + name.len(), " extends "@, 0);
    lexes_name(s, b + 6, b + 6 + name.len(), name, l, d1);
    let d2 = d1.push(name_tok(name, l));
    lexes_extends_mark(s, b + 6 + name.len(), l, d2);
    let d3 = d2 + extends_mark_tokens(l);
    reads_gap(s, b + 15 + name.len() + sup.len(), " {\n  "@, 0);
    lexes_name(s, b + 15 + name.len(), b + 15 + name.len() + sup.len(), sup, l, d3);
    let d4 = d3.push(name_tok(sup, l));
    lexes_derived_open(s, b + 15 + name.len() + sup.len(), l, d4);
    let d5 = d4 + derived_open_tokens(l);
    reads_gap(s, b + 20 + 2 * name.len() + sup.len(), "() { }\n  "@, 0);
    lexes_name(s, b + 20 + name.len() + sup.len(), b + 20 + 2 * name.len() + sup.len(), name, next_line(l), d5);
    let d6 = d5.push(name_tok(name, next_line(l)));
    lexes_no_message(s, b + 20 + 2 * name.len() + sup.len(), next_line(l), d6);
    let d7 = d6 + no_message_tokens(next_line(l));
    reads_gap(s, b + 29 + 3 * name.len() + sup.len(), "(String m) { super(m); }\n}\n"@, 0);
    lexes_name(s, b + 29 + 2 * name.len() + sup.len(), b + 29 + 3 * name.len() + sup.len(), name, next_line(next_line(l)), d7);
    let d8 = d7.push(name_tok(name, next_line(next_line(l))));
    lexes_passed_message(s, b + 29 + 3 * name.len() + sup.len(), next_line(next_line(l)), d8);
    let d9 = d8 + passed_message_tokens(next_line(next_line(l)));
    assert(d9 =~= done + derived_row(name, sup, l));
}

/// It is read as one class.
pub proof fn declares_derived(name: Seq<char>, sup: Seq<char>, t: Seq<TokenV>, p: int, l: int)
    requires
        is_common(name),
        is_common(sup),
        0 <= p,
        p + derived_row(name, sup, l).len() < t.len(),
        t.subrange(p, p + derived_row(name, sup, l).len()) == derived_row(name, sup, l),
    ensures
        declares_class(t, name, Some(sup), false, p, p + derived_row(name, sup, l).len()),
        t[p].kind != Tok::Eof,
{
    words_are_known();
    let w = derived_row(name, sup, l);
    assert(class_front_tokens(l).len() == 1);
    assert(extends_mark_tokens(l).len() == 1);
    assert(derived_open_tokens(l).len() == 1);
    assert(no_message_tokens(next_line(l)).len() == 4);
    assert(passed_message_tokens(next_line(next_line(l))).len() == 12);
    assert(w.len() == 23);
    assert forall|k: int| 0 <= k < 23 implies t[p + k] == #[trigger] w[k] by {
        assert(t.subrange(p, p + w.len())[k] == w[k]);
    }
    assert(t[p] == w[0] && w[0] == class_front_tokens(l)[0]);
    assert(t[p + 1] == w[1] && w[1] == name_tok(name, l));
    assert(t[p + 2] == w[2] && w[2] == extends_mark_tokens(l)[0]);
    assert(t[p + 3] == w[3] && w[3] == name_tok(sup, l));
    assert(t[p + 4] == w[4] && w[4] == derived_open_tokens(l)[0]);
    assert(t[p + 5] == w[5] && w[5] == name_tok(name, next_line(l)));
    assert(t[p + 6] == w[6] && w[6] == no_message_tokens(next_line(l))[0]);
    assert(t[p + 7] == w[7] && w[7] == no_message_tokens(next_line(l))[1]);
    assert(t[p + 8] == w[8] && w[8] == no_message_tokens(next_line(l))[2]);
    assert(t[p + 9] == w[9] && w[9] == no_message_tokens(next_line(l))[3]);
    assert(t[p + 10] == w[10] && w[10] == name_tok(name, next_line(next_line(l))));
    assert(t[p + 11] == w[11] && w[11] == passed_message_tokens(next_line(next_line(l)))[0]);
    assert(t[p + 12] == w[12] && w[12] == passed_message_tokens(next_line(next_line(l)))[1]);
    assert(t[p + 13] == w[13] && w[13] == passed_message_tokens(next_line(next_line(l)))[2]);
    assert(t[p + 14] == w[14] && w[14] == passed_message_tokens(next_line(next_line(l)))[3]);
    assert(t[p + 15] == w[15] && w[15] == passed_message_tokens(next_line(next_line(l)))[4]);
    assert(t[p + 16] == w[16] && w[16] == passed_message_tokens(next_line(next_line(l)))[5]);
    assert(t[p + 17] == w[17] && w[17] == passed_message_tokens(next_line(next_line(l)))[6]);
    assert(t[p + 18] == w[18] && w[18] == passed_message_tokens(next_line(next_line(l)))[7]);
    assert(t[p + 19] == w[19] && w[19] == passed_message_tokens(next_line(next_line(l)))[8]);
    assert(t[p + 20] == w[20] && w[20] == passed_message_tokens(next_line(next_line(l)))[9]);
    assert(t[p + 21] == w[21] && w[21] == passed_message_tokens(next_line(next_line(l)))[10]);
    assert(t[p + 22] == w[22] && w[22] == passed_message_tokens(next_line(next_line(l)))[11]);
    reads_no_parameters(t, p + 7);
    reads_block_end(t, p + 9);
    reads_block(t, p + 9, p + 10);
    reads_constructor(t, name, p + 5, p + 7, p + 10);
    reads_last_parameter(t, p + 12);
    reads_parameters(t, p + 12, p + 14);
    reads_chain_end(t, p + 19);
    reads_variable(t, p + 18, p + 19);
    reads_no_operator(t, 0u8, p + 19);
    reads_operation(t, 0u8, p + 18, p + 19, p + 19);
    reads_simple(t, p + 18, p + 19);
    reads_last_argument(t, p + 18, p + 19);
    reads_arguments(t, p + 17, p + 20);
    reads_chain_end(t, p + 20);
    reads_call(t, p + 16, p + 20, p + 20);
    reads_no_operator(t, 0u8, p + 20);
    reads_operation(t, 0u8, p + 16, p + 20, p + 20);
    reads_simple(t, p + 16, p + 20);
    reads_call_statement(t, p + 16, p + 20);
    reads_block_end(t, p + 21);
    reads_next_statement(t, p + 16, p + 21, p + 22);
    reads_block(t, p + 16, p + 22);
    reads_constructor(t, name, p + 10, p + 14, p + 22);
    reads_members_end(t, name, p + 22);
    reads_next_member(t, name, p + 10, p + 22, p + 23);
    reads_next_member(t, name, p + 5, p + 10, p + 23);
    reads_derived_class(t, p, p + 23);
}

/// The tokens of the root of the throwables.
pub open spec fn root_row(name: Seq<char>, l: int) -> Seq<TokenV> {
    class_front_tokens(l) + seq![name_tok(name, l)] + root_open_tokens(l) + seq![name_tok(name, next_line(next_line(l)))] + no_message_tokens(next_line(next_line(l))) + seq![name_tok(name, next_line(next_line(next_line(l))))] + kept_message_tokens(next_line(next_line(next_line(l)))) + message_getter_tokens(next_line(next_line(next_line(next_line(l))))) + localized_getter_tokens(next_line(next_line(next_line(next_line(next_line(l)))))) + root_text_tokens(next_line(next_line(next_line(next_line(next_line(next_line(l)))))))
}

/// It is lexed as these tokens.
pub proof fn lexes_root_row(name: Seq<char>, s: Seq<char>, b: int, l: int, done: Seq<TokenV>)
    requires
        is_common(name),
        spells(s, b, throwable_source(name, ""@)),
    ensures
        rest(s, b, l, done) == rest(s, b + throwable_source(name, ""@).len(), next_line(next_line(next_line(next_line(next_line(next_line(next_line(next_line(l)))))))), done + root_row(name, l)),
{
    assert("(String m) { detailMessage = m; }\n  String getMessage() { return detailMessage; }\n  String getLocalizedMessage() { return getMessage(); }\n  String toString() { String n = this.getClass().getName(); if (detailMessage == null) { return n; } return n + \": \" + detailMessage; }\n}\n"@ =~= "(String m) { detailMessage = m; }\n  "@ + "String getMessage() { return detailMessage; }\n  "@ + "String getLocalizedMessage() { return getMessage(); }\n  "@ + "String toString() { String n = this.getClass().getName(); if (detailMessage == null) { return n; } return n + \": \" + detailMessage; }\n}\n"@) by {
        reveal_strlit("(String m) { detailMessage = m; }\n  String getMessage() { return detailMessage; }\n  String getLocalizedMessage() { return getMessage(); }\n  String toString() { String n = this.getClass().getName(); if (detailMessage == null) { return n; } return n + \": \" + detailMessage; }\n}\n");
        reveal_strlit("(String m) { detailMessage = m; }\n  ");
        reveal_strlit("String getMessage() { return detailMessage; }\n  ");
        reveal_strlit("String getLocalizedMessage() { return getMessage(); }\n  ");
        reveal_strlit("String toString() { String n = this.getClass().getName(); if (detailMessage == null) { return n; } return n + \": \" + detailMessage; }\n}\n");
    }
    let front = "class "@ + name + " {\n  String detailMessage;\n  "@ + name + "() { }\n  "@ + name;
    assert(throwable_source(name, ""@) =~= front + "(String m) { detailMessage = m; }\n  "@ + "String getMessage() { return detailMessage; }\n  "@ + "String getLocalizedMessage() { return getMessage(); }\n  "@ + "String toString() { String n = this.getClass().getName(); if (detailMessage == null) { return n; } return n + \": \" + detailMessage; }\n}\n"@) by {
        reveal_strlit("");
    }
    spelling_of_class_front();
    spelling_of_root_open();
    spelling_of_no_message();
    spelling_of_kept_message();
    spelling_of_message_getter();
    spelling_of_localized_getter();
    spelling_of_root_text();
    spells_both(s, b, "class "@ + name + " {\n  String detailMessage;\n  "@ + name + "() { }\n  "@ + name + "(String m) { detailMessage = m; }\n  "@ + "String getMessage() { return detailMessage; }\n  "@ + "String getLocalizedMessage() { return getMessage(); }\n  "@, "String toString() { String n = this.getClass().getName(); if (detailMessage == null) { return n; } return n + \": \" + detailMessage; }\n}\n"@);
    spells_both(s, b, "class "@ + name + " {\n  String detailMessage;\n  "@ + name + "() { }\n  "@ + name + "(String m) { detailMessage = m; }\n  "@ + "String getMessage() { return detailMessage; }\n  "@, "String getLocalizedMessage() { return getMessage(); }\n  "@);
    spells_both(s, b, "class "@ + name + " {\n  String detailMessage;\n  "@ + name + "() { }\n  "@ + name + "(String m) { detailMessage = m; }\n  "@, "String getMessage() { return detailMessage; }\n  "@);
    spells_both(s, b, "class "@ + name + " {\n  String detailMessage;\n  "@ + name + "() { }\n  "@ + name, "(String m) { detailMessage = m; }\n  "@);
    spells_both(s, b, "class "@ + name + " {\n  String detailMessage;\n  "@ + name + "() { }\n  "@, name);
    spells_both(s, b, "class "@ + name + " {\n  String detailMessage;\n  "@ + name, "() { }\n  "@);
    spells_both(s, b, "class "@ + name + " {\n  String detailMessage;\n  "@, name);
    spells_both(s, b, "class "@ + name, " {\n  String detailMessage;\n  "@);
    spells_both(s, b, "class "@, name);
    let d0 = done;
    lexes_class_front(s, b + 0, l, d0);
    let d1 = d0 + class_front_tokens(l);
    reads_gap(s, b + 6 + name.len(), " {\n  String detailMessage;\n  "@, 0);
    lexes_name(s, b + 6, b + 6 + name.len(), name, l, d1);
    let d2 = d1.push(name_tok(name, l));
    lexes_root_open(s, b + 6 + name.len(), l, d2);
    let d3 = d2 + root_open_tokens(l);
    reads_gap(s, b + 35 + 2 * name.len(), "() { }\n  "@, 0);
    lexes_name(s, b + 35 + name.len(), b + 35 + 2 * name.len(), name, next_line(next_line(l)), d3);
    let d4 = d3.push(name_tok(name, next_line(next_line(l))));
    lexes_no_message(s, b + 35 + 2 * name.len(), next_line(next_line(l)), d4);
    let d5 = d4 + no_message_tokens(next_line(next_line(l)));
    reads_gap(s, b + 44 + 3 * name.len(), "(String m) { detailMessage = m; }\n  "@, 0);
    lexes_name(s, b + 44 + 2 * name.len(), b + 44 + 3 * name.len(), name, next_line(next_line(next_line(l))), d5);
    let d6 = d5.push(name_tok(name, next_line(next_line(next_line(l)))));
    lexes_kept_message(s, b + 44 + 3 * name.len(), next_line(next_line(next_line(l))), d6);
    let d7 = d6 + kept_message_tokens(next_line(next_line(next_line(l))));
    lexes_message_getter(s, b + 80 + 3 * name.len(), next_line(next_line(next_line(next_line(l)))), d7);
    let d8 = d7 + message_getter_tokens(next_line(next_line(next_line(next_line(l)))));
    lexes_localized_getter(s, b + 128 + 3 * name.len(), next_line(next_line(next_line(next_line(next_line(l))))), d8);
    let d9 = d8 + localized_getter_tokens(next_line(next_line(next_line(next_line(next_line(l))))));
    lexes_root_text(s, b + 184 + 3 * name.len(), next_line(next_line(next_line(next_line(next_line(next_line(l)))))), d9);
    let d10 = d9 + root_text_tokens(next_line(next_line(next_line(next_line(next_line(next_line(l)))))));
    assert(d10 =~= done + root_row(name, l));
}

/// It is read as one class.
pub proof fn declares_root(name: Seq<char>, t: Seq<TokenV>, p: int, l: int)
    requires
        is_common(name),
        0 <= p,
        p + root_row(name, l).len() < t.len(),
        t.subrange(p, p + root_row(name, l).len()) == root_row(name, l),
    ensures
        declares_class(t, name, None, false, p, p + root_row(name, l).len()),
        t[p].kind != Tok::Eof,
{
    words_are_known();
    let w = root_row(name, l);
    assert(class_front_tokens(l).len() == 1);
    assert(root_open_tokens(l).len() == 4);
    assert(no_message_tokens(next_line(next_line(l))).len() == 4);
    assert(kept_message_tokens(next_line(next_line(next_line(l)))).len() == 10);
    assert(message_getter_tokens(next_line(next_line(next_line(next_line(l))))).len() == 9);
    assert(localized_getter_tokens(next_line(next_line(next_line(next_line(next_line(l)))))).len() == 11);
    assert(root_text_tokens(next_line(next_line(next_line(next_line(next_line(next_line(l))))))).len() == 38);
    assert(w.len() == 80);
    assert forall|k: int| 0 <= k < 80 implies t[p + k] == #[trigger] w[k] by {
        assert(t.subrange(p, p + w.len())[k] == w[k]);
    }
    assert(t[p] == w[0] && w[0] == class_front_tokens(l)[0]);
    assert(t[p + 1] == w[1] && w[1] == name_tok(name, l));
    assert(t[p + 2] == w[2] && w[2] == root_open_tokens(l)[0]);
    assert(t[p + 3] == w[3] && w[3] == root_open_tokens(l)[1]);
    assert(t[p + 4] == w[4] && w[4] == root_open_tokens(l)[2]);
    assert(t[p + 5] == w[5] && w[5] == root_open_tokens(l)[3]);
    assert(t[p + 6] == w[6] && w[6] == name_tok(name, next_line(next_line(l))));
    assert(t[p + 7] == w[7] && w[7] == no_message_tokens(next_line(next_line(l)))[0]);
    assert(t[p + 8] == w[8] && w[8] == no_message_tokens(next_line(next_line(l)))[1]);
    assert(t[p + 9] == w[9] && w[9] == no_message_tokens(next_line(next_line(l)))[2]);
    assert(t[p + 10] == w[10] && w[10] == no_message_tokens(next_line(next_line(l)))[3]);
    assert(t[p + 11] == w[11] && w[11] == name_tok(name, next_line(next_line(next_line(l)))));
    assert(t[p + 12] == w[12] && w[12] == kept_message_tokens(next_line(next_line(next_line(l))))[0]);
    assert(t[p + 13] == w[13] && w[13] == kept_message_tokens(next_line(next_line(next_line(l))))[1]);
    assert(t[p + 14] == w[14] && w[14] == kept_message_tokens(next_line(next_line(next_line(l))))[2]);
    assert(t[p + 15] == w[15] && w[15] == kept_message_tokens(next_line(next_line(next_line(l))))[3]);
    assert(t[p + 16] == w[16] && w[16] == kept_message_tokens(next_line(next_line(next_line(l))))[4]);
    assert(t[p + 17] == w[17] && w[17] == kept_message_tokens(next_line(next_line(next_line(l))))[5]);
    assert(t[p + 18] == w[18] && w[18] == kept_message_tokens(next_line(next_line(next_line(l))))[6]);
    assert(t[p + 19] == w[19] && w[19] == kept_message_tokens(next_line(next_line(next_line(l))))[7]);
    assert(t[p + 20] == w[20] && w[20] == kept_message_tokens(next_line(next_line(next_line(l))))[8]);
    assert(t[p + 21] == w[21] && w[21] == kept_message_tokens(next_line(next_line(next_line(l))))[9]);
    assert(t[p + 22] == w[22] && w[22] == message_getter_tokens(next_line(next_line(next_line(next_line(l)))))[0]);
    assert(t[p + 23] == w[23] && w[23] == message_getter_tokens(next_line(next_line(next_line(next_line(l)))))[1]);
    assert(t[p + 24] == w[24] && w[24] == message_getter_tokens(next_line(next_line(next_line(next_line(l)))))[2]);
    assert(t[p + 25] == w[25] && w[25] == message_getter_tokens(next_line(next_line(next_line(next_line(l)))))[3]);
    assert(t[p + 26] == w[26] && w[26] == message_getter_tokens(next_line(next_line(next_line(next_line(l)))))[4]);
    assert(t[p + 27] == w[27] && w[27] == message_getter_tokens(next_line(next_line(next_line(next_line(l)))))[5]);
    assert(t[p + 28] == w[28] && w[28] == message_getter_tokens(next_line(next_line(next_line(next_line(l)))))[6]);
    assert(t[p + 29] == w[29] && w[29] == message_getter_tokens(next_line(next_line(next_line(next_line(l)))))[7]);
    assert(t[p + 30] == w[30] && w[30] == message_getter_tokens(next_line(next_line(next_line(next_line(l)))))[8]);
    assert(t[p + 31] == w[31] && w[31] == localized_getter_tokens(next_line(next_line(next_line(next_line(next_line(l))))))[0]);
    assert(t[p + 32] == w[32] && w[32] == localized_getter_tokens(next_line(next_line(next_line(next_line(next_line(l))))))[1]);
    assert(t[p + 33] == w[33] && w[33] == localized_getter_tokens(next_line(next_line(next_line(next_line(next_line(l))))))[2]);
    assert(t[p + 34] == w[34] && w[34] == localized_getter_tokens(next_line(next_line(next_line(next_line(next_line(l))))))[3]);
    assert(t[p + 35] == w[35] && w[35] == localized_getter_tokens(next_line(next_line(next_line(next_line(next_line(l))))))[4]);
    assert(t[p + 36] == w[36] && w[36] == localized_getter_tokens(next_line(next_line(next_line(next_line(next_line(l))))))[5]);
    assert(t[p + 37] == w[37] && w[37] == localized_getter_tokens(next_line(next_line(next_line(next_line(next_line(l))))))[6]);
    assert(t[p + 38] == w[38] && w[38] == localized_getter_tokens(next_line(next_line(next_line(next_line(next_line(l))))))[7]);
    assert(t[p + 39] == w[39] && w[39] == localized_getter_tokens(next_line(next_line(next_line(next_line(next_line(l))))))[8]);
    assert(t[p + 40] == w[40] && w[40] == localized_getter_tokens(next_line(next_line(next_line(next_line(next_line(l))))))[9]);
    assert(t[p + 41] == w[41] && w[41] == localized_getter_tokens(next_line(next_line(next_line(next_line(next_line(l))))))[10]);
    assert(t[p + 42] == w[42] && w[42] == root_text_tokens(next_line(next_line(next_line(next_line(next_line(next_line(l)))))))[0]);
    assert(t[p + 43] == w[43] && w[43] == root_text_tokens(next_line(next_line(next_line(next_line(next_line(next_line(l)))))))[1]);
    assert(t[p + 44] == w[44] && w[44] == root_text_tokens(next_line(next_line(next_line(next_line(next_line(next_line(l)))))))[2]);
    assert(t[p + 45] == w[45] && w[45] == root_text_tokens(next_line(next_line(next_line(next_line(next_line(next_line(l)))))))[3]);
    assert(t[p + 46] == w[46] && w[46] == root_text_tokens(next_line(next_line(next_line(next_line(next_line(next_line(l)))))))[4]);
    assert(t[p + 47] == w[47] && w[47] == root_text_tokens(next_line(next_line(next_line(next_line(next_line(next_line(l)))))))[5]);
    assert(t[p + 48] == w[48] && w[48] == root_text_tokens(next_line(next_line(next_line(next_line(next_line(next_line(l)))))))[6]);
    assert(t[p + 49] == w[49] && w[49] == root_text_tokens(next_line(next_line(next_line(next_line(next_line(next_line(l)))))))[7]);
    assert(t[p + 50] == w[50] && w[50] == root_text_tokens(next_line(next_line(next_line(next_line(next_line(next_line(l)))))))[8]);
    assert(t[p + 51] == w[51] && w[51] == root_text_tokens(next_line(next_line(next_line(next_line(next_line(next_line(l)))))))[9]);
    assert(t[p + 52] == w[52] && w[52] == root_text_tokens(next_line(next_line(next_line(next_line(next_line(next_line(l)))))))[10]);
    assert(t[p + 53] == w[53] && w[53] == root_text_tokens(next_line(next_line(next_line(next_line(next_line(next_line(l)))))))[11]);
    assert(t[p + 54] == w[54] && w[54] == root_text_tokens(next_line(next_line(next_line(next_line(next_line(next_line(l)))))))[12]);
    assert(t[p + 55] == w[55] && w[55] == root_text_tokens(next_line(next_line(next_line(next_line(next_line(next_line(l)))))))[13]);
    assert(t[p + 56] == w[56] && w[56] == root_text_tokens(next_line(next_line(next_line(next_line(next_line(next_line(l)))))))[14]);
    assert(t[p + 57] == w[57] && w[57] == root_text_tokens(next_line(next_line(next_line(next_line(next_line(next_line(l)))))))[15]);
    assert(t[p + 58] == w[58] && w[58] == root_text_tokens(next_line(next_line(next_line(next_line(next_line(next_line(l)))))))[16]);
    assert(t[p + 59] == w[59] && w[59] == root_text_tokens(next_line(next_line(next_line(next_line(next_line(next_line(l)))))))[17]);
    assert(t[p + 60] == w[60] && w[60] == root_text_tokens(next_line(next_line(next_line(next_line(next_line(next_line(l)))))))[18]);
    assert(t[p + 61] == w[61] && w[61] == root_text_tokens(next_line(next_line(next_line(next_line(next_line(next_line(l)))))))[19]);
    assert(t[p + 62] == w[62] && w[62] == root_text_tokens(next_line(next_line(next_line(next_line(next_line(next_line(l)))))))[20]);
    assert(t[p + 63] == w[63] && w[63] == root_text_tokens(next_line(next_line(next_line(next_line(next_line(next_line(l)))))))[21]);
    assert(t[p + 64] == w[64] && w[64] == root_text_tokens(next_line(next_line(next_line(next_line(next_line(next_line(l)))))))[22]);
    assert(t[p + 65] == w[65] && w[65] == root_text_tokens(next_line(next_line(next_line(next_line(next_line(next_line(l)))))))[23]);
    assert(t[p + 66] == w[66] && w[66] == root_text_tokens(next_line(next_line(next_line(next_line(next_line(next_line(l)))))))[24]);
    assert(t[p + 67] == w[67] && w[67] == root_text_tokens(next_line(next_line(next_line(next_line(next_line(next_line(l)))))))[25]);
    assert(t[p + 68] == w[68] && w[68] == root_text_tokens(next_line(next_line(next_line(next_line(next_line(next_line(l)))))))[26]);
    assert(t[p + 69] == w[69] && w[69] == root_text_tokens(next_line(next_line(next_line(next_line(next_line(next_line(l)))))))[27]);
    assert(t[p + 70] == w[70] && w[70] == root_text_tokens(next_line(next_line(next_line(next_line(next_line(next_line(l)))))))[28]);
    assert(t[p + 71] == w[71] && w[71] == root_text_tokens(next_line(next_line(next_line(next_line(next_line(next_line(l)))))))[29]);
    assert(t[p + 72] == w[72] && w[72] == root_text_tokens(next_line(next_line(next_line(next_line(next_line(next_line(l)))))))[30]);
    assert(t[p + 73] == w[73] && w[73] == root_text_tokens(next_line(next_line(next_line(next_line(next_line(next_line(l)))))))[31]);
    assert(t[p + 74] == w[74] && w[74] == root_text_tokens(next_line(next_line(next_line(next_line(next_line(next_line(l)))))))[32]);
    assert(t[p + 75] == w[75] && w[75] == root_text_tokens(next_line(next_line(next_line(next_line(next_line(next_line(l)))))))[33]);
    assert(t[p + 76] == w[76] && w[76] == root_text_tokens(next_line(next_line(next_line(next_line(next_line(next_line(l)))))))[34]);
    assert(t[p + 77] == w[77] && w[77] == root_text_tokens(next_line(next_line(next_line(next_line(next_line(next_line(l)))))))[35]);
    assert(t[p + 78] == w[78] && w[78] == root_text_tokens(next_line(next_line(next_line(next_line(next_line(next_line(l)))))))[36]);
    assert(t[p + 79] == w[79] && w[79] == root_text_tokens(next_line(next_line(next_line(next_line(next_line(next_line(l)))))))[37]);
    reads_field(t, name, p + 3);
    reads_no_parameters(t, p + 8);
    reads_block_end(t, p + 10);
    reads_block(t, p + 10, p + 11);
    reads_constructor(t, name, p + 6, p + 8, p + 11);
    reads_last_parameter(t, p + 13);
    reads_parameters(t, p + 13, p + 15);
    reads_chain_end(t, p + 20);
    reads_variable(t, p + 19, p + 20);
    reads_no_operator(t, 0u8, p + 20);
    reads_operation(t, 0u8, p + 19, p + 20, p + 20);
    reads_simple(t, p + 19, p + 20);
    reads_assignment(t, p + 17, p + 20);
    reads_block_end(t, p + 21);
    reads_next_statement(t, p + 17, p + 21, p + 22);
    reads_block(t, p + 17, p + 22);
    reads_constructor(t, name, p + 11, p + 15, p + 22);
    reads_no_parameters(t, p + 25);
    reads_chain_end(t, p + 29);
    reads_variable(t, p + 28, p + 29);
    reads_no_operator(t, 0u8, p + 29);
    reads_operation(t, 0u8, p + 28, p + 29, p + 29);
    reads_simple(t, p + 28, p + 29);
    reads_return(t, p + 27, p + 29);
    reads_block_end(t, p + 30);
    reads_next_statement(t, p + 27, p + 30, p + 31);
    reads_block(t, p + 27, p + 31);
    reads_method(t, name, p + 22, p + 22, p + 25, p + 31);
    reads_no_parameters(t, p + 34);
    reads_no_arguments(t, p + 38);
    reads_chain_end(t, p + 40);
    reads_call(t, p + 37, p + 40, p + 40);
    reads_no_operator(t, 0u8, p + 40);
    reads_operation(t, 0u8, p + 37, p + 40, p + 40);
    reads_simple(t, p + 37, p + 40);
    reads_return(t, p + 36, p + 40);
    reads_block_end(t, p + 41);
    reads_next_statement(t, p + 36, p + 41, p + 42);
    reads_block(t, p + 36, p + 42);
    reads_method(t, name, p + 31, p + 31, p + 34, p + 42);
    reads_no_parameters(t, p + 45);
    reads_no_arguments(t, p + 53);
    reads_no_arguments(t, p + 57);
    reads_chain_end(t, p + 59);
    reads_chained_call(t, p + 55, p + 59, p + 59);
    reads_chained_call(t, p + 51, p + 55, p + 59);
    reads_this(t, p + 50, p + 59);
    reads_no_operator(t, 0u8, p + 59);
    reads_operation(t, 0u8, p + 50, p + 59, p + 59);
    reads_simple(t, p + 50, p + 59);
    reads_declaration(t, p + 47, p + 59);
    reads_chain_end(t, p + 63);
    reads_variable(t, p + 62, p + 63);
    reads_chain_end(t, p + 65);
    reads_variable(t, p + 64, p + 65);
    reads_no_operator(t, 7u8, p + 65);
    reads_operation(t, 7u8, p + 64, p + 65, p + 65);
    reads_no_operator(t, 0u8, p + 65);
    reads_operator(t, 0u8, p + 63, p + 65, p + 65);
    reads_operation(t, 0u8, p + 62, p + 63, p + 65);
    reads_simple(t, p + 62, p + 65);
    reads_chain_end(t, p + 69);
    reads_variable(t, p + 68, p + 69);
    reads_no_operator(t, 0u8, p + 69);
    reads_operation(t, 0u8, p + 68, p + 69, p + 69);
    reads_simple(t, p + 68, p + 69);
    reads_return(t, p + 67, p + 69);
    reads_block_end(t, p + 70);
    reads_next_statement(t, p + 67, p + 70, p + 71);
    reads_block(t, p + 67, p + 71);
    reads_if(t, p + 60, p + 65, p + 71);
    reads_chain_end(t, p + 73);
    reads_variable(t, p + 72, p + 73);
    reads_literal(t, p + 74);
    reads_no_operator(t, 10u8, p + 75);
    reads_operation(t, 10u8, p + 74, p + 75, p + 75);
    reads_chain_end(t, p + 77);
    reads_variable(t, p + 76, p + 77);
    reads_no_operator(t, 10u8, p + 77);
    reads_operation(t, 10u8, p + 76, p + 77, p + 77);
    reads_no_operator(t, 0u8, p + 77);
    reads_operator(t, 0u8, p + 75, p + 77, p + 77);
    reads_operator(t, 0u8, p + 73, p + 75, p + 77);
    reads_operation(t, 0u8, p + 72, p + 73, p + 77);
    reads_simple(t, p + 72, p + 77);
    reads_return(t, p + 71, p + 77);
    reads_block_end(t, p + 78);
    reads_next_statement(t, p + 71, p + 78, p + 79);
    reads_next_statement(t, p + 60, p + 71, p + 79);
    reads_next_statement(t, p + 47, p + 60, p + 79);
    reads_block(t, p + 47, p + 79);
    reads_method(t, name, p + 42, p + 42, p + 45, p + 79);
    reads_members_end(t, name, p + 79);
    reads_next_member(t, name, p + 42, p + 79, p + 80);
    reads_next_member(t, name, p + 31, p + 42, p + 80);
    reads_next_member(t, name, p + 22, p + 31, p + 80);
    reads_next_member(t, name, p + 11, p + 22, p + 80);
    reads_next_member(t, name, p + 6, p + 11, p + 80);
    reads_next_member(t, name, p + 3, p + 6, p + 80);
    reads_root_class(t, p, p + 80);
}

/// The tokens of an entry class.
pub open spec fn entry_row(name: Seq<char>, l: int) -> Seq<TokenV> {
    entry_front_tokens(l) + seq![name_tok(name, l)] + entry_body_tokens(l)
}

/// It is lexed as these tokens.
pub proof fn lexes_entry_row(name: Seq<char>, s: Seq<char>, b: int, l: int, done: Seq<TokenV>)
    requires
        is_word(name),
        word_kind(name) == Tok::Ident,
        spells(s, b, header(name)),
    ensures
        rest(s, b, l, done) == rest(s, b + header(name).len(), next_line(l), done + entry_row(name, l)),
{
    spelling_of_entry_front();
    spelling_of_entry_body();
    spells_both(s, b, "public class "@ + name, " { public static void main(String[] a) { } }\n"@);
    spells_both(s, b, "public class "@, name);
    let d0 = done;
    lexes_entry_front(s, b + 0, l, d0);
    let d1 = d0 + entry_front_tokens(l);
    reads_gap(s, b + 13 + name.len(), " { public static void main(String[] a) { } }\n"@, 0);
    lexes_name(s, b + 13, b + 13 + name.len(), name, l, d1);
    let d2 = d1.push(name_tok(name, l));
    lexes_entry_body(s, b + 13 + name.len(), l, d2);
    let d3 = d2 + entry_body_tokens(l);
    assert(d3 =~= done + entry_row(name, l));
}

} // verus!
