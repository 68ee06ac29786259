//! The members that the functional interfaces have beside their abstract method:
//! how each is lexed, and that it is read as one method.
use vstd::prelude::*;

use crate::injection::reading::{
    reads_arguments, reads_block, reads_block_body, reads_block_end, reads_call_statement,
    reads_chain_end, reads_chained_call, reads_conditional, reads_declaration,
    reads_expression_body, reads_if, reads_lambda, reads_lambda_of_two, reads_last_argument,
    reads_last_parameter, reads_literal, reads_method, reads_negation, reads_next_argument,
    reads_next_statement, reads_no_arguments, reads_no_operator, reads_no_parameters,
    reads_operation, reads_operator, reads_parameters, reads_return, reads_simple, reads_this,
    reads_variable, stands,
};
use crate::injection::spelling::{
    name_tok, reads_key_space, reads_name, reads_name_space, reads_operator_sign, reads_sign,
    reads_space, reads_zero, rest, sign_tok, spells,
};
use crate::injection::vocabulary::words_are_known;
use crate::lexer::{Tok, TokenV};

verus! {

/// The tokens of `default Consumer andThen(Consumer after)`.
pub open spec fn consumer_and_then_tokens(l: int) -> Seq<TokenV> {
    seq![
        sign_tok(Tok::Default, l), name_tok("Consumer"@, l), name_tok("andThen"@, l),
        sign_tok(Tok::LParen, l), name_tok("Consumer"@, l), name_tok("after"@, l),
        sign_tok(Tok::RParen, l), sign_tok(Tok::LBrace, l), sign_tok(Tok::Return, l),
        name_tok("t"@, l), sign_tok(Tok::Arrow, l), sign_tok(Tok::LBrace, l),
        name_tok("this"@, l), sign_tok(Tok::Dot, l), name_tok("accept"@, l),
        sign_tok(Tok::LParen, l), name_tok("t"@, l), sign_tok(Tok::RParen, l),
        sign_tok(Tok::Semi, l), name_tok("after"@, l), sign_tok(Tok::Dot, l),
        name_tok("accept"@, l), sign_tok(Tok::LParen, l), name_tok("t"@, l),
        sign_tok(Tok::RParen, l), sign_tok(Tok::Semi, l), sign_tok(Tok::RBrace, l),
        sign_tok(Tok::Semi, l), sign_tok(Tok::RBrace, l),
    ]
}

/// Its text.
pub open spec fn consumer_and_then_text() -> Seq<char> {
    "default Consumer andThen(Consumer after) { return t -> { this.accept(t); after.accept(t); }; }"@
}

/// Where the words and signs of the text stand.
pub proof fn spelling_of_consumer_and_then()
    ensures
        consumer_and_then_text().len() == 94,
        spells(consumer_and_then_text(), 0, "default"@),
        spells(consumer_and_then_text(), 8, "Consumer"@),
        spells(consumer_and_then_text(), 17, "andThen"@),
        spells(consumer_and_then_text(), 25, "Consumer"@),
        spells(consumer_and_then_text(), 34, "after"@),
        spells(consumer_and_then_text(), 43, "return"@),
        spells(consumer_and_then_text(), 50, "t"@),
        spells(consumer_and_then_text(), 57, "this"@),
        spells(consumer_and_then_text(), 62, "accept"@),
        spells(consumer_and_then_text(), 69, "t"@),
        spells(consumer_and_then_text(), 73, "after"@),
        spells(consumer_and_then_text(), 79, "accept"@),
        spells(consumer_and_then_text(), 86, "t"@),
        consumer_and_then_text()[7] == ' ' && consumer_and_then_text()[16] == ' ',
        consumer_and_then_text()[24] == '(' && consumer_and_then_text()[25] == 'C',
        consumer_and_then_text()[33] == ' ' && consumer_and_then_text()[39] == ')',
        consumer_and_then_text()[40] == ' ' && consumer_and_then_text()[41] == '{',
        consumer_and_then_text()[42] == ' ' && consumer_and_then_text()[49] == ' ',
        consumer_and_then_text()[51] == ' ' && consumer_and_then_text()[52] == '-',
        consumer_and_then_text()[53] == '>' && consumer_and_then_text()[54] == ' ',
        consumer_and_then_text()[55] == '{' && consumer_and_then_text()[56] == ' ',
        consumer_and_then_text()[61] == '.' && consumer_and_then_text()[62] == 'a',
        consumer_and_then_text()[68] == '(' && consumer_and_then_text()[69] == 't',
        consumer_and_then_text()[70] == ')' && consumer_and_then_text()[71] == ';',
        consumer_and_then_text()[72] == ' ' && consumer_and_then_text()[78] == '.',
        consumer_and_then_text()[79] == 'a' && consumer_and_then_text()[85] == '(',
        consumer_and_then_text()[86] == 't' && consumer_and_then_text()[87] == ')',
        consumer_and_then_text()[88] == ';' && consumer_and_then_text()[89] == ' ',
        consumer_and_then_text()[90] == '}' && consumer_and_then_text()[91] == ';',
        consumer_and_then_text()[92] == ' ' && consumer_and_then_text()[93] == '}',
{
    reveal_strlit("default Consumer andThen(Consumer after) { return t -> { this.accept(t); after.accept(t); }; }");
    reveal_strlit("Consumer");
    reveal_strlit("accept");
    reveal_strlit("after");
    reveal_strlit("andThen");
    reveal_strlit("default");
    reveal_strlit("return");
    reveal_strlit("t");
    reveal_strlit("this");
}

/// The text is lexed as these tokens.
pub proof fn lexes_consumer_and_then(s: Seq<char>, b: int, l: int, done: Seq<TokenV>)
    requires
        spells(s, b, consumer_and_then_text()),
    ensures
        rest(s, b, l, done) == rest(s, b + 94, l, done + consumer_and_then_tokens(l)),
{
    words_are_known();
    spelling_of_consumer_and_then();
    let text = consumer_and_then_text();
    let d0 = done;
    reads_key_space(s, b, text, 0, 8, "default"@, Tok::Default, l, d0);
    let d1 = d0.push(sign_tok(Tok::Default, l));
    reads_name_space(s, b, text, 8, 17, "Consumer"@, l, d1);
    let d2 = d1.push(name_tok("Consumer"@, l));
    reads_name(s, b, text, 17, 24, "andThen"@, l, d2);
    let d3 = d2.push(name_tok("andThen"@, l));
    reads_sign(s, b, text, 24, Tok::LParen, l, d3);
    let d4 = d3.push(sign_tok(Tok::LParen, l));
    reads_name_space(s, b, text, 25, 34, "Consumer"@, l, d4);
    let d5 = d4.push(name_tok("Consumer"@, l));
    reads_name(s, b, text, 34, 39, "after"@, l, d5);
    let d6 = d5.push(name_tok("after"@, l));
    reads_sign(s, b, text, 39, Tok::RParen, l, d6);
    let d7 = d6.push(sign_tok(Tok::RParen, l));
    reads_space(s, b, text, 40, l, d7);
    reads_sign(s, b, text, 41, Tok::LBrace, l, d7);
    let d8 = d7.push(sign_tok(Tok::LBrace, l));
    reads_space(s, b, text, 42, l, d8);
    reads_key_space(s, b, text, 43, 50, "return"@, Tok::Return, l, d8);
    let d9 = d8.push(sign_tok(Tok::Return, l));
    reads_name_space(s, b, text, 50, 52, "t"@, l, d9);
    let d10 = d9.push(name_tok("t"@, l));
    reads_operator_sign(s, b, text, 52, 54, Tok::Arrow, l, d10);
    let d11 = d10.push(sign_tok(Tok::Arrow, l));
    reads_space(s, b, text, 54, l, d11);
    reads_sign(s, b, text, 55, Tok::LBrace, l, d11);
    let d12 = d11.push(sign_tok(Tok::LBrace, l));
    reads_space(s, b, text, 56, l, d12);
    reads_name(s, b, text, 57, 61, "this"@, l, d12);
    let d13 = d12.push(name_tok("this"@, l));
    reads_sign(s, b, text, 61, Tok::Dot, l, d13);
    let d14 = d13.push(sign_tok(Tok::Dot, l));
    reads_name(s, b, text, 62, 68, "accept"@, l, d14);
    let d15 = d14.push(name_tok("accept"@, l));
    reads_sign(s, b, text, 68, Tok::LParen, l, d15);
    let d16 = d15.push(sign_tok(Tok::LParen, l));
    reads_name(s, b, text, 69, 70, "t"@, l, d16);
    let d17 = d16.push(name_tok("t"@, l));
    reads_sign(s, b, text, 70, Tok::RParen, l, d17);
    let d18 = d17.push(sign_tok(Tok::RParen, l));
    reads_sign(s, b, text, 71, Tok::Semi, l, d18);
    let d19 = d18.push(sign_tok(Tok::Semi, l));
    reads_space(s, b, text, 72, l, d19);
    reads_name(s, b, text, 73, 78, "after"@, l, d19);
    let d20 = d19.push(name_tok("after"@, l));
    reads_sign(s, b, text, 78, Tok::Dot, l, d20);
    let d21 = d20.push(sign_tok(Tok::Dot, l));
    reads_name(s, b, text, 79, 85, "accept"@, l, d21);
    let d22 = d21.push(name_tok("accept"@, l));
    reads_sign(s, b, text, 85, Tok::LParen, l, d22);
    let d23 = d22.push(sign_tok(Tok::LParen, l));
    reads_name(s, b, text, 86, 87, "t"@, l, d23);
    let d24 = d23.push(name_tok("t"@, l));
    reads_sign(s, b, text, 87, Tok::RParen, l, d24);
    let d25 = d24.push(sign_tok(Tok::RParen, l));
    reads_sign(s, b, text, 88, Tok::Semi, l, d25);
    let d26 = d25.push(sign_tok(Tok::Semi, l));
    reads_space(s, b, text, 89, l, d26);
    reads_sign(s, b, text, 90, Tok::RBrace, l, d26);
    let d27 = d26.push(sign_tok(Tok::RBrace, l));
    reads_sign(s, b, text, 91, Tok::Semi, l, d27);
    let d28 = d27.push(sign_tok(Tok::Semi, l));
    reads_space(s, b, text, 92, l, d28);
    reads_sign(s, b, text, 93, Tok::RBrace, l, d28);
    let d29 = d28.push(sign_tok(Tok::RBrace, l));
    assert(d29 =~= done + consumer_and_then_tokens(l));
}

/// The tokens are read as one method.
pub proof fn stands_consumer_and_then(t: Seq<TokenV>, name: Seq<char>, p: int, l: int)
    requires
        0 <= p,
        p + 29 < t.len(),
        t.subrange(p, p + 29) == consumer_and_then_tokens(l),
    ensures
        stands(t, name, p, p + 29),
{
    words_are_known();
    let u = consumer_and_then_tokens(l);
    assert forall|k: int| 0 <= k < 29 implies t[p + k] == #[trigger] u[k] by {
        assert(t.subrange(p, p + 29)[k] == u[k]);
    }
    assert(t[p] == u[0] && t[p + 1] == u[1] && t[p + 2] == u[2] && t[p + 3] == u[3]);
    assert(t[p + 4] == u[4] && t[p + 5] == u[5] && t[p + 6] == u[6] && t[p + 7] == u[7]);
    assert(t[p + 8] == u[8] && t[p + 9] == u[9] && t[p + 10] == u[10] && t[p + 11] == u[11]);
    assert(t[p + 12] == u[12] && t[p + 13] == u[13] && t[p + 14] == u[14] && t[p + 15] == u[15]);
    assert(t[p + 16] == u[16] && t[p + 17] == u[17] && t[p + 18] == u[18] && t[p + 19] == u[19]);
    assert(t[p + 20] == u[20] && t[p + 21] == u[21] && t[p + 22] == u[22] && t[p + 23] == u[23]);
    assert(t[p + 24] == u[24] && t[p + 25] == u[25] && t[p + 26] == u[26] && t[p + 27] == u[27]);
    assert(t[p + 28] == u[28]);
    reads_last_parameter(t, p + 4);
    reads_parameters(t, p + 4, p + 6);
    reads_chain_end(t, p + 17);
    reads_variable(t, p + 16, p + 17);
    reads_no_operator(t, 0u8, p + 17);
    reads_operation(t, 0u8, p + 16, p + 17, p + 17);
    reads_simple(t, p + 16, p + 17);
    reads_last_argument(t, p + 16, p + 17);
    reads_arguments(t, p + 15, p + 18);
    reads_chain_end(t, p + 18);
    reads_chained_call(t, p + 13, p + 18, p + 18);
    reads_this(t, p + 12, p + 18);
    reads_no_operator(t, 0u8, p + 18);
    reads_operation(t, 0u8, p + 12, p + 18, p + 18);
    reads_simple(t, p + 12, p + 18);
    reads_call_statement(t, p + 12, p + 18);
    reads_chain_end(t, p + 24);
    reads_variable(t, p + 23, p + 24);
    reads_no_operator(t, 0u8, p + 24);
    reads_operation(t, 0u8, p + 23, p + 24, p + 24);
    reads_simple(t, p + 23, p + 24);
    reads_last_argument(t, p + 23, p + 24);
    reads_arguments(t, p + 22, p + 25);
    reads_chain_end(t, p + 25);
    reads_chained_call(t, p + 20, p + 25, p + 25);
    reads_variable(t, p + 19, p + 25);
    reads_no_operator(t, 0u8, p + 25);
    reads_operation(t, 0u8, p + 19, p + 25, p + 25);
    reads_simple(t, p + 19, p + 25);
    reads_call_statement(t, p + 19, p + 25);
    reads_block_end(t, p + 26);
    reads_next_statement(t, p + 19, p + 26, p + 27);
    reads_next_statement(t, p + 12, p + 19, p + 27);
    reads_block(t, p + 12, p + 27);
    reads_block_body(t, p + 11, p + 27);
    reads_lambda(t, p + 9, p + 27);
    reads_return(t, p + 8, p + 27);
    reads_block_end(t, p + 28);
    reads_next_statement(t, p + 8, p + 28, p + 29);
    reads_block(t, p + 8, p + 29);
    reads_method(t, name, p, p + 1, p + 6, p + 29);
}

/// The tokens of `default BiConsumer andThen(BiConsumer after)`.
pub open spec fn bi_consumer_and_then_tokens(l: int) -> Seq<TokenV> {
    seq![
        sign_tok(Tok::Default, l), name_tok("BiConsumer"@, l), name_tok("andThen"@, l),
        sign_tok(Tok::LParen, l), name_tok("BiConsumer"@, l), name_tok("after"@, l),
        sign_tok(Tok::RParen, l), sign_tok(Tok::LBrace, l), sign_tok(Tok::Return, l),
        sign_tok(Tok::LParen, l), name_tok("t"@, l), sign_tok(Tok::Comma, l), name_tok("u"@, l),
        sign_tok(Tok::RParen, l), sign_tok(Tok::Arrow, l), sign_tok(Tok::LBrace, l),
        name_tok("this"@, l), sign_tok(Tok::Dot, l), name_tok("accept"@, l),
        sign_tok(Tok::LParen, l), name_tok("t"@, l), sign_tok(Tok::Comma, l), name_tok("u"@, l),
        sign_tok(Tok::RParen, l), sign_tok(Tok::Semi, l), name_tok("after"@, l),
        sign_tok(Tok::Dot, l), name_tok("accept"@, l), sign_tok(Tok::LParen, l),
        name_tok("t"@, l), sign_tok(Tok::Comma, l), name_tok("u"@, l), sign_tok(Tok::RParen, l),
        sign_tok(Tok::Semi, l), sign_tok(Tok::RBrace, l), sign_tok(Tok::Semi, l),
        sign_tok(Tok::RBrace, l),
    ]
}

/// Its text.
pub open spec fn bi_consumer_and_then_text() -> Seq<char> {
    "default BiConsumer andThen(BiConsumer after) { return (t, u) -> { this.accept(t, u); after.accept(t, u); }; }"@
}

/// Where the words and signs of the text stand.
pub proof fn spelling_of_bi_consumer_and_then()
    ensures
        bi_consumer_and_then_text().len() == 109,
        spells(bi_consumer_and_then_text(), 0, "default"@),
        spells(bi_consumer_and_then_text(), 8, "BiConsumer"@),
        spells(bi_consumer_and_then_text(), 19, "andThen"@),
        spells(bi_consumer_and_then_text(), 27, "BiConsumer"@),
        spells(bi_consumer_and_then_text(), 38, "after"@),
        spells(bi_consumer_and_then_text(), 47, "return"@),
        spells(bi_consumer_and_then_text(), 55, "t"@),
        spells(bi_consumer_and_then_text(), 58, "u"@),
        spells(bi_consumer_and_then_text(), 66, "this"@),
        spells(bi_consumer_and_then_text(), 71, "accept"@),
        spells(bi_consumer_and_then_text(), 78, "t"@),
        spells(bi_consumer_and_then_text(), 81, "u"@),
        spells(bi_consumer_and_then_text(), 85, "after"@),
        spells(bi_consumer_and_then_text(), 91, "accept"@),
        spells(bi_consumer_and_then_text(), 98, "t"@),
        spells(bi_consumer_and_then_text(), 101, "u"@),
        bi_consumer_and_then_text()[7] == ' ' && bi_consumer_and_then_text()[18] == ' ',
        bi_consumer_and_then_text()[26] == '(' && bi_consumer_and_then_text()[27] == 'B',
        bi_consumer_and_then_text()[37] == ' ' && bi_consumer_and_then_text()[43] == ')',
        bi_consumer_and_then_text()[44] == ' ' && bi_consumer_and_then_text()[45] == '{',
        bi_consumer_and_then_text()[46] == ' ' && bi_consumer_and_then_text()[53] == ' ',
        bi_consumer_and_then_text()[54] == '(' && bi_consumer_and_then_text()[55] == 't',
        bi_consumer_and_then_text()[56] == ',' && bi_consumer_and_then_text()[57] == ' ',
        bi_consumer_and_then_text()[59] == ')' && bi_consumer_and_then_text()[60] == ' ',
        bi_consumer_and_then_text()[61] == '-' && bi_consumer_and_then_text()[62] == '>',
        bi_consumer_and_then_text()[63] == ' ' && bi_consumer_and_then_text()[64] == '{',
        bi_consumer_and_then_text()[65] == ' ' && bi_consumer_and_then_text()[70] == '.',
        bi_consumer_and_then_text()[71] == 'a' && bi_consumer_and_then_text()[77] == '(',
        bi_consumer_and_then_text()[78] == 't' && bi_consumer_and_then_text()[79] == ',',
        bi_consumer_and_then_text()[80] == ' ' && bi_consumer_and_then_text()[82] == ')',
        bi_consumer_and_then_text()[83] == ';' && bi_consumer_and_then_text()[84] == ' ',
        bi_consumer_and_then_text()[90] == '.' && bi_consumer_and_then_text()[91] == 'a',
        bi_consumer_and_then_text()[97] == '(' && bi_consumer_and_then_text()[98] == 't',
        bi_consumer_and_then_text()[99] == ',' && bi_consumer_and_then_text()[100] == ' ',
        bi_consumer_and_then_text()[102] == ')' && bi_consumer_and_then_text()[103] == ';',
        bi_consumer_and_then_text()[104] == ' ' && bi_consumer_and_then_text()[105] == '}',
        bi_consumer_and_then_text()[106] == ';' && bi_consumer_and_then_text()[107] == ' ',
        bi_consumer_and_then_text()[108] == '}',
{
    reveal_strlit("default BiConsumer andThen(BiConsumer after) { return (t, u) -> { this.accept(t, u); after.accept(t, u); }; }");
    reveal_strlit("BiConsumer");
    reveal_strlit("accept");
    reveal_strlit("after");
    reveal_strlit("andThen");
    reveal_strlit("default");
    reveal_strlit("return");
    reveal_strlit("t");
    reveal_strlit("this");
    reveal_strlit("u");
}

/// The text is lexed as these tokens.
pub proof fn lexes_bi_consumer_and_then(s: Seq<char>, b: int, l: int, done: Seq<TokenV>)
    requires
        spells(s, b, bi_consumer_and_then_text()),
    ensures
        rest(s, b, l, done) == rest(s, b + 109, l, done + bi_consumer_and_then_tokens(l)),
{
    words_are_known();
    spelling_of_bi_consumer_and_then();
    let text = bi_consumer_and_then_text();
    let d0 = done;
    reads_key_space(s, b, text, 0, 8, "default"@, Tok::Default, l, d0);
    let d1 = d0.push(sign_tok(Tok::Default, l));
    reads_name_space(s, b, text, 8, 19, "BiConsumer"@, l, d1);
    let d2 = d1.push(name_tok("BiConsumer"@, l));
    reads_name(s, b, text, 19, 26, "andThen"@, l, d2);
    let d3 = d2.push(name_tok("andThen"@, l));
    reads_sign(s, b, text, 26, Tok::LParen, l, d3);
    let d4 = d3.push(sign_tok(Tok::LParen, l));
    reads_name_space(s, b, text, 27, 38, "BiConsumer"@, l, d4);
    let d5 = d4.push(name_tok("BiConsumer"@, l));
    reads_name(s, b, text, 38, 43, "after"@, l, d5);
    let d6 = d5.push(name_tok("after"@, l));
    reads_sign(s, b, text, 43, Tok::RParen, l, d6);
    let d7 = d6.push(sign_tok(Tok::RParen, l));
    reads_space(s, b, text, 44, l, d7);
    reads_sign(s, b, text, 45, Tok::LBrace, l, d7);
    let d8 = d7.push(sign_tok(Tok::LBrace, l));
    reads_space(s, b, text, 46, l, d8);
    reads_key_space(s, b, text, 47, 54, "return"@, Tok::Return, l, d8);
    let d9 = d8.push(sign_tok(Tok::Return, l));
    reads_sign(s, b, text, 54, Tok::LParen, l, d9);
    let d10 = d9.push(sign_tok(Tok::LParen, l));
    reads_name(s, b, text, 55, 56, "t"@, l, d10);
    let d11 = d10.push(name_tok("t"@, l));
    reads_sign(s, b, text, 56, Tok::Comma, l, d11);
    let d12 = d11.push(sign_tok(Tok::Comma, l));
    reads_space(s, b, text, 57, l, d12);
    reads_name(s, b, text, 58, 59, "u"@, l, d12);
    let d13 = d12.push(name_tok("u"@, l));
    reads_sign(s, b, text, 59, Tok::RParen, l, d13);
    let d14 = d13.push(sign_tok(Tok::RParen, l));
    reads_space(s, b, text, 60, l, d14);
    reads_operator_sign(s, b, text, 61, 63, Tok::Arrow, l, d14);
    let d15 = d14.push(sign_tok(Tok::Arrow, l));
    reads_space(s, b, text, 63, l, d15);
    reads_sign(s, b, text, 64, Tok::LBrace, l, d15);
    let d16 = d15.push(sign_tok(Tok::LBrace, l));
    reads_space(s, b, text, 65, l, d16);
    reads_name(s, b, text, 66, 70, "this"@, l, d16);
    let d17 = d16.push(name_tok("this"@, l));
    reads_sign(s, b, text, 70, Tok::Dot, l, d17);
    let d18 = d17.push(sign_tok(Tok::Dot, l));
    reads_name(s, b, text, 71, 77, "accept"@, l, d18);
    let d19 = d18.push(name_tok("accept"@, l));
    reads_sign(s, b, text, 77, Tok::LParen, l, d19);
    let d20 = d19.push(sign_tok(Tok::LParen, l));
    reads_name(s, b, text, 78, 79, "t"@, l, d20);
    let d21 = d20.push(name_tok("t"@, l));
    reads_sign(s, b, text, 79, Tok::Comma, l, d21);
    let d22 = d21.push(sign_tok(Tok::Comma, l));
    reads_space(s, b, text, 80, l, d22);
    reads_name(s, b, text, 81, 82, "u"@, l, d22);
    let d23 = d22.push(name_tok("u"@, l));
    reads_sign(s, b, text, 82, Tok::RParen, l, d23);
    let d24 = d23.push(sign_tok(Tok::RParen, l));
    reads_sign(s, b, text, 83, Tok::Semi, l, d24);
    let d25 = d24.push(sign_tok(Tok::Semi, l));
    reads_space(s, b, text, 84, l, d25);
    reads_name(s, b, text, 85, 90, "after"@, l, d25);
    let d26 = d25.push(name_tok("after"@, l));
    reads_sign(s, b, text, 90, Tok::Dot, l, d26);
    let d27 = d26.push(sign_tok(Tok::Dot, l));
    reads_name(s, b, text, 91, 97, "accept"@, l, d27);
    let d28 = d27.push(name_tok("accept"@, l));
    reads_sign(s, b, text, 97, Tok::LParen, l, d28);
    let d29 = d28.push(sign_tok(Tok::LParen, l));
    reads_name(s, b, text, 98, 99, "t"@, l, d29);
    let d30 = d29.push(name_tok("t"@, l));
    reads_sign(s, b, text, 99, Tok::Comma, l, d30);
    let d31 = d30.push(sign_tok(Tok::Comma, l));
    reads_space(s, b, text, 100, l, d31);
    reads_name(s, b, text, 101, 102, "u"@, l, d31);
    let d32 = d31.push(name_tok("u"@, l));
    reads_sign(s, b, text, 102, Tok::RParen, l, d32);
    let d33 = d32.push(sign_tok(Tok::RParen, l));
    reads_sign(s, b, text, 103, Tok::Semi, l, d33);
    let d34 = d33.push(sign_tok(Tok::Semi, l));
    reads_space(s, b, text, 104, l, d34);
    reads_sign(s, b, text, 105, Tok::RBrace, l, d34);
    let d35 = d34.push(sign_tok(Tok::RBrace, l));
    reads_sign(s, b, text, 106, Tok::Semi, l, d35);
    let d36 = d35.push(sign_tok(Tok::Semi, l));
    reads_space(s, b, text, 107, l, d36);
    reads_sign(s, b, text, 108, Tok::RBrace, l, d36);
    let d37 = d36.push(sign_tok(Tok::RBrace, l));
    assert(d37 =~= done + bi_consumer_and_then_tokens(l));
}

/// The tokens are read as one method.
pub proof fn stands_bi_consumer_and_then(t: Seq<TokenV>, name: Seq<char>, p: int, l: int)
    requires
        0 <= p,
        p + 37 < t.len(),
        t.subrange(p, p + 37) == bi_consumer_and_then_tokens(l),
    ensures
        stands(t, name, p, p + 37),
{
    words_are_known();
    let u = bi_consumer_and_then_tokens(l);
    assert forall|k: int| 0 <= k < 37 implies t[p + k] == #[trigger] u[k] by {
        assert(t.subrange(p, p + 37)[k] == u[k]);
    }
    assert(t[p] == u[0] && t[p + 1] == u[1] && t[p + 2] == u[2] && t[p + 3] == u[3]);
    assert(t[p + 4] == u[4] && t[p + 5] == u[5] && t[p + 6] == u[6] && t[p + 7] == u[7]);
    assert(t[p + 8] == u[8] && t[p + 9] == u[9] && t[p + 10] == u[10] && t[p + 11] == u[11]);
    assert(t[p + 12] == u[12] && t[p + 13] == u[13] && t[p + 14] == u[14] && t[p + 15] == u[15]);
    assert(t[p + 16] == u[16] && t[p + 17] == u[17] && t[p + 18] == u[18] && t[p + 19] == u[19]);
    assert(t[p + 20] == u[20] && t[p + 21] == u[21] && t[p + 22] == u[22] && t[p + 23] == u[23]);
    assert(t[p + 24] == u[24] && t[p + 25] == u[25] && t[p + 26] == u[26] && t[p + 27] == u[27]);
    assert(t[p + 28] == u[28] && t[p + 29] == u[29] && t[p + 30] == u[30] && t[p + 31] == u[31]);
    assert(t[p + 32] == u[32] && t[p + 33] == u[33] && t[p + 34] == u[34] && t[p + 35] == u[35]);
    assert(t[p + 36] == u[36]);
    reads_last_parameter(t, p + 4);
    reads_parameters(t, p + 4, p + 6);
    reads_chain_end(t, p + 21);
    reads_variable(t, p + 20, p + 21);
    reads_no_operator(t, 0u8, p + 21);
    reads_operation(t, 0u8, p + 20, p + 21, p + 21);
    reads_simple(t, p + 20, p + 21);
    reads_chain_end(t, p + 23);
    reads_variable(t, p + 22, p + 23);
    reads_no_operator(t, 0u8, p + 23);
    reads_operation(t, 0u8, p + 22, p + 23, p + 23);
    reads_simple(t, p + 22, p + 23);
    reads_last_argument(t, p + 22, p + 23);
    reads_next_argument(t, p + 20, p + 21, p + 24);
    reads_arguments(t, p + 19, p + 24);
    reads_chain_end(t, p + 24);
    reads_chained_call(t, p + 17, p + 24, p + 24);
    reads_this(t, p + 16, p + 24);
    reads_no_operator(t, 0u8, p + 24);
    reads_operation(t, 0u8, p + 16, p + 24, p + 24);
    reads_simple(t, p + 16, p + 24);
    reads_call_statement(t, p + 16, p + 24);
    reads_chain_end(t, p + 30);
    reads_variable(t, p + 29, p + 30);
    reads_no_operator(t, 0u8, p + 30);
    reads_operation(t, 0u8, p + 29, p + 30, p + 30);
    reads_simple(t, p + 29, p + 30);
    reads_chain_end(t, p + 32);
    reads_variable(t, p + 31, p + 32);
    reads_no_operator(t, 0u8, p + 32);
    reads_operation(t, 0u8, p + 31, p + 32, p + 32);
    reads_simple(t, p + 31, p + 32);
    reads_last_argument(t, p + 31, p + 32);
    reads_next_argument(t, p + 29, p + 30, p + 33);
    reads_arguments(t, p + 28, p + 33);
    reads_chain_end(t, p + 33);
    reads_chained_call(t, p + 26, p + 33, p + 33);
    reads_variable(t, p + 25, p + 33);
    reads_no_operator(t, 0u8, p + 33);
    reads_operation(t, 0u8, p + 25, p + 33, p + 33);
    reads_simple(t, p + 25, p + 33);
    reads_call_statement(t, p + 25, p + 33);
    reads_block_end(t, p + 34);
    reads_next_statement(t, p + 25, p + 34, p + 35);
    reads_next_statement(t, p + 16, p + 25, p + 35);
    reads_block(t, p + 16, p + 35);
    reads_block_body(t, p + 15, p + 35);
    reads_lambda_of_two(t, p + 9, p + 35);
    reads_return(t, p + 8, p + 35);
    reads_block_end(t, p + 36);
    reads_next_statement(t, p + 8, p + 36, p + 37);
    reads_block(t, p + 8, p + 37);
    reads_method(t, name, p, p + 1, p + 6, p + 37);
}

/// The tokens of `default Function andThen(Function after)`.
pub open spec fn function_and_then_tokens(l: int) -> Seq<TokenV> {
    seq![
        sign_tok(Tok::Default, l), name_tok("Function"@, l), name_tok("andThen"@, l),
        sign_tok(Tok::LParen, l), name_tok("Function"@, l), name_tok("after"@, l),
        sign_tok(Tok::RParen, l), sign_tok(Tok::LBrace, l), sign_tok(Tok::Return, l),
        name_tok("t"@, l), sign_tok(Tok::Arrow, l), name_tok("after"@, l),
        sign_tok(Tok::Dot, l), name_tok("apply"@, l), sign_tok(Tok::LParen, l),
        name_tok("this"@, l), sign_tok(Tok::Dot, l), name_tok("apply"@, l),
        sign_tok(Tok::LParen, l), name_tok("t"@, l), sign_tok(Tok::RParen, l),
        sign_tok(Tok::RParen, l), sign_tok(Tok::Semi, l), sign_tok(Tok::RBrace, l),
    ]
}

/// Its text.
pub open spec fn function_and_then_text() -> Seq<char> {
    "default Function andThen(Function after) { return t -> after.apply(this.apply(t)); }"@
}

/// Where the words and signs of the text stand.
pub proof fn spelling_of_function_and_then()
    ensures
        function_and_then_text().len() == 84,
        spells(function_and_then_text(), 0, "default"@),
        spells(function_and_then_text(), 8, "Function"@),
        spells(function_and_then_text(), 17, "andThen"@),
        spells(function_and_then_text(), 25, "Function"@),
        spells(function_and_then_text(), 34, "after"@),
        spells(function_and_then_text(), 43, "return"@),
        spells(function_and_then_text(), 50, "t"@),
        spells(function_and_then_text(), 55, "after"@),
        spells(function_and_then_text(), 61, "apply"@),
        spells(function_and_then_text(), 67, "this"@),
        spells(function_and_then_text(), 72, "apply"@),
        spells(function_and_then_text(), 78, "t"@),
        function_and_then_text()[7] == ' ' && function_and_then_text()[16] == ' ',
        function_and_then_text()[24] == '(' && function_and_then_text()[25] == 'F',
        function_and_then_text()[33] == ' ' && function_and_then_text()[39] == ')',
        function_and_then_text()[40] == ' ' && function_and_then_text()[41] == '{',
        function_and_then_text()[42] == ' ' && function_and_then_text()[49] == ' ',
        function_and_then_text()[51] == ' ' && function_and_then_text()[52] == '-',
        function_and_then_text()[53] == '>' && function_and_then_text()[54] == ' ',
        function_and_then_text()[60] == '.' && function_and_then_text()[61] == 'a',
        function_and_then_text()[66] == '(' && function_and_then_text()[67] == 't',
        function_and_then_text()[71] == '.' && function_and_then_text()[72] == 'a',
        function_and_then_text()[77] == '(' && function_and_then_text()[78] == 't',
        function_and_then_text()[79] == ')' && function_and_then_text()[80] == ')',
        function_and_then_text()[81] == ';' && function_and_then_text()[82] == ' ',
        function_and_then_text()[83] == '}',
{
    reveal_strlit("default Function andThen(Function after) { return t -> after.apply(this.apply(t)); }");
    reveal_strlit("Function");
    reveal_strlit("after");
    reveal_strlit("andThen");
    reveal_strlit("apply");
    reveal_strlit("default");
    reveal_strlit("return");
    reveal_strlit("t");
    reveal_strlit("this");
}

/// The text is lexed as these tokens.
pub proof fn lexes_function_and_then(s: Seq<char>, b: int, l: int, done: Seq<TokenV>)
    requires
        spells(s, b, function_and_then_text()),
    ensures
        rest(s, b, l, done) == rest(s, b + 84, l, done + function_and_then_tokens(l)),
{
    words_are_known();
    spelling_of_function_and_then();
    let text = function_and_then_text();
    let d0 = done;
    reads_key_space(s, b, text, 0, 8, "default"@, Tok::Default, l, d0);
    let d1 = d0.push(sign_tok(Tok::Default, l));
    reads_name_space(s, b, text, 8, 17, "Function"@, l, d1);
    let d2 = d1.push(name_tok("Function"@, l));
    reads_name(s, b, text, 17, 24, "andThen"@, l, d2);
    let d3 = d2.push(name_tok("andThen"@, l));
    reads_sign(s, b, text, 24, Tok::LParen, l, d3);
    let d4 = d3.push(sign_tok(Tok::LParen, l));
    reads_name_space(s, b, text, 25, 34, "Function"@, l, d4);
    let d5 = d4.push(name_tok("Function"@, l));
    reads_name(s, b, text, 34, 39, "after"@, l, d5);
    let d6 = d5.push(name_tok("after"@, l));
    reads_sign(s, b, text, 39, Tok::RParen, l, d6);
    let d7 = d6.push(sign_tok(Tok::RParen, l));
    reads_space(s, b, text, 40, l, d7);
    reads_sign(s, b, text, 41, Tok::LBrace, l, d7);
    let d8 = d7.push(sign_tok(Tok::LBrace, l));
    reads_space(s, b, text, 42, l, d8);
    reads_key_space(s, b, text, 43, 50, "return"@, Tok::Return, l, d8);
    let d9 = d8.push(sign_tok(Tok::Return, l));
    reads_name_space(s, b, text, 50, 52, "t"@, l, d9);
    let d10 = d9.push(name_tok("t"@, l));
    reads_operator_sign(s, b, text, 52, 54, Tok::Arrow, l, d10);
    let d11 = d10.push(sign_tok(Tok::Arrow, l));
    reads_space(s, b, text, 54, l, d11);
    reads_name(s, b, text, 55, 60, "after"@, l, d11);
    let d12 = d11.push(name_tok("after"@, l));
    reads_sign(s, b, text, 60, Tok::Dot, l, d12);
    let d13 = d12.push(sign_tok(Tok::Dot, l));
    reads_name(s, b, text, 61, 66, "apply"@, l, d13);
    let d14 = d13.push(name_tok("apply"@, l));
    reads_sign(s, b, text, 66, Tok::LParen, l, d14);
    let d15 = d14.push(sign_tok(Tok::LParen, l));
    reads_name(s, b, text, 67, 71, "this"@, l, d15);
    let d16 = d15.push(name_tok("this"@, l));
    reads_sign(s, b, text, 71, Tok::Dot, l, d16);
    let d17 = d16.push(sign_tok(Tok::Dot, l));
    reads_name(s, b, text, 72, 77, "apply"@, l, d17);
    let d18 = d17.push(name_tok("apply"@, l));
    reads_sign(s, b, text, 77, Tok::LParen, l, d18);
    let d19 = d18.push(sign_tok(Tok::LParen, l));
    reads_name(s, b, text, 78, 79, "t"@, l, d19);
    let d20 = d19.push(name_tok("t"@, l));
    reads_sign(s, b, text, 79, Tok::RParen, l, d20);
    let d21 = d20.push(sign_tok(Tok::RParen, l));
    reads_sign(s, b, text, 80, Tok::RParen, l, d21);
    let d22 = d21.push(sign_tok(Tok::RParen, l));
    reads_sign(s, b, text, 81, Tok::Semi, l, d22);
    let d23 = d22.push(sign_tok(Tok::Semi, l));
    reads_space(s, b, text, 82, l, d23);
    reads_sign(s, b, text, 83, Tok::RBrace, l, d23);
    let d24 = d23.push(sign_tok(Tok::RBrace, l));
    assert(d24 =~= done + function_and_then_tokens(l));
}

/// The tokens are read as one method.
pub proof fn stands_function_and_then(t: Seq<TokenV>, name: Seq<char>, p: int, l: int)
    requires
        0 <= p,
        p + 24 < t.len(),
        t.subrange(p, p + 24) == function_and_then_tokens(l),
    ensures
        stands(t, name, p, p + 24),
{
    words_are_known();
    let u = function_and_then_tokens(l);
    assert forall|k: int| 0 <= k < 24 implies t[p + k] == #[trigger] u[k] by {
        assert(t.subrange(p, p + 24)[k] == u[k]);
    }
    assert(t[p] == u[0] && t[p + 1] == u[1] && t[p + 2] == u[2] && t[p + 3] == u[3]);
    assert(t[p + 4] == u[4] && t[p + 5] == u[5] && t[p + 6] == u[6] && t[p + 7] == u[7]);
    assert(t[p + 8] == u[8] && t[p + 9] == u[9] && t[p + 10] == u[10] && t[p + 11] == u[11]);
    assert(t[p + 12] == u[12] && t[p + 13] == u[13] && t[p + 14] == u[14] && t[p + 15] == u[15]);
    assert(t[p + 16] == u[16] && t[p + 17] == u[17] && t[p + 18] == u[18] && t[p + 19] == u[19]);
    assert(t[p + 20] == u[20] && t[p + 21] == u[21] && t[p + 22] == u[22] && t[p + 23] == u[23]);
    reads_last_parameter(t, p + 4);
    reads_parameters(t, p + 4, p + 6);
    reads_chain_end(t, p + 20);
    reads_variable(t, p + 19, p + 20);
    reads_no_operator(t, 0u8, p + 20);
    reads_operation(t, 0u8, p + 19, p + 20, p + 20);
    reads_simple(t, p + 19, p + 20);
    reads_last_argument(t, p + 19, p + 20);
    reads_arguments(t, p + 18, p + 21);
    reads_chain_end(t, p + 21);
    reads_chained_call(t, p + 16, p + 21, p + 21);
    reads_this(t, p + 15, p + 21);
    reads_no_operator(t, 0u8, p + 21);
    reads_operation(t, 0u8, p + 15, p + 21, p + 21);
    reads_simple(t, p + 15, p + 21);
    reads_last_argument(t, p + 15, p + 21);
    reads_arguments(t, p + 14, p + 22);
    reads_chain_end(t, p + 22);
    reads_chained_call(t, p + 12, p + 22, p + 22);
    reads_variable(t, p + 11, p + 22);
    reads_no_operator(t, 0u8, p + 22);
    reads_operation(t, 0u8, p + 11, p + 22, p + 22);
    reads_simple(t, p + 11, p + 22);
    reads_expression_body(t, p + 11, p + 22);
    reads_lambda(t, p + 9, p + 22);
    reads_return(t, p + 8, p + 22);
    reads_block_end(t, p + 23);
    reads_next_statement(t, p + 8, p + 23, p + 24);
    reads_block(t, p + 8, p + 24);
    reads_method(t, name, p, p + 1, p + 6, p + 24);
}

/// The tokens of `default Function compose(Function before)`.
pub open spec fn function_compose_tokens(l: int) -> Seq<TokenV> {
    seq![
        sign_tok(Tok::Default, l), name_tok("Function"@, l), name_tok("compose"@, l),
        sign_tok(Tok::LParen, l), name_tok("Function"@, l), name_tok("before"@, l),
        sign_tok(Tok::RParen, l), sign_tok(Tok::LBrace, l), sign_tok(Tok::Return, l),
        name_tok("v"@, l), sign_tok(Tok::Arrow, l), name_tok("this"@, l), sign_tok(Tok::Dot, l),
        name_tok("apply"@, l), sign_tok(Tok::LParen, l), name_tok("before"@, l),
        sign_tok(Tok::Dot, l), name_tok("apply"@, l), sign_tok(Tok::LParen, l),
        name_tok("v"@, l), sign_tok(Tok::RParen, l), sign_tok(Tok::RParen, l),
        sign_tok(Tok::Semi, l), sign_tok(Tok::RBrace, l),
    ]
}

/// Its text.
pub open spec fn function_compose_text() -> Seq<char> {
    "default Function compose(Function before) { return v -> this.apply(before.apply(v)); }"@
}

/// Where the words and signs of the text stand.
pub proof fn spelling_of_function_compose()
    ensures
        function_compose_text().len() == 86,
        spells(function_compose_text(), 0, "default"@),
        spells(function_compose_text(), 8, "Function"@),
        spells(function_compose_text(), 17, "compose"@),
        spells(function_compose_text(), 25, "Function"@),
        spells(function_compose_text(), 34, "before"@),
        spells(function_compose_text(), 44, "return"@),
        spells(function_compose_text(), 51, "v"@),
        spells(function_compose_text(), 56, "this"@),
        spells(function_compose_text(), 61, "apply"@),
        spells(function_compose_text(), 67, "before"@),
        spells(function_compose_text(), 74, "apply"@),
        spells(function_compose_text(), 80, "v"@),
        function_compose_text()[7] == ' ' && function_compose_text()[16] == ' ',
        function_compose_text()[24] == '(' && function_compose_text()[25] == 'F',
        function_compose_text()[33] == ' ' && function_compose_text()[40] == ')',
        function_compose_text()[41] == ' ' && function_compose_text()[42] == '{',
        function_compose_text()[43] == ' ' && function_compose_text()[50] == ' ',
        function_compose_text()[52] == ' ' && function_compose_text()[53] == '-',
        function_compose_text()[54] == '>' && function_compose_text()[55] == ' ',
        function_compose_text()[60] == '.' && function_compose_text()[61] == 'a',
        function_compose_text()[66] == '(' && function_compose_text()[67] == 'b',
        function_compose_text()[73] == '.' && function_compose_text()[74] == 'a',
        function_compose_text()[79] == '(' && function_compose_text()[80] == 'v',
        function_compose_text()[81] == ')' && function_compose_text()[82] == ')',
        function_compose_text()[83] == ';' && function_compose_text()[84] == ' ',
        function_compose_text()[85] == '}',
{
    reveal_strlit("default Function compose(Function before) { return v -> this.apply(before.apply(v)); }");
    reveal_strlit("Function");
    reveal_strlit("apply");
    reveal_strlit("before");
    reveal_strlit("compose");
    reveal_strlit("default");
    reveal_strlit("return");
    reveal_strlit("this");
    reveal_strlit("v");
}

/// The text is lexed as these tokens.
pub proof fn lexes_function_compose(s: Seq<char>, b: int, l: int, done: Seq<TokenV>)
    requires
        spells(s, b, function_compose_text()),
    ensures
        rest(s, b, l, done) == rest(s, b + 86, l, done + function_compose_tokens(l)),
{
    words_are_known();
    spelling_of_function_compose();
    let text = function_compose_text();
    let d0 = done;
    reads_key_space(s, b, text, 0, 8, "default"@, Tok::Default, l, d0);
    let d1 = d0.push(sign_tok(Tok::Default, l));
    reads_name_space(s, b, text, 8, 17, "Function"@, l, d1);
    let d2 = d1.push(name_tok("Function"@, l));
    reads_name(s, b, text, 17, 24, "compose"@, l, d2);
    let d3 = d2.push(name_tok("compose"@, l));
    reads_sign(s, b, text, 24, Tok::LParen, l, d3);
    let d4 = d3.push(sign_tok(Tok::LParen, l));
    reads_name_space(s, b, text, 25, 34, "Function"@, l, d4);
    let d5 = d4.push(name_tok("Function"@, l));
    reads_name(s, b, text, 34, 40, "before"@, l, d5);
    let d6 = d5.push(name_tok("before"@, l));
    reads_sign(s, b, text, 40, Tok::RParen, l, d6);
    let d7 = d6.push(sign_tok(Tok::RParen, l));
    reads_space(s, b, text, 41, l, d7);
    reads_sign(s, b, text, 42, Tok::LBrace, l, d7);
    let d8 = d7.push(sign_tok(Tok::LBrace, l));
    reads_space(s, b, text, 43, l, d8);
    reads_key_space(s, b, text, 44, 51, "return"@, Tok::Return, l, d8);
    let d9 = d8.push(sign_tok(Tok::Return, l));
    reads_name_space(s, b, text, 51, 53, "v"@, l, d9);
    let d10 = d9.push(name_tok("v"@, l));
    reads_operator_sign(s, b, text, 53, 55, Tok::Arrow, l, d10);
    let d11 = d10.push(sign_tok(Tok::Arrow, l));
    reads_space(s, b, text, 55, l, d11);
    reads_name(s, b, text, 56, 60, "this"@, l, d11);
    let d12 = d11.push(name_tok("this"@, l));
    reads_sign(s, b, text, 60, Tok::Dot, l, d12);
    let d13 = d12.push(sign_tok(Tok::Dot, l));
    reads_name(s, b, text, 61, 66, "apply"@, l, d13);
    let d14 = d13.push(name_tok("apply"@, l));
    reads_sign(s, b, text, 66, Tok::LParen, l, d14);
    let d15 = d14.push(sign_tok(Tok::LParen, l));
    reads_name(s, b, text, 67, 73, "before"@, l, d15);
    let d16 = d15.push(name_tok("before"@, l));
    reads_sign(s, b, text, 73, Tok::Dot, l, d16);
    let d17 = d16.push(sign_tok(Tok::Dot, l));
    reads_name(s, b, text, 74, 79, "apply"@, l, d17);
    let d18 = d17.push(name_tok("apply"@, l));
    reads_sign(s, b, text, 79, Tok::LParen, l, d18);
    let d19 = d18.push(sign_tok(Tok::LParen, l));
    reads_name(s, b, text, 80, 81, "v"@, l, d19);
    let d20 = d19.push(name_tok("v"@, l));
    reads_sign(s, b, text, 81, Tok::RParen, l, d20);
    let d21 = d20.push(sign_tok(Tok::RParen, l));
    reads_sign(s, b, text, 82, Tok::RParen, l, d21);
    let d22 = d21.push(sign_tok(Tok::RParen, l));
    reads_sign(s, b, text, 83, Tok::Semi, l, d22);
    let d23 = d22.push(sign_tok(Tok::Semi, l));
    reads_space(s, b, text, 84, l, d23);
    reads_sign(s, b, text, 85, Tok::RBrace, l, d23);
    let d24 = d23.push(sign_tok(Tok::RBrace, l));
    assert(d24 =~= done + function_compose_tokens(l));
}

/// The tokens are read as one method.
pub proof fn stands_function_compose(t: Seq<TokenV>, name: Seq<char>, p: int, l: int)
    requires
        0 <= p,
        p + 24 < t.len(),
        t.subrange(p, p + 24) == function_compose_tokens(l),
    ensures
        stands(t, name, p, p + 24),
{
    words_are_known();
    let u = function_compose_tokens(l);
    assert forall|k: int| 0 <= k < 24 implies t[p + k] == #[trigger] u[k] by {
        assert(t.subrange(p, p + 24)[k] == u[k]);
    }
    assert(t[p] == u[0] && t[p + 1] == u[1] && t[p + 2] == u[2] && t[p + 3] == u[3]);
    assert(t[p + 4] == u[4] && t[p + 5] == u[5] && t[p + 6] == u[6] && t[p + 7] == u[7]);
    assert(t[p + 8] == u[8] && t[p + 9] == u[9] && t[p + 10] == u[10] && t[p + 11] == u[11]);
    assert(t[p + 12] == u[12] && t[p + 13] == u[13] && t[p + 14] == u[14] && t[p + 15] == u[15]);
    assert(t[p + 16] == u[16] && t[p + 17] == u[17] && t[p + 18] == u[18] && t[p + 19] == u[19]);
    assert(t[p + 20] == u[20] && t[p + 21] == u[21] && t[p + 22] == u[22] && t[p + 23] == u[23]);
    reads_last_parameter(t, p + 4);
    reads_parameters(t, p + 4, p + 6);
    reads_chain_end(t, p + 20);
    reads_variable(t, p + 19, p + 20);
    reads_no_operator(t, 0u8, p + 20);
    reads_operation(t, 0u8, p + 19, p + 20, p + 20);
    reads_simple(t, p + 19, p + 20);
    reads_last_argument(t, p + 19, p + 20);
    reads_arguments(t, p + 18, p + 21);
    reads_chain_end(t, p + 21);
    reads_chained_call(t, p + 16, p + 21, p + 21);
    reads_variable(t, p + 15, p + 21);
    reads_no_operator(t, 0u8, p + 21);
    reads_operation(t, 0u8, p + 15, p + 21, p + 21);
    reads_simple(t, p + 15, p + 21);
    reads_last_argument(t, p + 15, p + 21);
    reads_arguments(t, p + 14, p + 22);
    reads_chain_end(t, p + 22);
    reads_chained_call(t, p + 12, p + 22, p + 22);
    reads_this(t, p + 11, p + 22);
    reads_no_operator(t, 0u8, p + 22);
    reads_operation(t, 0u8, p + 11, p + 22, p + 22);
    reads_simple(t, p + 11, p + 22);
    reads_expression_body(t, p + 11, p + 22);
    reads_lambda(t, p + 9, p + 22);
    reads_return(t, p + 8, p + 22);
    reads_block_end(t, p + 23);
    reads_next_statement(t, p + 8, p + 23, p + 24);
    reads_block(t, p + 8, p + 24);
    reads_method(t, name, p, p + 1, p + 6, p + 24);
}

/// The tokens of `static Function identity()`.
pub open spec fn function_identity_tokens(l: int) -> Seq<TokenV> {
    seq![
        sign_tok(Tok::Static, l), name_tok("Function"@, l), name_tok("identity"@, l),
        sign_tok(Tok::LParen, l), sign_tok(Tok::RParen, l), sign_tok(Tok::LBrace, l),
        sign_tok(Tok::Return, l), name_tok("t"@, l), sign_tok(Tok::Arrow, l), name_tok("t"@, l),
        sign_tok(Tok::Semi, l), sign_tok(Tok::RBrace, l),
    ]
}

/// Its text.
pub open spec fn function_identity_text() -> Seq<char> {
    "static Function identity() { return t -> t; }"@
}

/// Where the words and signs of the text stand.
pub proof fn spelling_of_function_identity()
    ensures
        function_identity_text().len() == 45,
        spells(function_identity_text(), 0, "static"@),
        spells(function_identity_text(), 7, "Function"@),
        spells(function_identity_text(), 16, "identity"@),
        spells(function_identity_text(), 29, "return"@),
        spells(function_identity_text(), 36, "t"@),
        spells(function_identity_text(), 41, "t"@),
        function_identity_text()[6] == ' ' && function_identity_text()[15] == ' ',
        function_identity_text()[24] == '(' && function_identity_text()[25] == ')',
        function_identity_text()[26] == ' ' && function_identity_text()[27] == '{',
        function_identity_text()[28] == ' ' && function_identity_text()[35] == ' ',
        function_identity_text()[37] == ' ' && function_identity_text()[38] == '-',
        function_identity_text()[39] == '>' && function_identity_text()[40] == ' ',
        function_identity_text()[42] == ';' && function_identity_text()[43] == ' ',
        function_identity_text()[44] == '}',
{
    reveal_strlit("static Function identity() { return t -> t; }");
    reveal_strlit("Function");
    reveal_strlit("identity");
    reveal_strlit("return");
    reveal_strlit("static");
    reveal_strlit("t");
}

/// The text is lexed as these tokens.
pub proof fn lexes_function_identity(s: Seq<char>, b: int, l: int, done: Seq<TokenV>)
    requires
        spells(s, b, function_identity_text()),
    ensures
        rest(s, b, l, done) == rest(s, b + 45, l, done + function_identity_tokens(l)),
{
    words_are_known();
    spelling_of_function_identity();
    let text = function_identity_text();
    let d0 = done;
    reads_key_space(s, b, text, 0, 7, "static"@, Tok::Static, l, d0);
    let d1 = d0.push(sign_tok(Tok::Static, l));
    reads_name_space(s, b, text, 7, 16, "Function"@, l, d1);
    let d2 = d1.push(name_tok("Function"@, l));
    reads_name(s, b, text, 16, 24, "identity"@, l, d2);
    let d3 = d2.push(name_tok("identity"@, l));
    reads_sign(s, b, text, 24, Tok::LParen, l, d3);
    let d4 = d3.push(sign_tok(Tok::LParen, l));
    reads_sign(s, b, text, 25, Tok::RParen, l, d4);
    let d5 = d4.push(sign_tok(Tok::RParen, l));
    reads_space(s, b, text, 26, l, d5);
    reads_sign(s, b, text, 27, Tok::LBrace, l, d5);
    let d6 = d5.push(sign_tok(Tok::LBrace, l));
    reads_space(s, b, text, 28, l, d6);
    reads_key_space(s, b, text, 29, 36, "return"@, Tok::Return, l, d6);
    let d7 = d6.push(sign_tok(Tok::Return, l));
    reads_name_space(s, b, text, 36, 38, "t"@, l, d7);
    let d8 = d7.push(name_tok("t"@, l));
    reads_operator_sign(s, b, text, 38, 40, Tok::Arrow, l, d8);
    let d9 = d8.push(sign_tok(Tok::Arrow, l));
    reads_space(s, b, text, 40, l, d9);
    reads_name(s, b, text, 41, 42, "t"@, l, d9);
    let d10 = d9.push(name_tok("t"@, l));
    reads_sign(s, b, text, 42, Tok::Semi, l, d10);
    let d11 = d10.push(sign_tok(Tok::Semi, l));
    reads_space(s, b, text, 43, l, d11);
    reads_sign(s, b, text, 44, Tok::RBrace, l, d11);
    let d12 = d11.push(sign_tok(Tok::RBrace, l));
    assert(d12 =~= done + function_identity_tokens(l));
}

/// The tokens are read as one method.
pub proof fn stands_function_identity(t: Seq<TokenV>, name: Seq<char>, p: int, l: int)
    requires
        0 <= p,
        p + 12 < t.len(),
        t.subrange(p, p + 12) == function_identity_tokens(l),
    ensures
        stands(t, name, p, p + 12),
{
    words_are_known();
    let u = function_identity_tokens(l);
    assert forall|k: int| 0 <= k < 12 implies t[p + k] == #[trigger] u[k] by {
        assert(t.subrange(p, p + 12)[k] == u[k]);
    }
    assert(t[p] == u[0] && t[p + 1] == u[1] && t[p + 2] == u[2] && t[p + 3] == u[3]);
    assert(t[p + 4] == u[4] && t[p + 5] == u[5] && t[p + 6] == u[6] && t[p + 7] == u[7]);
    assert(t[p + 8] == u[8] && t[p + 9] == u[9] && t[p + 10] == u[10] && t[p + 11] == u[11]);
    reads_no_parameters(t, p + 4);
    reads_chain_end(t, p + 10);
    reads_variable(t, p + 9, p + 10);
    reads_no_operator(t, 0u8, p + 10);
    reads_operation(t, 0u8, p + 9, p + 10, p + 10);
    reads_simple(t, p + 9, p + 10);
    reads_expression_body(t, p + 9, p + 10);
    reads_lambda(t, p + 7, p + 10);
    reads_return(t, p + 6, p + 10);
    reads_block_end(t, p + 11);
    reads_next_statement(t, p + 6, p + 11, p + 12);
    reads_block(t, p + 6, p + 12);
    reads_method(t, name, p, p + 1, p + 4, p + 12);
}

/// The tokens of `default BiFunction andThen(Function after)`.
pub open spec fn bi_function_and_then_tokens(l: int) -> Seq<TokenV> {
    seq![
        sign_tok(Tok::Default, l), name_tok("BiFunction"@, l), name_tok("andThen"@, l),
        sign_tok(Tok::LParen, l), name_tok("Function"@, l), name_tok("after"@, l),
        sign_tok(Tok::RParen, l), sign_tok(Tok::LBrace, l), sign_tok(Tok::Return, l),
        sign_tok(Tok::LParen, l), name_tok("t"@, l), sign_tok(Tok::Comma, l), name_tok("u"@, l),
        sign_tok(Tok::RParen, l), sign_tok(Tok::Arrow, l), name_tok("after"@, l),
        sign_tok(Tok::Dot, l), name_tok("apply"@, l), sign_tok(Tok::LParen, l),
        name_tok("this"@, l), sign_tok(Tok::Dot, l), name_tok("apply"@, l),
        sign_tok(Tok::LParen, l), name_tok("t"@, l), sign_tok(Tok::Comma, l), name_tok("u"@, l),
        sign_tok(Tok::RParen, l), sign_tok(Tok::RParen, l), sign_tok(Tok::Semi, l),
        sign_tok(Tok::RBrace, l),
    ]
}

/// Its text.
pub open spec fn bi_function_and_then_text() -> Seq<char> {
    "default BiFunction andThen(Function after) { return (t, u) -> after.apply(this.apply(t, u)); }"@
}

/// Where the words and signs of the text stand.
pub proof fn spelling_of_bi_function_and_then()
    ensures
        bi_function_and_then_text().len() == 94,
        spells(bi_function_and_then_text(), 0, "default"@),
        spells(bi_function_and_then_text(), 8, "BiFunction"@),
        spells(bi_function_and_then_text(), 19, "andThen"@),
        spells(bi_function_and_then_text(), 27, "Function"@),
        spells(bi_function_and_then_text(), 36, "after"@),
        spells(bi_function_and_then_text(), 45, "return"@),
        spells(bi_function_and_then_text(), 53, "t"@),
        spells(bi_function_and_then_text(), 56, "u"@),
        spells(bi_function_and_then_text(), 62, "after"@),
        spells(bi_function_and_then_text(), 68, "apply"@),
        spells(bi_function_and_then_text(), 74, "this"@),
        spells(bi_function_and_then_text(), 79, "apply"@),
        spells(bi_function_and_then_text(), 85, "t"@),
        spells(bi_function_and_then_text(), 88, "u"@),
        bi_function_and_then_text()[7] == ' ' && bi_function_and_then_text()[18] == ' ',
        bi_function_and_then_text()[26] == '(' && bi_function_and_then_text()[27] == 'F',
        bi_function_and_then_text()[35] == ' ' && bi_function_and_then_text()[41] == ')',
        bi_function_and_then_text()[42] == ' ' && bi_function_and_then_text()[43] == '{',
        bi_function_and_then_text()[44] == ' ' && bi_function_and_then_text()[51] == ' ',
        bi_function_and_then_text()[52] == '(' && bi_function_and_then_text()[53] == 't',
        bi_function_and_then_text()[54] == ',' && bi_function_and_then_text()[55] == ' ',
        bi_function_and_then_text()[57] == ')' && bi_function_and_then_text()[58] == ' ',
        bi_function_and_then_text()[59] == '-' && bi_function_and_then_text()[60] == '>',
        bi_function_and_then_text()[61] == ' ' && bi_function_and_then_text()[67] == '.',
        bi_function_and_then_text()[68] == 'a' && bi_function_and_then_text()[73] == '(',
        bi_function_and_then_text()[74] == 't' && bi_function_and_then_text()[78] == '.',
        bi_function_and_then_text()[79] == 'a' && bi_function_and_then_text()[84] == '(',
        bi_function_and_then_text()[85] == 't' && bi_function_and_then_text()[86] == ',',
        bi_function_and_then_text()[87] == ' ' && bi_function_and_then_text()[89] == ')',
        bi_function_and_then_text()[90] == ')' && bi_function_and_then_text()[91] == ';',
        bi_function_and_then_text()[92] == ' ' && bi_function_and_then_text()[93] == '}',
{
    reveal_strlit("default BiFunction andThen(Function after) { return (t, u) -> after.apply(this.apply(t, u)); }");
    reveal_strlit("BiFunction");
    reveal_strlit("Function");
    reveal_strlit("after");
    reveal_strlit("andThen");
    reveal_strlit("apply");
    reveal_strlit("default");
    reveal_strlit("return");
    reveal_strlit("t");
    reveal_strlit("this");
    reveal_strlit("u");
}

/// The text is lexed as these tokens.
pub proof fn lexes_bi_function_and_then(s: Seq<char>, b: int, l: int, done: Seq<TokenV>)
    requires
        spells(s, b, bi_function_and_then_text()),
    ensures
        rest(s, b, l, done) == rest(s, b + 94, l, done + bi_function_and_then_tokens(l)),
{
    words_are_known();
    spelling_of_bi_function_and_then();
    let text = bi_function_and_then_text();
    let d0 = done;
    reads_key_space(s, b, text, 0, 8, "default"@, Tok::Default, l, d0);
    let d1 = d0.push(sign_tok(Tok::Default, l));
    reads_name_space(s, b, text, 8, 19, "BiFunction"@, l, d1);
    let d2 = d1.push(name_tok("BiFunction"@, l));
    reads_name(s, b, text, 19, 26, "andThen"@, l, d2);
    let d3 = d2.push(name_tok("andThen"@, l));
    reads_sign(s, b, text, 26, Tok::LParen, l, d3);
    let d4 = d3.push(sign_tok(Tok::LParen, l));
    reads_name_space(s, b, text, 27, 36, "Function"@, l, d4);
    let d5 = d4.push(name_tok("Function"@, l));
    reads_name(s, b, text, 36, 41, "after"@, l, d5);
    let d6 = d5.push(name_tok("after"@, l));
    reads_sign(s, b, text, 41, Tok::RParen, l, d6);
    let d7 = d6.push(sign_tok(Tok::RParen, l));
    reads_space(s, b, text, 42, l, d7);
    reads_sign(s, b, text, 43, Tok::LBrace, l, d7);
    let d8 = d7.push(sign_tok(Tok::LBrace, l));
    reads_space(s, b, text, 44, l, d8);
    reads_key_space(s, b, text, 45, 52, "return"@, Tok::Return, l, d8);
    let d9 = d8.push(sign_tok(Tok::Return, l));
    reads_sign(s, b, text, 52, Tok::LParen, l, d9);
    let d10 = d9.push(sign_tok(Tok::LParen, l));
    reads_name(s, b, text, 53, 54, "t"@, l, d10);
    let d11 = d10.push(name_tok("t"@, l));
    reads_sign(s, b, text, 54, Tok::Comma, l, d11);
    let d12 = d11.push(sign_tok(Tok::Comma, l));
    reads_space(s, b, text, 55, l, d12);
    reads_name(s, b, text, 56, 57, "u"@, l, d12);
    let d13 = d12.push(name_tok("u"@, l));
    reads_sign(s, b, text, 57, Tok::RParen, l, d13);
    let d14 = d13.push(sign_tok(Tok::RParen, l));
    reads_space(s, b, text, 58, l, d14);
    reads_operator_sign(s, b, text, 59, 61, Tok::Arrow, l, d14);
    let d15 = d14.push(sign_tok(Tok::Arrow, l));
    reads_space(s, b, text, 61, l, d15);
    reads_name(s, b, text, 62, 67, "after"@, l, d15);
    let d16 = d15.push(name_tok("after"@, l));
    reads_sign(s, b, text, 67, Tok::Dot, l, d16);
    let d17 = d16.push(sign_tok(Tok::Dot, l));
    reads_name(s, b, text, 68, 73, "apply"@, l, d17);
    let d18 = d17.push(name_tok("apply"@, l));
    reads_sign(s, b, text, 73, Tok::LParen, l, d18);
    let d19 = d18.push(sign_tok(Tok::LParen, l));
    reads_name(s, b, text, 74, 78, "this"@, l, d19);
    let d20 = d19.push(name_tok("this"@, l));
    reads_sign(s, b, text, 78, Tok::Dot, l, d20);
    let d21 = d20.push(sign_tok(Tok::Dot, l));
    reads_name(s, b, text, 79, 84, "apply"@, l, d21);
    let d22 = d21.push(name_tok("apply"@, l));
    reads_sign(s, b, text, 84, Tok::LParen, l, d22);
    let d23 = d22.push(sign_tok(Tok::LParen, l));
    reads_name(s, b, text, 85, 86, "t"@, l, d23);
    let d24 = d23.push(name_tok("t"@, l));
    reads_sign(s, b, text, 86, Tok::Comma, l, d24);
    let d25 = d24.push(sign_tok(Tok::Comma, l));
    reads_space(s, b, text, 87, l, d25);
    reads_name(s, b, text, 88, 89, "u"@, l, d25);
    let d26 = d25.push(name_tok("u"@, l));
    reads_sign(s, b, text, 89, Tok::RParen, l, d26);
    let d27 = d26.push(sign_tok(Tok::RParen, l));
    reads_sign(s, b, text, 90, Tok::RParen, l, d27);
    let d28 = d27.push(sign_tok(Tok::RParen, l));
    reads_sign(s, b, text, 91, Tok::Semi, l, d28);
    let d29 = d28.push(sign_tok(Tok::Semi, l));
    reads_space(s, b, text, 92, l, d29);
    reads_sign(s, b, text, 93, Tok::RBrace, l, d29);
    let d30 = d29.push(sign_tok(Tok::RBrace, l));
    assert(d30 =~= done + bi_function_and_then_tokens(l));
}

/// The tokens are read as one method.
pub proof fn stands_bi_function_and_then(t: Seq<TokenV>, name: Seq<char>, p: int, l: int)
    requires
        0 <= p,
        p + 30 < t.len(),
        t.subrange(p, p + 30) == bi_function_and_then_tokens(l),
    ensures
        stands(t, name, p, p + 30),
{
    words_are_known();
    let u = bi_function_and_then_tokens(l);
    assert forall|k: int| 0 <= k < 30 implies t[p + k] == #[trigger] u[k] by {
        assert(t.subrange(p, p + 30)[k] == u[k]);
    }
    assert(t[p] == u[0] && t[p + 1] == u[1] && t[p + 2] == u[2] && t[p + 3] == u[3]);
    assert(t[p + 4] == u[4] && t[p + 5] == u[5] && t[p + 6] == u[6] && t[p + 7] == u[7]);
    assert(t[p + 8] == u[8] && t[p + 9] == u[9] && t[p + 10] == u[10] && t[p + 11] == u[11]);
    assert(t[p + 12] == u[12] && t[p + 13] == u[13] && t[p + 14] == u[14] && t[p + 15] == u[15]);
    assert(t[p + 16] == u[16] && t[p + 17] == u[17] && t[p + 18] == u[18] && t[p + 19] == u[19]);
    assert(t[p + 20] == u[20] && t[p + 21] == u[21] && t[p + 22] == u[22] && t[p + 23] == u[23]);
    assert(t[p + 24] == u[24] && t[p + 25] == u[25] && t[p + 26] == u[26] && t[p + 27] == u[27]);
    assert(t[p + 28] == u[28] && t[p + 29] == u[29]);
    reads_last_parameter(t, p + 4);
    reads_parameters(t, p + 4, p + 6);
    reads_chain_end(t, p + 24);
    reads_variable(t, p + 23, p + 24);
    reads_no_operator(t, 0u8, p + 24);
    reads_operation(t, 0u8, p + 23, p + 24, p + 24);
    reads_simple(t, p + 23, p + 24);
    reads_chain_end(t, p + 26);
    reads_variable(t, p + 25, p + 26);
    reads_no_operator(t, 0u8, p + 26);
    reads_operation(t, 0u8, p + 25, p + 26, p + 26);
    reads_simple(t, p + 25, p + 26);
    reads_last_argument(t, p + 25, p + 26);
    reads_next_argument(t, p + 23, p + 24, p + 27);
    reads_arguments(t, p + 22, p + 27);
    reads_chain_end(t, p + 27);
    reads_chained_call(t, p + 20, p + 27, p + 27);
    reads_this(t, p + 19, p + 27);
    reads_no_operator(t, 0u8, p + 27);
    reads_operation(t, 0u8, p + 19, p + 27, p + 27);
    reads_simple(t, p + 19, p + 27);
    reads_last_argument(t, p + 19, p + 27);
    reads_arguments(t, p + 18, p + 28);
    reads_chain_end(t, p + 28);
    reads_chained_call(t, p + 16, p + 28, p + 28);
    reads_variable(t, p + 15, p + 28);
    reads_no_operator(t, 0u8, p + 28);
    reads_operation(t, 0u8, p + 15, p + 28, p + 28);
    reads_simple(t, p + 15, p + 28);
    reads_expression_body(t, p + 15, p + 28);
    reads_lambda_of_two(t, p + 9, p + 28);
    reads_return(t, p + 8, p + 28);
    reads_block_end(t, p + 29);
    reads_next_statement(t, p + 8, p + 29, p + 30);
    reads_block(t, p + 8, p + 30);
    reads_method(t, name, p, p + 1, p + 6, p + 30);
}

/// The tokens of `static UnaryOperator identity()`.
pub open spec fn unary_operator_identity_tokens(l: int) -> Seq<TokenV> {
    seq![
        sign_tok(Tok::Static, l), name_tok("UnaryOperator"@, l), name_tok("identity"@, l),
        sign_tok(Tok::LParen, l), sign_tok(Tok::RParen, l), sign_tok(Tok::LBrace, l),
        sign_tok(Tok::Return, l), name_tok("t"@, l), sign_tok(Tok::Arrow, l), name_tok("t"@, l),
        sign_tok(Tok::Semi, l), sign_tok(Tok::RBrace, l),
    ]
}

/// Its text.
pub open spec fn unary_operator_identity_text() -> Seq<char> {
    "static UnaryOperator identity() { return t -> t; }"@
}

/// Where the words and signs of the text stand.
pub proof fn spelling_of_unary_operator_identity()
    ensures
        unary_operator_identity_text().len() == 50,
        spells(unary_operator_identity_text(), 0, "static"@),
        spells(unary_operator_identity_text(), 7, "UnaryOperator"@),
        spells(unary_operator_identity_text(), 21, "identity"@),
        spells(unary_operator_identity_text(), 34, "return"@),
        spells(unary_operator_identity_text(), 41, "t"@),
        spells(unary_operator_identity_text(), 46, "t"@),
        unary_operator_identity_text()[6] == ' ' && unary_operator_identity_text()[20] == ' ',
        unary_operator_identity_text()[29] == '(' && unary_operator_identity_text()[30] == ')',
        unary_operator_identity_text()[31] == ' ' && unary_operator_identity_text()[32] == '{',
        unary_operator_identity_text()[33] == ' ' && unary_operator_identity_text()[40] == ' ',
        unary_operator_identity_text()[42] == ' ' && unary_operator_identity_text()[43] == '-',
        unary_operator_identity_text()[44] == '>' && unary_operator_identity_text()[45] == ' ',
        unary_operator_identity_text()[47] == ';' && unary_operator_identity_text()[48] == ' ',
        unary_operator_identity_text()[49] == '}',
{
    reveal_strlit("static UnaryOperator identity() { return t -> t; }");
    reveal_strlit("UnaryOperator");
    reveal_strlit("identity");
    reveal_strlit("return");
    reveal_strlit("static");
    reveal_strlit("t");
}

/// The text is lexed as these tokens.
pub proof fn lexes_unary_operator_identity(s: Seq<char>, b: int, l: int, done: Seq<TokenV>)
    requires
        spells(s, b, unary_operator_identity_text()),
    ensures
        rest(s, b, l, done) == rest(s, b + 50, l, done + unary_operator_identity_tokens(l)),
{
    words_are_known();
    spelling_of_unary_operator_identity();
    let text = unary_operator_identity_text();
    let d0 = done;
    reads_key_space(s, b, text, 0, 7, "static"@, Tok::Static, l, d0);
    let d1 = d0.push(sign_tok(Tok::Static, l));
    reads_name_space(s, b, text, 7, 21, "UnaryOperator"@, l, d1);
    let d2 = d1.push(name_tok("UnaryOperator"@, l));
    reads_name(s, b, text, 21, 29, "identity"@, l, d2);
    let d3 = d2.push(name_tok("identity"@, l));
    reads_sign(s, b, text, 29, Tok::LParen, l, d3);
    let d4 = d3.push(sign_tok(Tok::LParen, l));
    reads_sign(s, b, text, 30, Tok::RParen, l, d4);
    let d5 = d4.push(sign_tok(Tok::RParen, l));
    reads_space(s, b, text, 31, l, d5);
    reads_sign(s, b, text, 32, Tok::LBrace, l, d5);
    let d6 = d5.push(sign_tok(Tok::LBrace, l));
    reads_space(s, b, text, 33, l, d6);
    reads_key_space(s, b, text, 34, 41, "return"@, Tok::Return, l, d6);
    let d7 = d6.push(sign_tok(Tok::Return, l));
    reads_name_space(s, b, text, 41, 43, "t"@, l, d7);
    let d8 = d7.push(name_tok("t"@, l));
    reads_operator_sign(s, b, text, 43, 45, Tok::Arrow, l, d8);
    let d9 = d8.push(sign_tok(Tok::Arrow, l));
    reads_space(s, b, text, 45, l, d9);
    reads_name(s, b, text, 46, 47, "t"@, l, d9);
    let d10 = d9.push(name_tok("t"@, l));
    reads_sign(s, b, text, 47, Tok::Semi, l, d10);
    let d11 = d10.push(sign_tok(Tok::Semi, l));
    reads_space(s, b, text, 48, l, d11);
    reads_sign(s, b, text, 49, Tok::RBrace, l, d11);
    let d12 = d11.push(sign_tok(Tok::RBrace, l));
    assert(d12 =~= done + unary_operator_identity_tokens(l));
}

/// The tokens are read as one method.
pub proof fn stands_unary_operator_identity(t: Seq<TokenV>, name: Seq<char>, p: int, l: int)
    requires
        0 <= p,
        p + 12 < t.len(),
        t.subrange(p, p + 12) == unary_operator_identity_tokens(l),
    ensures
        stands(t, name, p, p + 12),
{
    words_are_known();
    let u = unary_operator_identity_tokens(l);
    assert forall|k: int| 0 <= k < 12 implies t[p + k] == #[trigger] u[k] by {
        assert(t.subrange(p, p + 12)[k] == u[k]);
    }
    assert(t[p] == u[0] && t[p + 1] == u[1] && t[p + 2] == u[2] && t[p + 3] == u[3]);
    assert(t[p + 4] == u[4] && t[p + 5] == u[5] && t[p + 6] == u[6] && t[p + 7] == u[7]);
    assert(t[p + 8] == u[8] && t[p + 9] == u[9] && t[p + 10] == u[10] && t[p + 11] == u[11]);
    reads_no_parameters(t, p + 4);
    reads_chain_end(t, p + 10);
    reads_variable(t, p + 9, p + 10);
    reads_no_operator(t, 0u8, p + 10);
    reads_operation(t, 0u8, p + 9, p + 10, p + 10);
    reads_simple(t, p + 9, p + 10);
    reads_expression_body(t, p + 9, p + 10);
    reads_lambda(t, p + 7, p + 10);
    reads_return(t, p + 6, p + 10);
    reads_block_end(t, p + 11);
    reads_next_statement(t, p + 6, p + 11, p + 12);
    reads_block(t, p + 6, p + 12);
    reads_method(t, name, p, p + 1, p + 4, p + 12);
}

/// The tokens of `static BinaryOperator minBy(Comparator comparator)`.
pub open spec fn binary_operator_min_by_tokens(l: int) -> Seq<TokenV> {
    seq![
        sign_tok(Tok::Static, l), name_tok("BinaryOperator"@, l), name_tok("minBy"@, l),
        sign_tok(Tok::LParen, l), name_tok("Comparator"@, l), name_tok("comparator"@, l),
        sign_tok(Tok::RParen, l), sign_tok(Tok::LBrace, l), sign_tok(Tok::Return, l),
        sign_tok(Tok::LParen, l), name_tok("a"@, l), sign_tok(Tok::Comma, l), name_tok("b"@, l),
        sign_tok(Tok::RParen, l), sign_tok(Tok::Arrow, l), name_tok("comparator"@, l),
        sign_tok(Tok::Dot, l), name_tok("compare"@, l), sign_tok(Tok::LParen, l),
        name_tok("a"@, l), sign_tok(Tok::Comma, l), name_tok("b"@, l), sign_tok(Tok::RParen, l),
        sign_tok(Tok::Le, l), sign_tok(Tok::Int, l), sign_tok(Tok::Question, l),
        name_tok("a"@, l), sign_tok(Tok::Colon, l), name_tok("b"@, l), sign_tok(Tok::Semi, l),
        sign_tok(Tok::RBrace, l),
    ]
}

/// Its text.
pub open spec fn binary_operator_min_by_text() -> Seq<char> {
    "static BinaryOperator minBy(Comparator comparator) { return (a, b) -> comparator.compare(a, b) <= 0 ? a : b; }"@
}

/// Where the words and signs of the text stand.
pub proof fn spelling_of_binary_operator_min_by()
    ensures
        binary_operator_min_by_text().len() == 110,
        spells(binary_operator_min_by_text(), 0, "static"@),
        spells(binary_operator_min_by_text(), 7, "BinaryOperator"@),
        spells(binary_operator_min_by_text(), 22, "minBy"@),
        spells(binary_operator_min_by_text(), 28, "Comparator"@),
        spells(binary_operator_min_by_text(), 39, "comparator"@),
        spells(binary_operator_min_by_text(), 53, "return"@),
        spells(binary_operator_min_by_text(), 61, "a"@),
        spells(binary_operator_min_by_text(), 64, "b"@),
        spells(binary_operator_min_by_text(), 70, "comparator"@),
        spells(binary_operator_min_by_text(), 81, "compare"@),
        spells(binary_operator_min_by_text(), 89, "a"@),
        spells(binary_operator_min_by_text(), 92, "b"@),
        spells(binary_operator_min_by_text(), 102, "a"@),
        spells(binary_operator_min_by_text(), 106, "b"@),
        binary_operator_min_by_text()[6] == ' ' && binary_operator_min_by_text()[21] == ' ',
        binary_operator_min_by_text()[27] == '(' && binary_operator_min_by_text()[28] == 'C',
        binary_operator_min_by_text()[38] == ' ' && binary_operator_min_by_text()[49] == ')',
        binary_operator_min_by_text()[50] == ' ' && binary_operator_min_by_text()[51] == '{',
        binary_operator_min_by_text()[52] == ' ' && binary_operator_min_by_text()[59] == ' ',
        binary_operator_min_by_text()[60] == '(' && binary_operator_min_by_text()[61] == 'a',
        binary_operator_min_by_text()[62] == ',' && binary_operator_min_by_text()[63] == ' ',
        binary_operator_min_by_text()[65] == ')' && binary_operator_min_by_text()[66] == ' ',
        binary_operator_min_by_text()[67] == '-' && binary_operator_min_by_text()[68] == '>',
        binary_operator_min_by_text()[69] == ' ' && binary_operator_min_by_text()[80] == '.',
        binary_operator_min_by_text()[81] == 'c' && binary_operator_min_by_text()[88] == '(',
        binary_operator_min_by_text()[89] == 'a' && binary_operator_min_by_text()[90] == ',',
        binary_operator_min_by_text()[91] == ' ' && binary_operator_min_by_text()[93] == ')',
        binary_operator_min_by_text()[94] == ' ' && binary_operator_min_by_text()[95] == '<',
        binary_operator_min_by_text()[96] == '=' && binary_operator_min_by_text()[97] == ' ',
        binary_operator_min_by_text()[98] == '0' && binary_operator_min_by_text()[99] == ' ',
        binary_operator_min_by_text()[100] == '?' && binary_operator_min_by_text()[101] == ' ',
        binary_operator_min_by_text()[103] == ' ' && binary_operator_min_by_text()[104] == ':',
        binary_operator_min_by_text()[105] == ' ' && binary_operator_min_by_text()[107] == ';',
        binary_operator_min_by_text()[108] == ' ' && binary_operator_min_by_text()[109] == '}',
{
    reveal_strlit("static BinaryOperator minBy(Comparator comparator) { return (a, b) -> comparator.compare(a, b) <= 0 ? a : b; }");
    reveal_strlit("BinaryOperator");
    reveal_strlit("Comparator");
    reveal_strlit("a");
    reveal_strlit("b");
    reveal_strlit("comparator");
    reveal_strlit("compare");
    reveal_strlit("minBy");
    reveal_strlit("return");
    reveal_strlit("static");
}

/// The text is lexed as these tokens.
pub proof fn lexes_binary_operator_min_by(s: Seq<char>, b: int, l: int, done: Seq<TokenV>)
    requires
        spells(s, b, binary_operator_min_by_text()),
    ensures
        rest(s, b, l, done) == rest(s, b + 110, l, done + binary_operator_min_by_tokens(l)),
{
    words_are_known();
    spelling_of_binary_operator_min_by();
    let text = binary_operator_min_by_text();
    let d0 = done;
    reads_key_space(s, b, text, 0, 7, "static"@, Tok::Static, l, d0);
    let d1 = d0.push(sign_tok(Tok::Static, l));
    reads_name_space(s, b, text, 7, 22, "BinaryOperator"@, l, d1);
    let d2 = d1.push(name_tok("BinaryOperator"@, l));
    reads_name(s, b, text, 22, 27, "minBy"@, l, d2);
    let d3 = d2.push(name_tok("minBy"@, l));
    reads_sign(s, b, text, 27, Tok::LParen, l, d3);
    let d4 = d3.push(sign_tok(Tok::LParen, l));
    reads_name_space(s, b, text, 28, 39, "Comparator"@, l, d4);
    let d5 = d4.push(name_tok("Comparator"@, l));
    reads_name(s, b, text, 39, 49, "comparator"@, l, d5);
    let d6 = d5.push(name_tok("comparator"@, l));
    reads_sign(s, b, text, 49, Tok::RParen, l, d6);
    let d7 = d6.push(sign_tok(Tok::RParen, l));
    reads_space(s, b, text, 50, l, d7);
    reads_sign(s, b, text, 51, Tok::LBrace, l, d7);
    let d8 = d7.push(sign_tok(Tok::LBrace, l));
    reads_space(s, b, text, 52, l, d8);
    reads_key_space(s, b, text, 53, 60, "return"@, Tok::Return, l, d8);
    let d9 = d8.push(sign_tok(Tok::Return, l));
    reads_sign(s, b, text, 60, Tok::LParen, l, d9);
    let d10 = d9.push(sign_tok(Tok::LParen, l));
    reads_name(s, b, text, 61, 62, "a"@, l, d10);
    let d11 = d10.push(name_tok("a"@, l));
    reads_sign(s, b, text, 62, Tok::Comma, l, d11);
    let d12 = d11.push(sign_tok(Tok::Comma, l));
    reads_space(s, b, text, 63, l, d12);
    reads_name(s, b, text, 64, 65, "b"@, l, d12);
    let d13 = d12.push(name_tok("b"@, l));
    reads_sign(s, b, text, 65, Tok::RParen, l, d13);
    let d14 = d13.push(sign_tok(Tok::RParen, l));
    reads_space(s, b, text, 66, l, d14);
    reads_operator_sign(s, b, text, 67, 69, Tok::Arrow, l, d14);
    let d15 = d14.push(sign_tok(Tok::Arrow, l));
    reads_space(s, b, text, 69, l, d15);
    reads_name(s, b, text, 70, 80, "comparator"@, l, d15);
    let d16 = d15.push(name_tok("comparator"@, l));
    reads_sign(s, b, text, 80, Tok::Dot, l, d16);
    let d17 = d16.push(sign_tok(Tok::Dot, l));
    reads_name(s, b, text, 81, 88, "compare"@, l, d17);
    let d18 = d17.push(name_tok("compare"@, l));
    reads_sign(s, b, text, 88, Tok::LParen, l, d18);
    let d19 = d18.push(sign_tok(Tok::LParen, l));
    reads_name(s, b, text, 89, 90, "a"@, l, d19);
    let d20 = d19.push(name_tok("a"@, l));
    reads_sign(s, b, text, 90, Tok::Comma, l, d20);
    let d21 = d20.push(sign_tok(Tok::Comma, l));
    reads_space(s, b, text, 91, l, d21);
    reads_name(s, b, text, 92, 93, "b"@, l, d21);
    let d22 = d21.push(name_tok("b"@, l));
    reads_sign(s, b, text, 93, Tok::RParen, l, d22);
    let d23 = d22.push(sign_tok(Tok::RParen, l));
    reads_space(s, b, text, 94, l, d23);
    reads_operator_sign(s, b, text, 95, 97, Tok::Le, l, d23);
    let d24 = d23.push(sign_tok(Tok::Le, l));
    reads_space(s, b, text, 97, l, d24);
    reads_zero(s, b, text, 98, l, d24);
    let d25 = d24.push(sign_tok(Tok::Int, l));
    reads_space(s, b, text, 99, l, d25);
    reads_sign(s, b, text, 100, Tok::Question, l, d25);
    let d26 = d25.push(sign_tok(Tok::Question, l));
    reads_space(s, b, text, 101, l, d26);
    reads_name_space(s, b, text, 102, 104, "a"@, l, d26);
    let d27 = d26.push(name_tok("a"@, l));
    reads_operator_sign(s, b, text, 104, 105, Tok::Colon, l, d27);
    let d28 = d27.push(sign_tok(Tok::Colon, l));
    reads_space(s, b, text, 105, l, d28);
    reads_name(s, b, text, 106, 107, "b"@, l, d28);
    let d29 = d28.push(name_tok("b"@, l));
    reads_sign(s, b, text, 107, Tok::Semi, l, d29);
    let d30 = d29.push(sign_tok(Tok::Semi, l));
    reads_space(s, b, text, 108, l, d30);
    reads_sign(s, b, text, 109, Tok::RBrace, l, d30);
    let d31 = d30.push(sign_tok(Tok::RBrace, l));
    assert(d31 =~= done + binary_operator_min_by_tokens(l));
}

/// The tokens are read as one method.
pub proof fn stands_binary_operator_min_by(t: Seq<TokenV>, name: Seq<char>, p: int, l: int)
    requires
        0 <= p,
        p + 31 < t.len(),
        t.subrange(p, p + 31) == binary_operator_min_by_tokens(l),
    ensures
        stands(t, name, p, p + 31),
{
    words_are_known();
    let u = binary_operator_min_by_tokens(l);
    assert forall|k: int| 0 <= k < 31 implies t[p + k] == #[trigger] u[k] by {
        assert(t.subrange(p, p + 31)[k] == u[k]);
    }
    assert(t[p] == u[0] && t[p + 1] == u[1] && t[p + 2] == u[2] && t[p + 3] == u[3]);
    assert(t[p + 4] == u[4] && t[p + 5] == u[5] && t[p + 6] == u[6] && t[p + 7] == u[7]);
    assert(t[p + 8] == u[8] && t[p + 9] == u[9] && t[p + 10] == u[10] && t[p + 11] == u[11]);
    assert(t[p + 12] == u[12] && t[p + 13] == u[13] && t[p + 14] == u[14] && t[p + 15] == u[15]);
    assert(t[p + 16] == u[16] && t[p + 17] == u[17] && t[p + 18] == u[18] && t[p + 19] == u[19]);
    assert(t[p + 20] == u[20] && t[p + 21] == u[21] && t[p + 22] == u[22] && t[p + 23] == u[23]);
    assert(t[p + 24] == u[24] && t[p + 25] == u[25] && t[p + 26] == u[26] && t[p + 27] == u[27]);
    assert(t[p + 28] == u[28] && t[p + 29] == u[29] && t[p + 30] == u[30]);
    reads_last_parameter(t, p + 4);
    reads_parameters(t, p + 4, p + 6);
    reads_chain_end(t, p + 20);
    reads_variable(t, p + 19, p + 20);
    reads_no_operator(t, 0u8, p + 20);
    reads_operation(t, 0u8, p + 19, p + 20, p + 20);
    reads_simple(t, p + 19, p + 20);
    reads_chain_end(t, p + 22);
    reads_variable(t, p + 21, p + 22);
    reads_no_operator(t, 0u8, p + 22);
    reads_operation(t, 0u8, p + 21, p + 22, p + 22);
    reads_simple(t, p + 21, p + 22);
    reads_last_argument(t, p + 21, p + 22);
    reads_next_argument(t, p + 19, p + 20, p + 23);
    reads_arguments(t, p + 18, p + 23);
    reads_chain_end(t, p + 23);
    reads_chained_call(t, p + 16, p + 23, p + 23);
    reads_variable(t, p + 15, p + 23);
    reads_literal(t, p + 24);
    reads_no_operator(t, 8u8, p + 25);
    reads_operation(t, 8u8, p + 24, p + 25, p + 25);
    reads_no_operator(t, 0u8, p + 25);
    reads_operator(t, 0u8, p + 23, p + 25, p + 25);
    reads_operation(t, 0u8, p + 15, p + 23, p + 25);
    reads_chain_end(t, p + 27);
    reads_variable(t, p + 26, p + 27);
    reads_no_operator(t, 0u8, p + 27);
    reads_operation(t, 0u8, p + 26, p + 27, p + 27);
    reads_simple(t, p + 26, p + 27);
    reads_chain_end(t, p + 29);
    reads_variable(t, p + 28, p + 29);
    reads_no_operator(t, 0u8, p + 29);
    reads_operation(t, 0u8, p + 28, p + 29, p + 29);
    reads_simple(t, p + 28, p + 29);
    reads_conditional(t, p + 15, p + 25, p + 27, p + 29);
    reads_expression_body(t, p + 15, p + 29);
    reads_lambda_of_two(t, p + 9, p + 29);
    reads_return(t, p + 8, p + 29);
    reads_block_end(t, p + 30);
    reads_next_statement(t, p + 8, p + 30, p + 31);
    reads_block(t, p + 8, p + 31);
    reads_method(t, name, p, p + 1, p + 6, p + 31);
}

/// The tokens of `static BinaryOperator maxBy(Comparator comparator)`.
pub open spec fn binary_operator_max_by_tokens(l: int) -> Seq<TokenV> {
    seq![
        sign_tok(Tok::Static, l), name_tok("BinaryOperator"@, l), name_tok("maxBy"@, l),
        sign_tok(Tok::LParen, l), name_tok("Comparator"@, l), name_tok("comparator"@, l),
        sign_tok(Tok::RParen, l), sign_tok(Tok::LBrace, l), sign_tok(Tok::Return, l),
        sign_tok(Tok::LParen, l), name_tok("a"@, l), sign_tok(Tok::Comma, l), name_tok("b"@, l),
        sign_tok(Tok::RParen, l), sign_tok(Tok::Arrow, l), name_tok("comparator"@, l),
        sign_tok(Tok::Dot, l), name_tok("compare"@, l), sign_tok(Tok::LParen, l),
        name_tok("a"@, l), sign_tok(Tok::Comma, l), name_tok("b"@, l), sign_tok(Tok::RParen, l),
        sign_tok(Tok::Ge, l), sign_tok(Tok::Int, l), sign_tok(Tok::Question, l),
        name_tok("a"@, l), sign_tok(Tok::Colon, l), name_tok("b"@, l), sign_tok(Tok::Semi, l),
        sign_tok(Tok::RBrace, l),
    ]
}

/// Its text.
pub open spec fn binary_operator_max_by_text() -> Seq<char> {
    "static BinaryOperator maxBy(Comparator comparator) { return (a, b) -> comparator.compare(a, b) >= 0 ? a : b; }"@
}

/// Where the words and signs of the text stand.
pub proof fn spelling_of_binary_operator_max_by()
    ensures
        binary_operator_max_by_text().len() == 110,
        spells(binary_operator_max_by_text(), 0, "static"@),
        spells(binary_operator_max_by_text(), 7, "BinaryOperator"@),
        spells(binary_operator_max_by_text(), 22, "maxBy"@),
        spells(binary_operator_max_by_text(), 28, "Comparator"@),
        spells(binary_operator_max_by_text(), 39, "comparator"@),
        spells(binary_operator_max_by_text(), 53, "return"@),
        spells(binary_operator_max_by_text(), 61, "a"@),
        spells(binary_operator_max_by_text(), 64, "b"@),
        spells(binary_operator_max_by_text(), 70, "comparator"@),
        spells(binary_operator_max_by_text(), 81, "compare"@),
        spells(binary_operator_max_by_text(), 89, "a"@),
        spells(binary_operator_max_by_text(), 92, "b"@),
        spells(binary_operator_max_by_text(), 102, "a"@),
        spells(binary_operator_max_by_text(), 106, "b"@),
        binary_operator_max_by_text()[6] == ' ' && binary_operator_max_by_text()[21] == ' ',
        binary_operator_max_by_text()[27] == '(' && binary_operator_max_by_text()[28] == 'C',
        binary_operator_max_by_text()[38] == ' ' && binary_operator_max_by_text()[49] == ')',
        binary_operator_max_by_text()[50] == ' ' && binary_operator_max_by_text()[51] == '{',
        binary_operator_max_by_text()[52] == ' ' && binary_operator_max_by_text()[59] == ' ',
        binary_operator_max_by_text()[60] == '(' && binary_operator_max_by_text()[61] == 'a',
        binary_operator_max_by_text()[62] == ',' && binary_operator_max_by_text()[63] == ' ',
        binary_operator_max_by_text()[65] == ')' && binary_operator_max_by_text()[66] == ' ',
        binary_operator_max_by_text()[67] == '-' && binary_operator_max_by_text()[68] == '>',
        binary_operator_max_by_text()[69] == ' ' && binary_operator_max_by_text()[80] == '.',
        binary_operator_max_by_text()[81] == 'c' && binary_operator_max_by_text()[88] == '(',
        binary_operator_max_by_text()[89] == 'a' && binary_operator_max_by_text()[90] == ',',
        binary_operator_max_by_text()[91] == ' ' && binary_operator_max_by_text()[93] == ')',
        binary_operator_max_by_text()[94] == ' ' && binary_operator_max_by_text()[95] == '>',
        binary_operator_max_by_text()[96] == '=' && binary_operator_max_by_text()[97] == ' ',
        binary_operator_max_by_text()[98] == '0' && binary_operator_max_by_text()[99] == ' ',
        binary_operator_max_by_text()[100] == '?' && binary_operator_max_by_text()[101] == ' ',
        binary_operator_max_by_text()[103] == ' ' && binary_operator_max_by_text()[104] == ':',
        binary_operator_max_by_text()[105] == ' ' && binary_operator_max_by_text()[107] == ';',
        binary_operator_max_by_text()[108] == ' ' && binary_operator_max_by_text()[109] == '}',
{
    reveal_strlit("static BinaryOperator maxBy(Comparator comparator) { return (a, b) -> comparator.compare(a, b) >= 0 ? a : b; }");
    reveal_strlit("BinaryOperator");
    reveal_strlit("Comparator");
    reveal_strlit("a");
    reveal_strlit("b");
    reveal_strlit("comparator");
    reveal_strlit("compare");
    reveal_strlit("maxBy");
    reveal_strlit("return");
    reveal_strlit("static");
}

/// The text is lexed as these tokens.
pub proof fn lexes_binary_operator_max_by(s: Seq<char>, b: int, l: int, done: Seq<TokenV>)
    requires
        spells(s, b, binary_operator_max_by_text()),
    ensures
        rest(s, b, l, done) == rest(s, b + 110, l, done + binary_operator_max_by_tokens(l)),
{
    words_are_known();
    spelling_of_binary_operator_max_by();
    let text = binary_operator_max_by_text();
    let d0 = done;
    reads_key_space(s, b, text, 0, 7, "static"@, Tok::Static, l, d0);
    let d1 = d0.push(sign_tok(Tok::Static, l));
    reads_name_space(s, b, text, 7, 22, "BinaryOperator"@, l, d1);
    let d2 = d1.push(name_tok("BinaryOperator"@, l));
    reads_name(s, b, text, 22, 27, "maxBy"@, l, d2);
    let d3 = d2.push(name_tok("maxBy"@, l));
    reads_sign(s, b, text, 27, Tok::LParen, l, d3);
    let d4 = d3.push(sign_tok(Tok::LParen, l));
    reads_name_space(s, b, text, 28, 39, "Comparator"@, l, d4);
    let d5 = d4.push(name_tok("Comparator"@, l));
    reads_name(s, b, text, 39, 49, "comparator"@, l, d5);
    let d6 = d5.push(name_tok("comparator"@, l));
    reads_sign(s, b, text, 49, Tok::RParen, l, d6);
    let d7 = d6.push(sign_tok(Tok::RParen, l));
    reads_space(s, b, text, 50, l, d7);
    reads_sign(s, b, text, 51, Tok::LBrace, l, d7);
    let d8 = d7.push(sign_tok(Tok::LBrace, l));
    reads_space(s, b, text, 52, l, d8);
    reads_key_space(s, b, text, 53, 60, "return"@, Tok::Return, l, d8);
    let d9 = d8.push(sign_tok(Tok::Return, l));
    reads_sign(s, b, text, 60, Tok::LParen, l, d9);
    let d10 = d9.push(sign_tok(Tok::LParen, l));
    reads_name(s, b, text, 61, 62, "a"@, l, d10);
    let d11 = d10.push(name_tok("a"@, l));
    reads_sign(s, b, text, 62, Tok::Comma, l, d11);
    let d12 = d11.push(sign_tok(Tok::Comma, l));
    reads_space(s, b, text, 63, l, d12);
    reads_name(s, b, text, 64, 65, "b"@, l, d12);
    let d13 = d12.push(name_tok("b"@, l));
    reads_sign(s, b, text, 65, Tok::RParen, l, d13);
    let d14 = d13.push(sign_tok(Tok::RParen, l));
    reads_space(s, b, text, 66, l, d14);
    reads_operator_sign(s, b, text, 67, 69, Tok::Arrow, l, d14);
    let d15 = d14.push(sign_tok(Tok::Arrow, l));
    reads_space(s, b, text, 69, l, d15);
    reads_name(s, b, text, 70, 80, "comparator"@, l, d15);
    let d16 = d15.push(name_tok("comparator"@, l));
    reads_sign(s, b, text, 80, Tok::Dot, l, d16);
    let d17 = d16.push(sign_tok(Tok::Dot, l));
    reads_name(s, b, text, 81, 88, "compare"@, l, d17);
    let d18 = d17.push(name_tok("compare"@, l));
    reads_sign(s, b, text, 88, Tok::LParen, l, d18);
    let d19 = d18.push(sign_tok(Tok::LParen, l));
    reads_name(s, b, text, 89, 90, "a"@, l, d19);
    let d20 = d19.push(name_tok("a"@, l));
    reads_sign(s, b, text, 90, Tok::Comma, l, d20);
    let d21 = d20.push(sign_tok(Tok::Comma, l));
    reads_space(s, b, text, 91, l, d21);
    reads_name(s, b, text, 92, 93, "b"@, l, d21);
    let d22 = d21.push(name_tok("b"@, l));
    reads_sign(s, b, text, 93, Tok::RParen, l, d22);
    let d23 = d22.push(sign_tok(Tok::RParen, l));
    reads_space(s, b, text, 94, l, d23);
    reads_operator_sign(s, b, text, 95, 97, Tok::Ge, l, d23);
    let d24 = d23.push(sign_tok(Tok::Ge, l));
    reads_space(s, b, text, 97, l, d24);
    reads_zero(s, b, text, 98, l, d24);
    let d25 = d24.push(sign_tok(Tok::Int, l));
    reads_space(s, b, text, 99, l, d25);
    reads_sign(s, b, text, 100, Tok::Question, l, d25);
    let d26 = d25.push(sign_tok(Tok::Question, l));
    reads_space(s, b, text, 101, l, d26);
    reads_name_space(s, b, text, 102, 104, "a"@, l, d26);
    let d27 = d26.push(name_tok("a"@, l));
    reads_operator_sign(s, b, text, 104, 105, Tok::Colon, l, d27);
    let d28 = d27.push(sign_tok(Tok::Colon, l));
    reads_space(s, b, text, 105, l, d28);
    reads_name(s, b, text, 106, 107, "b"@, l, d28);
    let d29 = d28.push(name_tok("b"@, l));
    reads_sign(s, b, text, 107, Tok::Semi, l, d29);
    let d30 = d29.push(sign_tok(Tok::Semi, l));
    reads_space(s, b, text, 108, l, d30);
    reads_sign(s, b, text, 109, Tok::RBrace, l, d30);
    let d31 = d30.push(sign_tok(Tok::RBrace, l));
    assert(d31 =~= done + binary_operator_max_by_tokens(l));
}

/// The tokens are read as one method.
pub proof fn stands_binary_operator_max_by(t: Seq<TokenV>, name: Seq<char>, p: int, l: int)
    requires
        0 <= p,
        p + 31 < t.len(),
        t.subrange(p, p + 31) == binary_operator_max_by_tokens(l),
    ensures
        stands(t, name, p, p + 31),
{
    words_are_known();
    let u = binary_operator_max_by_tokens(l);
    assert forall|k: int| 0 <= k < 31 implies t[p + k] == #[trigger] u[k] by {
        assert(t.subrange(p, p + 31)[k] == u[k]);
    }
    assert(t[p] == u[0] && t[p + 1] == u[1] && t[p + 2] == u[2] && t[p + 3] == u[3]);
    assert(t[p + 4] == u[4] && t[p + 5] == u[5] && t[p + 6] == u[6] && t[p + 7] == u[7]);
    assert(t[p + 8] == u[8] && t[p + 9] == u[9] && t[p + 10] == u[10] && t[p + 11] == u[11]);
    assert(t[p + 12] == u[12] && t[p + 13] == u[13] && t[p + 14] == u[14] && t[p + 15] == u[15]);
    assert(t[p + 16] == u[16] && t[p + 17] == u[17] && t[p + 18] == u[18] && t[p + 19] == u[19]);
    assert(t[p + 20] == u[20] && t[p + 21] == u[21] && t[p + 22] == u[22] && t[p + 23] == u[23]);
    assert(t[p + 24] == u[24] && t[p + 25] == u[25] && t[p + 26] == u[26] && t[p + 27] == u[27]);
    assert(t[p + 28] == u[28] && t[p + 29] == u[29] && t[p + 30] == u[30]);
    reads_last_parameter(t, p + 4);
    reads_parameters(t, p + 4, p + 6);
    reads_chain_end(t, p + 20);
    reads_variable(t, p + 19, p + 20);
    reads_no_operator(t, 0u8, p + 20);
    reads_operation(t, 0u8, p + 19, p + 20, p + 20);
    reads_simple(t, p + 19, p + 20);
    reads_chain_end(t, p + 22);
    reads_variable(t, p + 21, p + 22);
    reads_no_operator(t, 0u8, p + 22);
    reads_operation(t, 0u8, p + 21, p + 22, p + 22);
    reads_simple(t, p + 21, p + 22);
    reads_last_argument(t, p + 21, p + 22);
    reads_next_argument(t, p + 19, p + 20, p + 23);
    reads_arguments(t, p + 18, p + 23);
    reads_chain_end(t, p + 23);
    reads_chained_call(t, p + 16, p + 23, p + 23);
    reads_variable(t, p + 15, p + 23);
    reads_literal(t, p + 24);
    reads_no_operator(t, 8u8, p + 25);
    reads_operation(t, 8u8, p + 24, p + 25, p + 25);
    reads_no_operator(t, 0u8, p + 25);
    reads_operator(t, 0u8, p + 23, p + 25, p + 25);
    reads_operation(t, 0u8, p + 15, p + 23, p + 25);
    reads_chain_end(t, p + 27);
    reads_variable(t, p + 26, p + 27);
    reads_no_operator(t, 0u8, p + 27);
    reads_operation(t, 0u8, p + 26, p + 27, p + 27);
    reads_simple(t, p + 26, p + 27);
    reads_chain_end(t, p + 29);
    reads_variable(t, p + 28, p + 29);
    reads_no_operator(t, 0u8, p + 29);
    reads_operation(t, 0u8, p + 28, p + 29, p + 29);
    reads_simple(t, p + 28, p + 29);
    reads_conditional(t, p + 15, p + 25, p + 27, p + 29);
    reads_expression_body(t, p + 15, p + 29);
    reads_lambda_of_two(t, p + 9, p + 29);
    reads_return(t, p + 8, p + 29);
    reads_block_end(t, p + 30);
    reads_next_statement(t, p + 8, p + 30, p + 31);
    reads_block(t, p + 8, p + 31);
    reads_method(t, name, p, p + 1, p + 6, p + 31);
}

/// The tokens of `default Predicate and(Predicate other)`.
pub open spec fn predicate_and_tokens(l: int) -> Seq<TokenV> {
    seq![
        sign_tok(Tok::Default, l), name_tok("Predicate"@, l), name_tok("and"@, l),
        sign_tok(Tok::LParen, l), name_tok("Predicate"@, l), name_tok("other"@, l),
        sign_tok(Tok::RParen, l), sign_tok(Tok::LBrace, l), sign_tok(Tok::Return, l),
        name_tok("t"@, l), sign_tok(Tok::Arrow, l), name_tok("this"@, l), sign_tok(Tok::Dot, l),
        name_tok("test"@, l), sign_tok(Tok::LParen, l), name_tok("t"@, l),
        sign_tok(Tok::RParen, l), sign_tok(Tok::AndAnd, l), name_tok("other"@, l),
        sign_tok(Tok::Dot, l), name_tok("test"@, l), sign_tok(Tok::LParen, l),
        name_tok("t"@, l), sign_tok(Tok::RParen, l), sign_tok(Tok::Semi, l),
        sign_tok(Tok::RBrace, l),
    ]
}

/// Its text.
pub open spec fn predicate_and_text() -> Seq<char> {
    "default Predicate and(Predicate other) { return t -> this.test(t) && other.test(t); }"@
}

/// Where the words and signs of the text stand.
pub proof fn spelling_of_predicate_and()
    ensures
        predicate_and_text().len() == 85,
        spells(predicate_and_text(), 0, "default"@),
        spells(predicate_and_text(), 8, "Predicate"@),
        spells(predicate_and_text(), 18, "and"@),
        spells(predicate_and_text(), 22, "Predicate"@),
        spells(predicate_and_text(), 32, "other"@),
        spells(predicate_and_text(), 41, "return"@) && spells(predicate_and_text(), 48, "t"@),
        spells(predicate_and_text(), 53, "this"@) && spells(predicate_and_text(), 58, "test"@),
        spells(predicate_and_text(), 63, "t"@) && spells(predicate_and_text(), 69, "other"@),
        spells(predicate_and_text(), 75, "test"@) && spells(predicate_and_text(), 80, "t"@),
        predicate_and_text()[7] == ' ' && predicate_and_text()[17] == ' ',
        predicate_and_text()[21] == '(' && predicate_and_text()[22] == 'P',
        predicate_and_text()[31] == ' ' && predicate_and_text()[37] == ')',
        predicate_and_text()[38] == ' ' && predicate_and_text()[39] == '{',
        predicate_and_text()[40] == ' ' && predicate_and_text()[47] == ' ',
        predicate_and_text()[49] == ' ' && predicate_and_text()[50] == '-',
        predicate_and_text()[51] == '>' && predicate_and_text()[52] == ' ',
        predicate_and_text()[57] == '.' && predicate_and_text()[58] == 't',
        predicate_and_text()[62] == '(' && predicate_and_text()[63] == 't',
        predicate_and_text()[64] == ')' && predicate_and_text()[65] == ' ',
        predicate_and_text()[66] == '&' && predicate_and_text()[67] == '&',
        predicate_and_text()[68] == ' ' && predicate_and_text()[74] == '.',
        predicate_and_text()[75] == 't' && predicate_and_text()[79] == '(',
        predicate_and_text()[80] == 't' && predicate_and_text()[81] == ')',
        predicate_and_text()[82] == ';' && predicate_and_text()[83] == ' ',
        predicate_and_text()[84] == '}',
{
    reveal_strlit("default Predicate and(Predicate other) { return t -> this.test(t) && other.test(t); }");
    reveal_strlit("Predicate");
    reveal_strlit("and");
    reveal_strlit("default");
    reveal_strlit("other");
    reveal_strlit("return");
    reveal_strlit("t");
    reveal_strlit("test");
    reveal_strlit("this");
}

/// The text is lexed as these tokens.
pub proof fn lexes_predicate_and(s: Seq<char>, b: int, l: int, done: Seq<TokenV>)
    requires
        spells(s, b, predicate_and_text()),
    ensures
        rest(s, b, l, done) == rest(s, b + 85, l, done + predicate_and_tokens(l)),
{
    words_are_known();
    spelling_of_predicate_and();
    let text = predicate_and_text();
    let d0 = done;
    reads_key_space(s, b, text, 0, 8, "default"@, Tok::Default, l, d0);
    let d1 = d0.push(sign_tok(Tok::Default, l));
    reads_name_space(s, b, text, 8, 18, "Predicate"@, l, d1);
    let d2 = d1.push(name_tok("Predicate"@, l));
    reads_name(s, b, text, 18, 21, "and"@, l, d2);
    let d3 = d2.push(name_tok("and"@, l));
    reads_sign(s, b, text, 21, Tok::LParen, l, d3);
    let d4 = d3.push(sign_tok(Tok::LParen, l));
    reads_name_space(s, b, text, 22, 32, "Predicate"@, l, d4);
    let d5 = d4.push(name_tok("Predicate"@, l));
    reads_name(s, b, text, 32, 37, "other"@, l, d5);
    let d6 = d5.push(name_tok("other"@, l));
    reads_sign(s, b, text, 37, Tok::RParen, l, d6);
    let d7 = d6.push(sign_tok(Tok::RParen, l));
    reads_space(s, b, text, 38, l, d7);
    reads_sign(s, b, text, 39, Tok::LBrace, l, d7);
    let d8 = d7.push(sign_tok(Tok::LBrace, l));
    reads_space(s, b, text, 40, l, d8);
    reads_key_space(s, b, text, 41, 48, "return"@, Tok::Return, l, d8);
    let d9 = d8.push(sign_tok(Tok::Return, l));
    reads_name_space(s, b, text, 48, 50, "t"@, l, d9);
    let d10 = d9.push(name_tok("t"@, l));
    reads_operator_sign(s, b, text, 50, 52, Tok::Arrow, l, d10);
    let d11 = d10.push(sign_tok(Tok::Arrow, l));
    reads_space(s, b, text, 52, l, d11);
    reads_name(s, b, text, 53, 57, "this"@, l, d11);
    let d12 = d11.push(name_tok("this"@, l));
    reads_sign(s, b, text, 57, Tok::Dot, l, d12);
    let d13 = d12.push(sign_tok(Tok::Dot, l));
    reads_name(s, b, text, 58, 62, "test"@, l, d13);
    let d14 = d13.push(name_tok("test"@, l));
    reads_sign(s, b, text, 62, Tok::LParen, l, d14);
    let d15 = d14.push(sign_tok(Tok::LParen, l));
    reads_name(s, b, text, 63, 64, "t"@, l, d15);
    let d16 = d15.push(name_tok("t"@, l));
    reads_sign(s, b, text, 64, Tok::RParen, l, d16);
    let d17 = d16.push(sign_tok(Tok::RParen, l));
    reads_space(s, b, text, 65, l, d17);
    reads_operator_sign(s, b, text, 66, 68, Tok::AndAnd, l, d17);
    let d18 = d17.push(sign_tok(Tok::AndAnd, l));
    reads_space(s, b, text, 68, l, d18);
    reads_name(s, b, text, 69, 74, "other"@, l, d18);
    let d19 = d18.push(name_tok("other"@, l));
    reads_sign(s, b, text, 74, Tok::Dot, l, d19);
    let d20 = d19.push(sign_tok(Tok::Dot, l));
    reads_name(s, b, text, 75, 79, "test"@, l, d20);
    let d21 = d20.push(name_tok("test"@, l));
    reads_sign(s, b, text, 79, Tok::LParen, l, d21);
    let d22 = d21.push(sign_tok(Tok::LParen, l));
    reads_name(s, b, text, 80, 81, "t"@, l, d22);
    let d23 = d22.push(name_tok("t"@, l));
    reads_sign(s, b, text, 81, Tok::RParen, l, d23);
    let d24 = d23.push(sign_tok(Tok::RParen, l));
    reads_sign(s, b, text, 82, Tok::Semi, l, d24);
    let d25 = d24.push(sign_tok(Tok::Semi, l));
    reads_space(s, b, text, 83, l, d25);
    reads_sign(s, b, text, 84, Tok::RBrace, l, d25);
    let d26 = d25.push(sign_tok(Tok::RBrace, l));
    assert(d26 =~= done + predicate_and_tokens(l));
}

/// The tokens are read as one method.
pub proof fn stands_predicate_and(t: Seq<TokenV>, name: Seq<char>, p: int, l: int)
    requires
        0 <= p,
        p + 26 < t.len(),
        t.subrange(p, p + 26) == predicate_and_tokens(l),
    ensures
        stands(t, name, p, p + 26),
{
    words_are_known();
    let u = predicate_and_tokens(l);
    assert forall|k: int| 0 <= k < 26 implies t[p + k] == #[trigger] u[k] by {
        assert(t.subrange(p, p + 26)[k] == u[k]);
    }
    assert(t[p] == u[0] && t[p + 1] == u[1] && t[p + 2] == u[2] && t[p + 3] == u[3]);
    assert(t[p + 4] == u[4] && t[p + 5] == u[5] && t[p + 6] == u[6] && t[p + 7] == u[7]);
    assert(t[p + 8] == u[8] && t[p + 9] == u[9] && t[p + 10] == u[10] && t[p + 11] == u[11]);
    assert(t[p + 12] == u[12] && t[p + 13] == u[13] && t[p + 14] == u[14] && t[p + 15] == u[15]);
    assert(t[p + 16] == u[16] && t[p + 17] == u[17] && t[p + 18] == u[18] && t[p + 19] == u[19]);
    assert(t[p + 20] == u[20] && t[p + 21] == u[21] && t[p + 22] == u[22] && t[p + 23] == u[23]);
    assert(t[p + 24] == u[24] && t[p + 25] == u[25]);
    reads_last_parameter(t, p + 4);
    reads_parameters(t, p + 4, p + 6);
    reads_chain_end(t, p + 16);
    reads_variable(t, p + 15, p + 16);
    reads_no_operator(t, 0u8, p + 16);
    reads_operation(t, 0u8, p + 15, p + 16, p + 16);
    reads_simple(t, p + 15, p + 16);
    reads_last_argument(t, p + 15, p + 16);
    reads_arguments(t, p + 14, p + 17);
    reads_chain_end(t, p + 17);
    reads_chained_call(t, p + 12, p + 17, p + 17);
    reads_this(t, p + 11, p + 17);
    reads_chain_end(t, p + 23);
    reads_variable(t, p + 22, p + 23);
    reads_no_operator(t, 0u8, p + 23);
    reads_operation(t, 0u8, p + 22, p + 23, p + 23);
    reads_simple(t, p + 22, p + 23);
    reads_last_argument(t, p + 22, p + 23);
    reads_arguments(t, p + 21, p + 24);
    reads_chain_end(t, p + 24);
    reads_chained_call(t, p + 19, p + 24, p + 24);
    reads_variable(t, p + 18, p + 24);
    reads_no_operator(t, 3u8, p + 24);
    reads_operation(t, 3u8, p + 18, p + 24, p + 24);
    reads_no_operator(t, 0u8, p + 24);
    reads_operator(t, 0u8, p + 17, p + 24, p + 24);
    reads_operation(t, 0u8, p + 11, p + 17, p + 24);
    reads_simple(t, p + 11, p + 24);
    reads_expression_body(t, p + 11, p + 24);
    reads_lambda(t, p + 9, p + 24);
    reads_return(t, p + 8, p + 24);
    reads_block_end(t, p + 25);
    reads_next_statement(t, p + 8, p + 25, p + 26);
    reads_block(t, p + 8, p + 26);
    reads_method(t, name, p, p + 1, p + 6, p + 26);
}

/// The tokens of `default Predicate negate()`.
pub open spec fn predicate_negate_tokens(l: int) -> Seq<TokenV> {
    seq![
        sign_tok(Tok::Default, l), name_tok("Predicate"@, l), name_tok("negate"@, l),
        sign_tok(Tok::LParen, l), sign_tok(Tok::RParen, l), sign_tok(Tok::LBrace, l),
        sign_tok(Tok::Return, l), name_tok("t"@, l), sign_tok(Tok::Arrow, l),
        sign_tok(Tok::Not, l), name_tok("this"@, l), sign_tok(Tok::Dot, l),
        name_tok("test"@, l), sign_tok(Tok::LParen, l), name_tok("t"@, l),
        sign_tok(Tok::RParen, l), sign_tok(Tok::Semi, l), sign_tok(Tok::RBrace, l),
    ]
}

/// Its text.
pub open spec fn predicate_negate_text() -> Seq<char> {
    "default Predicate negate() { return t -> !this.test(t); }"@
}

/// Where the words and signs of the text stand.
pub proof fn spelling_of_predicate_negate()
    ensures
        predicate_negate_text().len() == 57,
        spells(predicate_negate_text(), 0, "default"@),
        spells(predicate_negate_text(), 8, "Predicate"@),
        spells(predicate_negate_text(), 18, "negate"@),
        spells(predicate_negate_text(), 29, "return"@),
        spells(predicate_negate_text(), 36, "t"@),
        spells(predicate_negate_text(), 42, "this"@),
        spells(predicate_negate_text(), 47, "test"@),
        spells(predicate_negate_text(), 52, "t"@),
        predicate_negate_text()[7] == ' ' && predicate_negate_text()[17] == ' ',
        predicate_negate_text()[24] == '(' && predicate_negate_text()[25] == ')',
        predicate_negate_text()[26] == ' ' && predicate_negate_text()[27] == '{',
        predicate_negate_text()[28] == ' ' && predicate_negate_text()[35] == ' ',
        predicate_negate_text()[37] == ' ' && predicate_negate_text()[38] == '-',
        predicate_negate_text()[39] == '>' && predicate_negate_text()[40] == ' ',
        predicate_negate_text()[41] == '!' && predicate_negate_text()[42] == 't',
        predicate_negate_text()[46] == '.' && predicate_negate_text()[47] == 't',
        predicate_negate_text()[51] == '(' && predicate_negate_text()[52] == 't',
        predicate_negate_text()[53] == ')' && predicate_negate_text()[54] == ';',
        predicate_negate_text()[55] == ' ' && predicate_negate_text()[56] == '}',
{
    reveal_strlit("default Predicate negate() { return t -> !this.test(t); }");
    reveal_strlit("Predicate");
    reveal_strlit("default");
    reveal_strlit("negate");
    reveal_strlit("return");
    reveal_strlit("t");
    reveal_strlit("test");
    reveal_strlit("this");
}

/// The text is lexed as these tokens.
pub proof fn lexes_predicate_negate(s: Seq<char>, b: int, l: int, done: Seq<TokenV>)
    requires
        spells(s, b, predicate_negate_text()),
    ensures
        rest(s, b, l, done) == rest(s, b + 57, l, done + predicate_negate_tokens(l)),
{
    words_are_known();
    spelling_of_predicate_negate();
    let text = predicate_negate_text();
    let d0 = done;
    reads_key_space(s, b, text, 0, 8, "default"@, Tok::Default, l, d0);
    let d1 = d0.push(sign_tok(Tok::Default, l));
    reads_name_space(s, b, text, 8, 18, "Predicate"@, l, d1);
    let d2 = d1.push(name_tok("Predicate"@, l));
    reads_name(s, b, text, 18, 24, "negate"@, l, d2);
    let d3 = d2.push(name_tok("negate"@, l));
    reads_sign(s, b, text, 24, Tok::LParen, l, d3);
    let d4 = d3.push(sign_tok(Tok::LParen, l));
    reads_sign(s, b, text, 25, Tok::RParen, l, d4);
    let d5 = d4.push(sign_tok(Tok::RParen, l));
    reads_space(s, b, text, 26, l, d5);
    reads_sign(s, b, text, 27, Tok::LBrace, l, d5);
    let d6 = d5.push(sign_tok(Tok::LBrace, l));
    reads_space(s, b, text, 28, l, d6);
    reads_key_space(s, b, text, 29, 36, "return"@, Tok::Return, l, d6);
    let d7 = d6.push(sign_tok(Tok::Return, l));
    reads_name_space(s, b, text, 36, 38, "t"@, l, d7);
    let d8 = d7.push(name_tok("t"@, l));
    reads_operator_sign(s, b, text, 38, 40, Tok::Arrow, l, d8);
    let d9 = d8.push(sign_tok(Tok::Arrow, l));
    reads_space(s, b, text, 40, l, d9);
    reads_operator_sign(s, b, text, 41, 42, Tok::Not, l, d9);
    let d10 = d9.push(sign_tok(Tok::Not, l));
    reads_name(s, b, text, 42, 46, "this"@, l, d10);
    let d11 = d10.push(name_tok("this"@, l));
    reads_sign(s, b, text, 46, Tok::Dot, l, d11);
    let d12 = d11.push(sign_tok(Tok::Dot, l));
    reads_name(s, b, text, 47, 51, "test"@, l, d12);
    let d13 = d12.push(name_tok("test"@, l));
    reads_sign(s, b, text, 51, Tok::LParen, l, d13);
    let d14 = d13.push(sign_tok(Tok::LParen, l));
    reads_name(s, b, text, 52, 53, "t"@, l, d14);
    let d15 = d14.push(name_tok("t"@, l));
    reads_sign(s, b, text, 53, Tok::RParen, l, d15);
    let d16 = d15.push(sign_tok(Tok::RParen, l));
    reads_sign(s, b, text, 54, Tok::Semi, l, d16);
    let d17 = d16.push(sign_tok(Tok::Semi, l));
    reads_space(s, b, text, 55, l, d17);
    reads_sign(s, b, text, 56, Tok::RBrace, l, d17);
    let d18 = d17.push(sign_tok(Tok::RBrace, l));
    assert(d18 =~= done + predicate_negate_tokens(l));
}

/// The tokens are read as one method.
pub proof fn stands_predicate_negate(t: Seq<TokenV>, name: Seq<char>, p: int, l: int)
    requires
        0 <= p,
        p + 18 < t.len(),
        t.subrange(p, p + 18) == predicate_negate_tokens(l),
    ensures
        stands(t, name, p, p + 18),
{
    words_are_known();
    let u = predicate_negate_tokens(l);
    assert forall|k: int| 0 <= k < 18 implies t[p + k] == #[trigger] u[k] by {
        assert(t.subrange(p, p + 18)[k] == u[k]);
    }
    assert(t[p] == u[0] && t[p + 1] == u[1] && t[p + 2] == u[2] && t[p + 3] == u[3]);
    assert(t[p + 4] == u[4] && t[p + 5] == u[5] && t[p + 6] == u[6] && t[p + 7] == u[7]);
    assert(t[p + 8] == u[8] && t[p + 9] == u[9] && t[p + 10] == u[10] && t[p + 11] == u[11]);
    assert(t[p + 12] == u[12] && t[p + 13] == u[13] && t[p + 14] == u[14] && t[p + 15] == u[15]);
    assert(t[p + 16] == u[16] && t[p + 17] == u[17]);
    reads_no_parameters(t, p + 4);
    reads_chain_end(t, p + 15);
    reads_variable(t, p + 14, p + 15);
    reads_no_operator(t, 0u8, p + 15);
    reads_operation(t, 0u8, p + 14, p + 15, p + 15);
    reads_simple(t, p + 14, p + 15);
    reads_last_argument(t, p + 14, p + 15);
    reads_arguments(t, p + 13, p + 16);
    reads_chain_end(t, p + 16);
    reads_chained_call(t, p + 11, p + 16, p + 16);
    reads_this(t, p + 10, p + 16);
    reads_negation(t, p + 9, p + 16);
    reads_no_operator(t, 0u8, p + 16);
    reads_operation(t, 0u8, p + 9, p + 16, p + 16);
    reads_simple(t, p + 9, p + 16);
    reads_expression_body(t, p + 9, p + 16);
    reads_lambda(t, p + 7, p + 16);
    reads_return(t, p + 6, p + 16);
    reads_block_end(t, p + 17);
    reads_next_statement(t, p + 6, p + 17, p + 18);
    reads_block(t, p + 6, p + 18);
    reads_method(t, name, p, p + 1, p + 4, p + 18);
}

/// The tokens of `default Predicate or(Predicate other)`.
pub open spec fn predicate_or_tokens(l: int) -> Seq<TokenV> {
    seq![
        sign_tok(Tok::Default, l), name_tok("Predicate"@, l), name_tok("or"@, l),
        sign_tok(Tok::LParen, l), name_tok("Predicate"@, l), name_tok("other"@, l),
        sign_tok(Tok::RParen, l), sign_tok(Tok::LBrace, l), sign_tok(Tok::Return, l),
        name_tok("t"@, l), sign_tok(Tok::Arrow, l), name_tok("this"@, l), sign_tok(Tok::Dot, l),
        name_tok("test"@, l), sign_tok(Tok::LParen, l), name_tok("t"@, l),
        sign_tok(Tok::RParen, l), sign_tok(Tok::OrOr, l), name_tok("other"@, l),
        sign_tok(Tok::Dot, l), name_tok("test"@, l), sign_tok(Tok::LParen, l),
        name_tok("t"@, l), sign_tok(Tok::RParen, l), sign_tok(Tok::Semi, l),
        sign_tok(Tok::RBrace, l),
    ]
}

/// Its text.
pub open spec fn predicate_or_text() -> Seq<char> {
    "default Predicate or(Predicate other) { return t -> this.test(t) || other.test(t); }"@
}

/// Where the words and signs of the text stand.
pub proof fn spelling_of_predicate_or()
    ensures
        predicate_or_text().len() == 84,
        spells(predicate_or_text(), 0, "default"@),
        spells(predicate_or_text(), 8, "Predicate"@) && spells(predicate_or_text(), 18, "or"@),
        spells(predicate_or_text(), 21, "Predicate"@),
        spells(predicate_or_text(), 31, "other"@) && spells(predicate_or_text(), 40, "return"@),
        spells(predicate_or_text(), 47, "t"@) && spells(predicate_or_text(), 52, "this"@),
        spells(predicate_or_text(), 57, "test"@) && spells(predicate_or_text(), 62, "t"@),
        spells(predicate_or_text(), 68, "other"@) && spells(predicate_or_text(), 74, "test"@),
        spells(predicate_or_text(), 79, "t"@),
        predicate_or_text()[7] == ' ' && predicate_or_text()[17] == ' ',
        predicate_or_text()[20] == '(' && predicate_or_text()[21] == 'P',
        predicate_or_text()[30] == ' ' && predicate_or_text()[36] == ')',
        predicate_or_text()[37] == ' ' && predicate_or_text()[38] == '{',
        predicate_or_text()[39] == ' ' && predicate_or_text()[46] == ' ',
        predicate_or_text()[48] == ' ' && predicate_or_text()[49] == '-',
        predicate_or_text()[50] == '>' && predicate_or_text()[51] == ' ',
        predicate_or_text()[56] == '.' && predicate_or_text()[57] == 't',
        predicate_or_text()[61] == '(' && predicate_or_text()[62] == 't',
        predicate_or_text()[63] == ')' && predicate_or_text()[64] == ' ',
        predicate_or_text()[65] == '|' && predicate_or_text()[66] == '|',
        predicate_or_text()[67] == ' ' && predicate_or_text()[73] == '.',
        predicate_or_text()[74] == 't' && predicate_or_text()[78] == '(',
        predicate_or_text()[79] == 't' && predicate_or_text()[80] == ')',
        predicate_or_text()[81] == ';' && predicate_or_text()[82] == ' ',
        predicate_or_text()[83] == '}',
{
    reveal_strlit("default Predicate or(Predicate other) { return t -> this.test(t) || other.test(t); }");
    reveal_strlit("Predicate");
    reveal_strlit("default");
    reveal_strlit("or");
    reveal_strlit("other");
    reveal_strlit("return");
    reveal_strlit("t");
    reveal_strlit("test");
    reveal_strlit("this");
}

/// The text is lexed as these tokens.
pub proof fn lexes_predicate_or(s: Seq<char>, b: int, l: int, done: Seq<TokenV>)
    requires
        spells(s, b, predicate_or_text()),
    ensures
        rest(s, b, l, done) == rest(s, b + 84, l, done + predicate_or_tokens(l)),
{
    words_are_known();
    spelling_of_predicate_or();
    let text = predicate_or_text();
    let d0 = done;
    reads_key_space(s, b, text, 0, 8, "default"@, Tok::Default, l, d0);
    let d1 = d0.push(sign_tok(Tok::Default, l));
    reads_name_space(s, b, text, 8, 18, "Predicate"@, l, d1);
    let d2 = d1.push(name_tok("Predicate"@, l));
    reads_name(s, b, text, 18, 20, "or"@, l, d2);
    let d3 = d2.push(name_tok("or"@, l));
    reads_sign(s, b, text, 20, Tok::LParen, l, d3);
    let d4 = d3.push(sign_tok(Tok::LParen, l));
    reads_name_space(s, b, text, 21, 31, "Predicate"@, l, d4);
    let d5 = d4.push(name_tok("Predicate"@, l));
    reads_name(s, b, text, 31, 36, "other"@, l, d5);
    let d6 = d5.push(name_tok("other"@, l));
    reads_sign(s, b, text, 36, Tok::RParen, l, d6);
    let d7 = d6.push(sign_tok(Tok::RParen, l));
    reads_space(s, b, text, 37, l, d7);
    reads_sign(s, b, text, 38, Tok::LBrace, l, d7);
    let d8 = d7.push(sign_tok(Tok::LBrace, l));
    reads_space(s, b, text, 39, l, d8);
    reads_key_space(s, b, text, 40, 47, "return"@, Tok::Return, l, d8);
    let d9 = d8.push(sign_tok(Tok::Return, l));
    reads_name_space(s, b, text, 47, 49, "t"@, l, d9);
    let d10 = d9.push(name_tok("t"@, l));
    reads_operator_sign(s, b, text, 49, 51, Tok::Arrow, l, d10);
    let d11 = d10.push(sign_tok(Tok::Arrow, l));
    reads_space(s, b, text, 51, l, d11);
    reads_name(s, b, text, 52, 56, "this"@, l, d11);
    let d12 = d11.push(name_tok("this"@, l));
    reads_sign(s, b, text, 56, Tok::Dot, l, d12);
    let d13 = d12.push(sign_tok(Tok::Dot, l));
    reads_name(s, b, text, 57, 61, "test"@, l, d13);
    let d14 = d13.push(name_tok("test"@, l));
    reads_sign(s, b, text, 61, Tok::LParen, l, d14);
    let d15 = d14.push(sign_tok(Tok::LParen, l));
    reads_name(s, b, text, 62, 63, "t"@, l, d15);
    let d16 = d15.push(name_tok("t"@, l));
    reads_sign(s, b, text, 63, Tok::RParen, l, d16);
    let d17 = d16.push(sign_tok(Tok::RParen, l));
    reads_space(s, b, text, 64, l, d17);
    reads_operator_sign(s, b, text, 65, 67, Tok::OrOr, l, d17);
    let d18 = d17.push(sign_tok(Tok::OrOr, l));
    reads_space(s, b, text, 67, l, d18);
    reads_name(s, b, text, 68, 73, "other"@, l, d18);
    let d19 = d18.push(name_tok("other"@, l));
    reads_sign(s, b, text, 73, Tok::Dot, l, d19);
    let d20 = d19.push(sign_tok(Tok::Dot, l));
    reads_name(s, b, text, 74, 78, "test"@, l, d20);
    let d21 = d20.push(name_tok("test"@, l));
    reads_sign(s, b, text, 78, Tok::LParen, l, d21);
    let d22 = d21.push(sign_tok(Tok::LParen, l));
    reads_name(s, b, text, 79, 80, "t"@, l, d22);
    let d23 = d22.push(name_tok("t"@, l));
    reads_sign(s, b, text, 80, Tok::RParen, l, d23);
    let d24 = d23.push(sign_tok(Tok::RParen, l));
    reads_sign(s, b, text, 81, Tok::Semi, l, d24);
    let d25 = d24.push(sign_tok(Tok::Semi, l));
    reads_space(s, b, text, 82, l, d25);
    reads_sign(s, b, text, 83, Tok::RBrace, l, d25);
    let d26 = d25.push(sign_tok(Tok::RBrace, l));
    assert(d26 =~= done + predicate_or_tokens(l));
}

/// The tokens are read as one method.
pub proof fn stands_predicate_or(t: Seq<TokenV>, name: Seq<char>, p: int, l: int)
    requires
        0 <= p,
        p + 26 < t.len(),
        t.subrange(p, p + 26) == predicate_or_tokens(l),
    ensures
        stands(t, name, p, p + 26),
{
    words_are_known();
    let u = predicate_or_tokens(l);
    assert forall|k: int| 0 <= k < 26 implies t[p + k] == #[trigger] u[k] by {
        assert(t.subrange(p, p + 26)[k] == u[k]);
    }
    assert(t[p] == u[0] && t[p + 1] == u[1] && t[p + 2] == u[2] && t[p + 3] == u[3]);
    assert(t[p + 4] == u[4] && t[p + 5] == u[5] && t[p + 6] == u[6] && t[p + 7] == u[7]);
    assert(t[p + 8] == u[8] && t[p + 9] == u[9] && t[p + 10] == u[10] && t[p + 11] == u[11]);
    assert(t[p + 12] == u[12] && t[p + 13] == u[13] && t[p + 14] == u[14] && t[p + 15] == u[15]);
    assert(t[p + 16] == u[16] && t[p + 17] == u[17] && t[p + 18] == u[18] && t[p + 19] == u[19]);
    assert(t[p + 20] == u[20] && t[p + 21] == u[21] && t[p + 22] == u[22] && t[p + 23] == u[23]);
    assert(t[p + 24] == u[24] && t[p + 25] == u[25]);
    reads_last_parameter(t, p + 4);
    reads_parameters(t, p + 4, p + 6);
    reads_chain_end(t, p + 16);
    reads_variable(t, p + 15, p + 16);
    reads_no_operator(t, 0u8, p + 16);
    reads_operation(t, 0u8, p + 15, p + 16, p + 16);
    reads_simple(t, p + 15, p + 16);
    reads_last_argument(t, p + 15, p + 16);
    reads_arguments(t, p + 14, p + 17);
    reads_chain_end(t, p + 17);
    reads_chained_call(t, p + 12, p + 17, p + 17);
    reads_this(t, p + 11, p + 17);
    reads_chain_end(t, p + 23);
    reads_variable(t, p + 22, p + 23);
    reads_no_operator(t, 0u8, p + 23);
    reads_operation(t, 0u8, p + 22, p + 23, p + 23);
    reads_simple(t, p + 22, p + 23);
    reads_last_argument(t, p + 22, p + 23);
    reads_arguments(t, p + 21, p + 24);
    reads_chain_end(t, p + 24);
    reads_chained_call(t, p + 19, p + 24, p + 24);
    reads_variable(t, p + 18, p + 24);
    reads_no_operator(t, 2u8, p + 24);
    reads_operation(t, 2u8, p + 18, p + 24, p + 24);
    reads_no_operator(t, 0u8, p + 24);
    reads_operator(t, 0u8, p + 17, p + 24, p + 24);
    reads_operation(t, 0u8, p + 11, p + 17, p + 24);
    reads_simple(t, p + 11, p + 24);
    reads_expression_body(t, p + 11, p + 24);
    reads_lambda(t, p + 9, p + 24);
    reads_return(t, p + 8, p + 24);
    reads_block_end(t, p + 25);
    reads_next_statement(t, p + 8, p + 25, p + 26);
    reads_block(t, p + 8, p + 26);
    reads_method(t, name, p, p + 1, p + 6, p + 26);
}

/// The tokens of `static Predicate not(Predicate target)`.
pub open spec fn predicate_not_tokens(l: int) -> Seq<TokenV> {
    seq![
        sign_tok(Tok::Static, l), name_tok("Predicate"@, l), name_tok("not"@, l),
        sign_tok(Tok::LParen, l), name_tok("Predicate"@, l), name_tok("target"@, l),
        sign_tok(Tok::RParen, l), sign_tok(Tok::LBrace, l), sign_tok(Tok::Return, l),
        name_tok("target"@, l), sign_tok(Tok::Dot, l), name_tok("negate"@, l),
        sign_tok(Tok::LParen, l), sign_tok(Tok::RParen, l), sign_tok(Tok::Semi, l),
        sign_tok(Tok::RBrace, l),
    ]
}

/// Its text.
pub open spec fn predicate_not_text() -> Seq<char> {
    "static Predicate not(Predicate target) { return target.negate(); }"@
}

/// Where the words and signs of the text stand.
pub proof fn spelling_of_predicate_not()
    ensures
        predicate_not_text().len() == 66,
        spells(predicate_not_text(), 0, "static"@),
        spells(predicate_not_text(), 7, "Predicate"@),
        spells(predicate_not_text(), 17, "not"@),
        spells(predicate_not_text(), 21, "Predicate"@),
        spells(predicate_not_text(), 31, "target"@),
        spells(predicate_not_text(), 41, "return"@),
        spells(predicate_not_text(), 48, "target"@),
        spells(predicate_not_text(), 55, "negate"@),
        predicate_not_text()[6] == ' ' && predicate_not_text()[16] == ' ',
        predicate_not_text()[20] == '(' && predicate_not_text()[21] == 'P',
        predicate_not_text()[30] == ' ' && predicate_not_text()[37] == ')',
        predicate_not_text()[38] == ' ' && predicate_not_text()[39] == '{',
        predicate_not_text()[40] == ' ' && predicate_not_text()[47] == ' ',
        predicate_not_text()[54] == '.' && predicate_not_text()[55] == 'n',
        predicate_not_text()[61] == '(' && predicate_not_text()[62] == ')',
        predicate_not_text()[63] == ';' && predicate_not_text()[64] == ' ',
        predicate_not_text()[65] == '}',
{
    reveal_strlit("static Predicate not(Predicate target) { return target.negate(); }");
    reveal_strlit("Predicate");
    reveal_strlit("negate");
    reveal_strlit("not");
    reveal_strlit("return");
    reveal_strlit("static");
    reveal_strlit("target");
}

/// The text is lexed as these tokens.
pub proof fn lexes_predicate_not(s: Seq<char>, b: int, l: int, done: Seq<TokenV>)
    requires
        spells(s, b, predicate_not_text()),
    ensures
        rest(s, b, l, done) == rest(s, b + 66, l, done + predicate_not_tokens(l)),
{
    words_are_known();
    spelling_of_predicate_not();
    let text = predicate_not_text();
    let d0 = done;
    reads_key_space(s, b, text, 0, 7, "static"@, Tok::Static, l, d0);
    let d1 = d0.push(sign_tok(Tok::Static, l));
    reads_name_space(s, b, text, 7, 17, "Predicate"@, l, d1);
    let d2 = d1.push(name_tok("Predicate"@, l));
    reads_name(s, b, text, 17, 20, "not"@, l, d2);
    let d3 = d2.push(name_tok("not"@, l));
    reads_sign(s, b, text, 20, Tok::LParen, l, d3);
    let d4 = d3.push(sign_tok(Tok::LParen, l));
    reads_name_space(s, b, text, 21, 31, "Predicate"@, l, d4);
    let d5 = d4.push(name_tok("Predicate"@, l));
    reads_name(s, b, text, 31, 37, "target"@, l, d5);
    let d6 = d5.push(name_tok("target"@, l));
    reads_sign(s, b, text, 37, Tok::RParen, l, d6);
    let d7 = d6.push(sign_tok(Tok::RParen, l));
    reads_space(s, b, text, 38, l, d7);
    reads_sign(s, b, text, 39, Tok::LBrace, l, d7);
    let d8 = d7.push(sign_tok(Tok::LBrace, l));
    reads_space(s, b, text, 40, l, d8);
    reads_key_space(s, b, text, 41, 48, "return"@, Tok::Return, l, d8);
    let d9 = d8.push(sign_tok(Tok::Return, l));
    reads_name(s, b, text, 48, 54, "target"@, l, d9);
    let d10 = d9.push(name_tok("target"@, l));
    reads_sign(s, b, text, 54, Tok::Dot, l, d10);
    let d11 = d10.push(sign_tok(Tok::Dot, l));
    reads_name(s, b, text, 55, 61, "negate"@, l, d11);
    let d12 = d11.push(name_tok("negate"@, l));
    reads_sign(s, b, text, 61, Tok::LParen, l, d12);
    let d13 = d12.push(sign_tok(Tok::LParen, l));
    reads_sign(s, b, text, 62, Tok::RParen, l, d13);
    let d14 = d13.push(sign_tok(Tok::RParen, l));
    reads_sign(s, b, text, 63, Tok::Semi, l, d14);
    let d15 = d14.push(sign_tok(Tok::Semi, l));
    reads_space(s, b, text, 64, l, d15);
    reads_sign(s, b, text, 65, Tok::RBrace, l, d15);
    let d16 = d15.push(sign_tok(Tok::RBrace, l));
    assert(d16 =~= done + predicate_not_tokens(l));
}

/// The tokens are read as one method.
pub proof fn stands_predicate_not(t: Seq<TokenV>, name: Seq<char>, p: int, l: int)
    requires
        0 <= p,
        p + 16 < t.len(),
        t.subrange(p, p + 16) == predicate_not_tokens(l),
    ensures
        stands(t, name, p, p + 16),
{
    words_are_known();
    let u = predicate_not_tokens(l);
    assert forall|k: int| 0 <= k < 16 implies t[p + k] == #[trigger] u[k] by {
        assert(t.subrange(p, p + 16)[k] == u[k]);
    }
    assert(t[p] == u[0] && t[p + 1] == u[1] && t[p + 2] == u[2] && t[p + 3] == u[3]);
    assert(t[p + 4] == u[4] && t[p + 5] == u[5] && t[p + 6] == u[6] && t[p + 7] == u[7]);
    assert(t[p + 8] == u[8] && t[p + 9] == u[9] && t[p + 10] == u[10] && t[p + 11] == u[11]);
    assert(t[p + 12] == u[12] && t[p + 13] == u[13] && t[p + 14] == u[14] && t[p + 15] == u[15]);
    reads_last_parameter(t, p + 4);
    reads_parameters(t, p + 4, p + 6);
    reads_no_arguments(t, p + 12);
    reads_chain_end(t, p + 14);
    reads_chained_call(t, p + 10, p + 14, p + 14);
    reads_variable(t, p + 9, p + 14);
    reads_no_operator(t, 0u8, p + 14);
    reads_operation(t, 0u8, p + 9, p + 14, p + 14);
    reads_simple(t, p + 9, p + 14);
    reads_return(t, p + 8, p + 14);
    reads_block_end(t, p + 15);
    reads_next_statement(t, p + 8, p + 15, p + 16);
    reads_block(t, p + 8, p + 16);
    reads_method(t, name, p, p + 1, p + 6, p + 16);
}

/// The tokens of `default BiPredicate and(BiPredicate other)`.
pub open spec fn bi_predicate_and_tokens(l: int) -> Seq<TokenV> {
    seq![
        sign_tok(Tok::Default, l), name_tok("BiPredicate"@, l), name_tok("and"@, l),
        sign_tok(Tok::LParen, l), name_tok("BiPredicate"@, l), name_tok("other"@, l),
        sign_tok(Tok::RParen, l), sign_tok(Tok::LBrace, l), sign_tok(Tok::Return, l),
        sign_tok(Tok::LParen, l), name_tok("t"@, l), sign_tok(Tok::Comma, l), name_tok("u"@, l),
        sign_tok(Tok::RParen, l), sign_tok(Tok::Arrow, l), name_tok("this"@, l),
        sign_tok(Tok::Dot, l), name_tok("test"@, l), sign_tok(Tok::LParen, l),
        name_tok("t"@, l), sign_tok(Tok::Comma, l), name_tok("u"@, l), sign_tok(Tok::RParen, l),
        sign_tok(Tok::AndAnd, l), name_tok("other"@, l), sign_tok(Tok::Dot, l),
        name_tok("test"@, l), sign_tok(Tok::LParen, l), name_tok("t"@, l),
        sign_tok(Tok::Comma, l), name_tok("u"@, l), sign_tok(Tok::RParen, l),
        sign_tok(Tok::Semi, l), sign_tok(Tok::RBrace, l),
    ]
}

/// Its text.
pub open spec fn bi_predicate_and_text() -> Seq<char> {
    "default BiPredicate and(BiPredicate other) { return (t, u) -> this.test(t, u) && other.test(t, u); }"@
}

/// Where the words and signs of the text stand.
pub proof fn spelling_of_bi_predicate_and()
    ensures
        bi_predicate_and_text().len() == 100,
        spells(bi_predicate_and_text(), 0, "default"@),
        spells(bi_predicate_and_text(), 8, "BiPredicate"@),
        spells(bi_predicate_and_text(), 20, "and"@),
        spells(bi_predicate_and_text(), 24, "BiPredicate"@),
        spells(bi_predicate_and_text(), 36, "other"@),
        spells(bi_predicate_and_text(), 45, "return"@),
        spells(bi_predicate_and_text(), 53, "t"@) && spells(bi_predicate_and_text(), 56, "u"@),
        spells(bi_predicate_and_text(), 62, "this"@),
        spells(bi_predicate_and_text(), 67, "test"@),
        spells(bi_predicate_and_text(), 72, "t"@) && spells(bi_predicate_and_text(), 75, "u"@),
        spells(bi_predicate_and_text(), 81, "other"@),
        spells(bi_predicate_and_text(), 87, "test"@),
        spells(bi_predicate_and_text(), 92, "t"@) && spells(bi_predicate_and_text(), 95, "u"@),
        bi_predicate_and_text()[7] == ' ' && bi_predicate_and_text()[19] == ' ',
        bi_predicate_and_text()[23] == '(' && bi_predicate_and_text()[24] == 'B',
        bi_predicate_and_text()[35] == ' ' && bi_predicate_and_text()[41] == ')',
        bi_predicate_and_text()[42] == ' ' && bi_predicate_and_text()[43] == '{',
        bi_predicate_and_text()[44] == ' ' && bi_predicate_and_text()[51] == ' ',
        bi_predicate_and_text()[52] == '(' && bi_predicate_and_text()[53] == 't',
        bi_predicate_and_text()[54] == ',' && bi_predicate_and_text()[55] == ' ',
        bi_predicate_and_text()[57] == ')' && bi_predicate_and_text()[58] == ' ',
        bi_predicate_and_text()[59] == '-' && bi_predicate_and_text()[60] == '>',
        bi_predicate_and_text()[61] == ' ' && bi_predicate_and_text()[66] == '.',
        bi_predicate_and_text()[67] == 't' && bi_predicate_and_text()[71] == '(',
        bi_predicate_and_text()[72] == 't' && bi_predicate_and_text()[73] == ',',
        bi_predicate_and_text()[74] == ' ' && bi_predicate_and_text()[76] == ')',
        bi_predicate_and_text()[77] == ' ' && bi_predicate_and_text()[78] == '&',
        bi_predicate_and_text()[79] == '&' && bi_predicate_and_text()[80] == ' ',
        bi_predicate_and_text()[86] == '.' && bi_predicate_and_text()[87] == 't',
        bi_predicate_and_text()[91] == '(' && bi_predicate_and_text()[92] == 't',
        bi_predicate_and_text()[93] == ',' && bi_predicate_and_text()[94] == ' ',
        bi_predicate_and_text()[96] == ')' && bi_predicate_and_text()[97] == ';',
        bi_predicate_and_text()[98] == ' ' && bi_predicate_and_text()[99] == '}',
{
    reveal_strlit("default BiPredicate and(BiPredicate other) { return (t, u) -> this.test(t, u) && other.test(t, u); }");
    reveal_strlit("BiPredicate");
    reveal_strlit("and");
    reveal_strlit("default");
    reveal_strlit("other");
    reveal_strlit("return");
    reveal_strlit("t");
    reveal_strlit("test");
    reveal_strlit("this");
    reveal_strlit("u");
}

/// The text is lexed as these tokens.
pub proof fn lexes_bi_predicate_and(s: Seq<char>, b: int, l: int, done: Seq<TokenV>)
    requires
        spells(s, b, bi_predicate_and_text()),
    ensures
        rest(s, b, l, done) == rest(s, b + 100, l, done + bi_predicate_and_tokens(l)),
{
    words_are_known();
    spelling_of_bi_predicate_and();
    let text = bi_predicate_and_text();
    let d0 = done;
    reads_key_space(s, b, text, 0, 8, "default"@, Tok::Default, l, d0);
    let d1 = d0.push(sign_tok(Tok::Default, l));
    reads_name_space(s, b, text, 8, 20, "BiPredicate"@, l, d1);
    let d2 = d1.push(name_tok("BiPredicate"@, l));
    reads_name(s, b, text, 20, 23, "and"@, l, d2);
    let d3 = d2.push(name_tok("and"@, l));
    reads_sign(s, b, text, 23, Tok::LParen, l, d3);
    let d4 = d3.push(sign_tok(Tok::LParen, l));
    reads_name_space(s, b, text, 24, 36, "BiPredicate"@, l, d4);
    let d5 = d4.push(name_tok("BiPredicate"@, l));
    reads_name(s, b, text, 36, 41, "other"@, l, d5);
    let d6 = d5.push(name_tok("other"@, l));
    reads_sign(s, b, text, 41, Tok::RParen, l, d6);
    let d7 = d6.push(sign_tok(Tok::RParen, l));
    reads_space(s, b, text, 42, l, d7);
    reads_sign(s, b, text, 43, Tok::LBrace, l, d7);
    let d8 = d7.push(sign_tok(Tok::LBrace, l));
    reads_space(s, b, text, 44, l, d8);
    reads_key_space(s, b, text, 45, 52, "return"@, Tok::Return, l, d8);
    let d9 = d8.push(sign_tok(Tok::Return, l));
    reads_sign(s, b, text, 52, Tok::LParen, l, d9);
    let d10 = d9.push(sign_tok(Tok::LParen, l));
    reads_name(s, b, text, 53, 54, "t"@, l, d10);
    let d11 = d10.push(name_tok("t"@, l));
    reads_sign(s, b, text, 54, Tok::Comma, l, d11);
    let d12 = d11.push(sign_tok(Tok::Comma, l));
    reads_space(s, b, text, 55, l, d12);
    reads_name(s, b, text, 56, 57, "u"@, l, d12);
    let d13 = d12.push(name_tok("u"@, l));
    reads_sign(s, b, text, 57, Tok::RParen, l, d13);
    let d14 = d13.push(sign_tok(Tok::RParen, l));
    reads_space(s, b, text, 58, l, d14);
    reads_operator_sign(s, b, text, 59, 61, Tok::Arrow, l, d14);
    let d15 = d14.push(sign_tok(Tok::Arrow, l));
    reads_space(s, b, text, 61, l, d15);
    reads_name(s, b, text, 62, 66, "this"@, l, d15);
    let d16 = d15.push(name_tok("this"@, l));
    reads_sign(s, b, text, 66, Tok::Dot, l, d16);
    let d17 = d16.push(sign_tok(Tok::Dot, l));
    reads_name(s, b, text, 67, 71, "test"@, l, d17);
    let d18 = d17.push(name_tok("test"@, l));
    reads_sign(s, b, text, 71, Tok::LParen, l, d18);
    let d19 = d18.push(sign_tok(Tok::LParen, l));
    reads_name(s, b, text, 72, 73, "t"@, l, d19);
    let d20 = d19.push(name_tok("t"@, l));
    reads_sign(s, b, text, 73, Tok::Comma, l, d20);
    let d21 = d20.push(sign_tok(Tok::Comma, l));
    reads_space(s, b, text, 74, l, d21);
    reads_name(s, b, text, 75, 76, "u"@, l, d21);
    let d22 = d21.push(name_tok("u"@, l));
    reads_sign(s, b, text, 76, Tok::RParen, l, d22);
    let d23 = d22.push(sign_tok(Tok::RParen, l));
    reads_space(s, b, text, 77, l, d23);
    reads_operator_sign(s, b, text, 78, 80, Tok::AndAnd, l, d23);
    let d24 = d23.push(sign_tok(Tok::AndAnd, l));
    reads_space(s, b, text, 80, l, d24);
    reads_name(s, b, text, 81, 86, "other"@, l, d24);
    let d25 = d24.push(name_tok("other"@, l));
    reads_sign(s, b, text, 86, Tok::Dot, l, d25);
    let d26 = d25.push(sign_tok(Tok::Dot, l));
    reads_name(s, b, text, 87, 91, "test"@, l, d26);
    let d27 = d26.push(name_tok("test"@, l));
    reads_sign(s, b, text, 91, Tok::LParen, l, d27);
    let d28 = d27.push(sign_tok(Tok::LParen, l));
    reads_name(s, b, text, 92, 93, "t"@, l, d28);
    let d29 = d28.push(name_tok("t"@, l));
    reads_sign(s, b, text, 93, Tok::Comma, l, d29);
    let d30 = d29.push(sign_tok(Tok::Comma, l));
    reads_space(s, b, text, 94, l, d30);
    reads_name(s, b, text, 95, 96, "u"@, l, d30);
    let d31 = d30.push(name_tok("u"@, l));
    reads_sign(s, b, text, 96, Tok::RParen, l, d31);
    let d32 = d31.push(sign_tok(Tok::RParen, l));
    reads_sign(s, b, text, 97, Tok::Semi, l, d32);
    let d33 = d32.push(sign_tok(Tok::Semi, l));
    reads_space(s, b, text, 98, l, d33);
    reads_sign(s, b, text, 99, Tok::RBrace, l, d33);
    let d34 = d33.push(sign_tok(Tok::RBrace, l));
    assert(d34 =~= done + bi_predicate_and_tokens(l));
}

/// The tokens are read as one method.
pub proof fn stands_bi_predicate_and(t: Seq<TokenV>, name: Seq<char>, p: int, l: int)
    requires
        0 <= p,
        p + 34 < t.len(),
        t.subrange(p, p + 34) == bi_predicate_and_tokens(l),
    ensures
        stands(t, name, p, p + 34),
{
    words_are_known();
    let u = bi_predicate_and_tokens(l);
    assert forall|k: int| 0 <= k < 34 implies t[p + k] == #[trigger] u[k] by {
        assert(t.subrange(p, p + 34)[k] == u[k]);
    }
    assert(t[p] == u[0] && t[p + 1] == u[1] && t[p + 2] == u[2] && t[p + 3] == u[3]);
    assert(t[p + 4] == u[4] && t[p + 5] == u[5] && t[p + 6] == u[6] && t[p + 7] == u[7]);
    assert(t[p + 8] == u[8] && t[p + 9] == u[9] && t[p + 10] == u[10] && t[p + 11] == u[11]);
    assert(t[p + 12] == u[12] && t[p + 13] == u[13] && t[p + 14] == u[14] && t[p + 15] == u[15]);
    assert(t[p + 16] == u[16] && t[p + 17] == u[17] && t[p + 18] == u[18] && t[p + 19] == u[19]);
    assert(t[p + 20] == u[20] && t[p + 21] == u[21] && t[p + 22] == u[22] && t[p + 23] == u[23]);
    assert(t[p + 24] == u[24] && t[p + 25] == u[25] && t[p + 26] == u[26] && t[p + 27] == u[27]);
    assert(t[p + 28] == u[28] && t[p + 29] == u[29] && t[p + 30] == u[30] && t[p + 31] == u[31]);
    assert(t[p + 32] == u[32] && t[p + 33] == u[33]);
    reads_last_parameter(t, p + 4);
    reads_parameters(t, p + 4, p + 6);
    reads_chain_end(t, p + 20);
    reads_variable(t, p + 19, p + 20);
    reads_no_operator(t, 0u8, p + 20);
    reads_operation(t, 0u8, p + 19, p + 20, p + 20);
    reads_simple(t, p + 19, p + 20);
    reads_chain_end(t, p + 22);
    reads_variable(t, p + 21, p + 22);
    reads_no_operator(t, 0u8, p + 22);
    reads_operation(t, 0u8, p + 21, p + 22, p + 22);
    reads_simple(t, p + 21, p + 22);
    reads_last_argument(t, p + 21, p + 22);
    reads_next_argument(t, p + 19, p + 20, p + 23);
    reads_arguments(t, p + 18, p + 23);
    reads_chain_end(t, p + 23);
    reads_chained_call(t, p + 16, p + 23, p + 23);
    reads_this(t, p + 15, p + 23);
    reads_chain_end(t, p + 29);
    reads_variable(t, p + 28, p + 29);
    reads_no_operator(t, 0u8, p + 29);
    reads_operation(t, 0u8, p + 28, p + 29, p + 29);
    reads_simple(t, p + 28, p + 29);
    reads_chain_end(t, p + 31);
    reads_variable(t, p + 30, p + 31);
    reads_no_operator(t, 0u8, p + 31);
    reads_operation(t, 0u8, p + 30, p + 31, p + 31);
    reads_simple(t, p + 30, p + 31);
    reads_last_argument(t, p + 30, p + 31);
    reads_next_argument(t, p + 28, p + 29, p + 32);
    reads_arguments(t, p + 27, p + 32);
    reads_chain_end(t, p + 32);
    reads_chained_call(t, p + 25, p + 32, p + 32);
    reads_variable(t, p + 24, p + 32);
    reads_no_operator(t, 3u8, p + 32);
    reads_operation(t, 3u8, p + 24, p + 32, p + 32);
    reads_no_operator(t, 0u8, p + 32);
    reads_operator(t, 0u8, p + 23, p + 32, p + 32);
    reads_operation(t, 0u8, p + 15, p + 23, p + 32);
    reads_simple(t, p + 15, p + 32);
    reads_expression_body(t, p + 15, p + 32);
    reads_lambda_of_two(t, p + 9, p + 32);
    reads_return(t, p + 8, p + 32);
    reads_block_end(t, p + 33);
    reads_next_statement(t, p + 8, p + 33, p + 34);
    reads_block(t, p + 8, p + 34);
    reads_method(t, name, p, p + 1, p + 6, p + 34);
}

/// The tokens of `default BiPredicate negate()`.
pub open spec fn bi_predicate_negate_tokens(l: int) -> Seq<TokenV> {
    seq![
        sign_tok(Tok::Default, l), name_tok("BiPredicate"@, l), name_tok("negate"@, l),
        sign_tok(Tok::LParen, l), sign_tok(Tok::RParen, l), sign_tok(Tok::LBrace, l),
        sign_tok(Tok::Return, l), sign_tok(Tok::LParen, l), name_tok("t"@, l),
        sign_tok(Tok::Comma, l), name_tok("u"@, l), sign_tok(Tok::RParen, l),
        sign_tok(Tok::Arrow, l), sign_tok(Tok::Not, l), name_tok("this"@, l),
        sign_tok(Tok::Dot, l), name_tok("test"@, l), sign_tok(Tok::LParen, l),
        name_tok("t"@, l), sign_tok(Tok::Comma, l), name_tok("u"@, l), sign_tok(Tok::RParen, l),
        sign_tok(Tok::Semi, l), sign_tok(Tok::RBrace, l),
    ]
}

/// Its text.
pub open spec fn bi_predicate_negate_text() -> Seq<char> {
    "default BiPredicate negate() { return (t, u) -> !this.test(t, u); }"@
}

/// Where the words and signs of the text stand.
pub proof fn spelling_of_bi_predicate_negate()
    ensures
        bi_predicate_negate_text().len() == 67,
        spells(bi_predicate_negate_text(), 0, "default"@),
        spells(bi_predicate_negate_text(), 8, "BiPredicate"@),
        spells(bi_predicate_negate_text(), 20, "negate"@),
        spells(bi_predicate_negate_text(), 31, "return"@),
        spells(bi_predicate_negate_text(), 39, "t"@),
        spells(bi_predicate_negate_text(), 42, "u"@),
        spells(bi_predicate_negate_text(), 49, "this"@),
        spells(bi_predicate_negate_text(), 54, "test"@),
        spells(bi_predicate_negate_text(), 59, "t"@),
        spells(bi_predicate_negate_text(), 62, "u"@),
        bi_predicate_negate_text()[7] == ' ' && bi_predicate_negate_text()[19] == ' ',
        bi_predicate_negate_text()[26] == '(' && bi_predicate_negate_text()[27] == ')',
        bi_predicate_negate_text()[28] == ' ' && bi_predicate_negate_text()[29] == '{',
        bi_predicate_negate_text()[30] == ' ' && bi_predicate_negate_text()[37] == ' ',
        bi_predicate_negate_text()[38] == '(' && bi_predicate_negate_text()[39] == 't',
        bi_predicate_negate_text()[40] == ',' && bi_predicate_negate_text()[41] == ' ',
        bi_predicate_negate_text()[43] == ')' && bi_predicate_negate_text()[44] == ' ',
        bi_predicate_negate_text()[45] == '-' && bi_predicate_negate_text()[46] == '>',
        bi_predicate_negate_text()[47] == ' ' && bi_predicate_negate_text()[48] == '!',
        bi_predicate_negate_text()[49] == 't' && bi_predicate_negate_text()[53] == '.',
        bi_predicate_negate_text()[54] == 't' && bi_predicate_negate_text()[58] == '(',
        bi_predicate_negate_text()[59] == 't' && bi_predicate_negate_text()[60] == ',',
        bi_predicate_negate_text()[61] == ' ' && bi_predicate_negate_text()[63] == ')',
        bi_predicate_negate_text()[64] == ';' && bi_predicate_negate_text()[65] == ' ',
        bi_predicate_negate_text()[66] == '}',
{
    reveal_strlit("default BiPredicate negate() { return (t, u) -> !this.test(t, u); }");
    reveal_strlit("BiPredicate");
    reveal_strlit("default");
    reveal_strlit("negate");
    reveal_strlit("return");
    reveal_strlit("t");
    reveal_strlit("test");
    reveal_strlit("this");
    reveal_strlit("u");
}

/// The text is lexed as these tokens.
pub proof fn lexes_bi_predicate_negate(s: Seq<char>, b: int, l: int, done: Seq<TokenV>)
    requires
        spells(s, b, bi_predicate_negate_text()),
    ensures
        rest(s, b, l, done) == rest(s, b + 67, l, done + bi_predicate_negate_tokens(l)),
{
    words_are_known();
    spelling_of_bi_predicate_negate();
    let text = bi_predicate_negate_text();
    let d0 = done;
    reads_key_space(s, b, text, 0, 8, "default"@, Tok::Default, l, d0);
    let d1 = d0.push(sign_tok(Tok::Default, l));
    reads_name_space(s, b, text, 8, 20, "BiPredicate"@, l, d1);
    let d2 = d1.push(name_tok("BiPredicate"@, l));
    reads_name(s, b, text, 20, 26, "negate"@, l, d2);
    let d3 = d2.push(name_tok("negate"@, l));
    reads_sign(s, b, text, 26, Tok::LParen, l, d3);
    let d4 = d3.push(sign_tok(Tok::LParen, l));
    reads_sign(s, b, text, 27, Tok::RParen, l, d4);
    let d5 = d4.push(sign_tok(Tok::RParen, l));
    reads_space(s, b, text, 28, l, d5);
    reads_sign(s, b, text, 29, Tok::LBrace, l, d5);
    let d6 = d5.push(sign_tok(Tok::LBrace, l));
    reads_space(s, b, text, 30, l, d6);
    reads_key_space(s, b, text, 31, 38, "return"@, Tok::Return, l, d6);
    let d7 = d6.push(sign_tok(Tok::Return, l));
    reads_sign(s, b, text, 38, Tok::LParen, l, d7);
    let d8 = d7.push(sign_tok(Tok::LParen, l));
    reads_name(s, b, text, 39, 40, "t"@, l, d8);
    let d9 = d8.push(name_tok("t"@, l));
    reads_sign(s, b, text, 40, Tok::Comma, l, d9);
    let d10 = d9.push(sign_tok(Tok::Comma, l));
    reads_space(s, b, text, 41, l, d10);
    reads_name(s, b, text, 42, 43, "u"@, l, d10);
    let d11 = d10.push(name_tok("u"@, l));
    reads_sign(s, b, text, 43, Tok::RParen, l, d11);
    let d12 = d11.push(sign_tok(Tok::RParen, l));
    reads_space(s, b, text, 44, l, d12);
    reads_operator_sign(s, b, text, 45, 47, Tok::Arrow, l, d12);
    let d13 = d12.push(sign_tok(Tok::Arrow, l));
    reads_space(s, b, text, 47, l, d13);
    reads_operator_sign(s, b, text, 48, 49, Tok::Not, l, d13);
    let d14 = d13.push(sign_tok(Tok::Not, l));
    reads_name(s, b, text, 49, 53, "this"@, l, d14);
    let d15 = d14.push(name_tok("this"@, l));
    reads_sign(s, b, text, 53, Tok::Dot, l, d15);
    let d16 = d15.push(sign_tok(Tok::Dot, l));
    reads_name(s, b, text, 54, 58, "test"@, l, d16);
    let d17 = d16.push(name_tok("test"@, l));
    reads_sign(s, b, text, 58, Tok::LParen, l, d17);
    let d18 = d17.push(sign_tok(Tok::LParen, l));
    reads_name(s, b, text, 59, 60, "t"@, l, d18);
    let d19 = d18.push(name_tok("t"@, l));
    reads_sign(s, b, text, 60, Tok::Comma, l, d19);
    let d20 = d19.push(sign_tok(Tok::Comma, l));
    reads_space(s, b, text, 61, l, d20);
    reads_name(s, b, text, 62, 63, "u"@, l, d20);
    let d21 = d20.push(name_tok("u"@, l));
    reads_sign(s, b, text, 63, Tok::RParen, l, d21);
    let d22 = d21.push(sign_tok(Tok::RParen, l));
    reads_sign(s, b, text, 64, Tok::Semi, l, d22);
    let d23 = d22.push(sign_tok(Tok::Semi, l));
    reads_space(s, b, text, 65, l, d23);
    reads_sign(s, b, text, 66, Tok::RBrace, l, d23);
    let d24 = d23.push(sign_tok(Tok::RBrace, l));
    assert(d24 =~= done + bi_predicate_negate_tokens(l));
}

/// The tokens are read as one method.
pub proof fn stands_bi_predicate_negate(t: Seq<TokenV>, name: Seq<char>, p: int, l: int)
    requires
        0 <= p,
        p + 24 < t.len(),
        t.subrange(p, p + 24) == bi_predicate_negate_tokens(l),
    ensures
        stands(t, name, p, p + 24),
{
    words_are_known();
    let u = bi_predicate_negate_tokens(l);
    assert forall|k: int| 0 <= k < 24 implies t[p + k] == #[trigger] u[k] by {
        assert(t.subrange(p, p + 24)[k] == u[k]);
    }
    assert(t[p] == u[0] && t[p + 1] == u[1] && t[p + 2] == u[2] && t[p + 3] == u[3]);
    assert(t[p + 4] == u[4] && t[p + 5] == u[5] && t[p + 6] == u[6] && t[p + 7] == u[7]);
    assert(t[p + 8] == u[8] && t[p + 9] == u[9] && t[p + 10] == u[10] && t[p + 11] == u[11]);
    assert(t[p + 12] == u[12] && t[p + 13] == u[13] && t[p + 14] == u[14] && t[p + 15] == u[15]);
    assert(t[p + 16] == u[16] && t[p + 17] == u[17] && t[p + 18] == u[18] && t[p + 19] == u[19]);
    assert(t[p + 20] == u[20] && t[p + 21] == u[21] && t[p + 22] == u[22] && t[p + 23] == u[23]);
    reads_no_parameters(t, p + 4);
    reads_chain_end(t, p + 19);
    reads_variable(t, p + 18, p + 19);
    reads_no_operator(t, 0u8, p + 19);
    reads_operation(t, 0u8, p + 18, p + 19, p + 19);
    reads_simple(t, p + 18, p + 19);
    reads_chain_end(t, p + 21);
    reads_variable(t, p + 20, p + 21);
    reads_no_operator(t, 0u8, p + 21);
    reads_operation(t, 0u8, p + 20, p + 21, p + 21);
    reads_simple(t, p + 20, p + 21);
    reads_last_argument(t, p + 20, p + 21);
    reads_next_argument(t, p + 18, p + 19, p + 22);
    reads_arguments(t, p + 17, p + 22);
    reads_chain_end(t, p + 22);
    reads_chained_call(t, p + 15, p + 22, p + 22);
    reads_this(t, p + 14, p + 22);
    reads_negation(t, p + 13, p + 22);
    reads_no_operator(t, 0u8, p + 22);
    reads_operation(t, 0u8, p + 13, p + 22, p + 22);
    reads_simple(t, p + 13, p + 22);
    reads_expression_body(t, p + 13, p + 22);
    reads_lambda_of_two(t, p + 7, p + 22);
    reads_return(t, p + 6, p + 22);
    reads_block_end(t, p + 23);
    reads_next_statement(t, p + 6, p + 23, p + 24);
    reads_block(t, p + 6, p + 24);
    reads_method(t, name, p, p + 1, p + 4, p + 24);
}

/// The tokens of `default BiPredicate or(BiPredicate other)`.
pub open spec fn bi_predicate_or_tokens(l: int) -> Seq<TokenV> {
    seq![
        sign_tok(Tok::Default, l), name_tok("BiPredicate"@, l), name_tok("or"@, l),
        sign_tok(Tok::LParen, l), name_tok("BiPredicate"@, l), name_tok("other"@, l),
        sign_tok(Tok::RParen, l), sign_tok(Tok::LBrace, l), sign_tok(Tok::Return, l),
        sign_tok(Tok::LParen, l), name_tok("t"@, l), sign_tok(Tok::Comma, l), name_tok("u"@, l),
        sign_tok(Tok::RParen, l), sign_tok(Tok::Arrow, l), name_tok("this"@, l),
        sign_tok(Tok::Dot, l), name_tok("test"@, l), sign_tok(Tok::LParen, l),
        name_tok("t"@, l), sign_tok(Tok::Comma, l), name_tok("u"@, l), sign_tok(Tok::RParen, l),
        sign_tok(Tok::OrOr, l), name_tok("other"@, l), sign_tok(Tok::Dot, l),
        name_tok("test"@, l), sign_tok(Tok::LParen, l), name_tok("t"@, l),
        sign_tok(Tok::Comma, l), name_tok("u"@, l), sign_tok(Tok::RParen, l),
        sign_tok(Tok::Semi, l), sign_tok(Tok::RBrace, l),
    ]
}

/// Its text.
pub open spec fn bi_predicate_or_text() -> Seq<char> {
    "default BiPredicate or(BiPredicate other) { return (t, u) -> this.test(t, u) || other.test(t, u); }"@
}

/// Where the words and signs of the text stand.
pub proof fn spelling_of_bi_predicate_or()
    ensures
        bi_predicate_or_text().len() == 99,
        spells(bi_predicate_or_text(), 0, "default"@),
        spells(bi_predicate_or_text(), 8, "BiPredicate"@),
        spells(bi_predicate_or_text(), 20, "or"@),
        spells(bi_predicate_or_text(), 23, "BiPredicate"@),
        spells(bi_predicate_or_text(), 35, "other"@),
        spells(bi_predicate_or_text(), 44, "return"@),
        spells(bi_predicate_or_text(), 52, "t"@) && spells(bi_predicate_or_text(), 55, "u"@),
        spells(bi_predicate_or_text(), 61, "this"@),
        spells(bi_predicate_or_text(), 66, "test"@) && spells(bi_predicate_or_text(), 71, "t"@),
        spells(bi_predicate_or_text(), 74, "u"@),
        spells(bi_predicate_or_text(), 80, "other"@),
        spells(bi_predicate_or_text(), 86, "test"@) && spells(bi_predicate_or_text(), 91, "t"@),
        spells(bi_predicate_or_text(), 94, "u"@),
        bi_predicate_or_text()[7] == ' ' && bi_predicate_or_text()[19] == ' ',
        bi_predicate_or_text()[22] == '(' && bi_predicate_or_text()[23] == 'B',
        bi_predicate_or_text()[34] == ' ' && bi_predicate_or_text()[40] == ')',
        bi_predicate_or_text()[41] == ' ' && bi_predicate_or_text()[42] == '{',
        bi_predicate_or_text()[43] == ' ' && bi_predicate_or_text()[50] == ' ',
        bi_predicate_or_text()[51] == '(' && bi_predicate_or_text()[52] == 't',
        bi_predicate_or_text()[53] == ',' && bi_predicate_or_text()[54] == ' ',
        bi_predicate_or_text()[56] == ')' && bi_predicate_or_text()[57] == ' ',
        bi_predicate_or_text()[58] == '-' && bi_predicate_or_text()[59] == '>',
        bi_predicate_or_text()[60] == ' ' && bi_predicate_or_text()[65] == '.',
        bi_predicate_or_text()[66] == 't' && bi_predicate_or_text()[70] == '(',
        bi_predicate_or_text()[71] == 't' && bi_predicate_or_text()[72] == ',',
        bi_predicate_or_text()[73] == ' ' && bi_predicate_or_text()[75] == ')',
        bi_predicate_or_text()[76] == ' ' && bi_predicate_or_text()[77] == '|',
        bi_predicate_or_text()[78] == '|' && bi_predicate_or_text()[79] == ' ',
        bi_predicate_or_text()[85] == '.' && bi_predicate_or_text()[86] == 't',
        bi_predicate_or_text()[90] == '(' && bi_predicate_or_text()[91] == 't',
        bi_predicate_or_text()[92] == ',' && bi_predicate_or_text()[93] == ' ',
        bi_predicate_or_text()[95] == ')' && bi_predicate_or_text()[96] == ';',
        bi_predicate_or_text()[97] == ' ' && bi_predicate_or_text()[98] == '}',
{
    reveal_strlit("default BiPredicate or(BiPredicate other) { return (t, u) -> this.test(t, u) || other.test(t, u); }");
    reveal_strlit("BiPredicate");
    reveal_strlit("default");
    reveal_strlit("or");
    reveal_strlit("other");
    reveal_strlit("return");
    reveal_strlit("t");
    reveal_strlit("test");
    reveal_strlit("this");
    reveal_strlit("u");
}

/// The text is lexed as these tokens.
pub proof fn lexes_bi_predicate_or(s: Seq<char>, b: int, l: int, done: Seq<TokenV>)
    requires
        spells(s, b, bi_predicate_or_text()),
    ensures
        rest(s, b, l, done) == rest(s, b + 99, l, done + bi_predicate_or_tokens(l)),
{
    words_are_known();
    spelling_of_bi_predicate_or();
    let text = bi_predicate_or_text();
    let d0 = done;
    reads_key_space(s, b, text, 0, 8, "default"@, Tok::Default, l, d0);
    let d1 = d0.push(sign_tok(Tok::Default, l));
    reads_name_space(s, b, text, 8, 20, "BiPredicate"@, l, d1);
    let d2 = d1.push(name_tok("BiPredicate"@, l));
    reads_name(s, b, text, 20, 22, "or"@, l, d2);
    let d3 = d2.push(name_tok("or"@, l));
    reads_sign(s, b, text, 22, Tok::LParen, l, d3);
    let d4 = d3.push(sign_tok(Tok::LParen, l));
    reads_name_space(s, b, text, 23, 35, "BiPredicate"@, l, d4);
    let d5 = d4.push(name_tok("BiPredicate"@, l));
    reads_name(s, b, text, 35, 40, "other"@, l, d5);
    let d6 = d5.push(name_tok("other"@, l));
    reads_sign(s, b, text, 40, Tok::RParen, l, d6);
    let d7 = d6.push(sign_tok(Tok::RParen, l));
    reads_space(s, b, text, 41, l, d7);
    reads_sign(s, b, text, 42, Tok::LBrace, l, d7);
    let d8 = d7.push(sign_tok(Tok::LBrace, l));
    reads_space(s, b, text, 43, l, d8);
    reads_key_space(s, b, text, 44, 51, "return"@, Tok::Return, l, d8);
    let d9 = d8.push(sign_tok(Tok::Return, l));
    reads_sign(s, b, text, 51, Tok::LParen, l, d9);
    let d10 = d9.push(sign_tok(Tok::LParen, l));
    reads_name(s, b, text, 52, 53, "t"@, l, d10);
    let d11 = d10.push(name_tok("t"@, l));
    reads_sign(s, b, text, 53, Tok::Comma, l, d11);
    let d12 = d11.push(sign_tok(Tok::Comma, l));
    reads_space(s, b, text, 54, l, d12);
    reads_name(s, b, text, 55, 56, "u"@, l, d12);
    let d13 = d12.push(name_tok("u"@, l));
    reads_sign(s, b, text, 56, Tok::RParen, l, d13);
    let d14 = d13.push(sign_tok(Tok::RParen, l));
    reads_space(s, b, text, 57, l, d14);
    reads_operator_sign(s, b, text, 58, 60, Tok::Arrow, l, d14);
    let d15 = d14.push(sign_tok(Tok::Arrow, l));
    reads_space(s, b, text, 60, l, d15);
    reads_name(s, b, text, 61, 65, "this"@, l, d15);
    let d16 = d15.push(name_tok("this"@, l));
    reads_sign(s, b, text, 65, Tok::Dot, l, d16);
    let d17 = d16.push(sign_tok(Tok::Dot, l));
    reads_name(s, b, text, 66, 70, "test"@, l, d17);
    let d18 = d17.push(name_tok("test"@, l));
    reads_sign(s, b, text, 70, Tok::LParen, l, d18);
    let d19 = d18.push(sign_tok(Tok::LParen, l));
    reads_name(s, b, text, 71, 72, "t"@, l, d19);
    let d20 = d19.push(name_tok("t"@, l));
    reads_sign(s, b, text, 72, Tok::Comma, l, d20);
    let d21 = d20.push(sign_tok(Tok::Comma, l));
    reads_space(s, b, text, 73, l, d21);
    reads_name(s, b, text, 74, 75, "u"@, l, d21);
    let d22 = d21.push(name_tok("u"@, l));
    reads_sign(s, b, text, 75, Tok::RParen, l, d22);
    let d23 = d22.push(sign_tok(Tok::RParen, l));
    reads_space(s, b, text, 76, l, d23);
    reads_operator_sign(s, b, text, 77, 79, Tok::OrOr, l, d23);
    let d24 = d23.push(sign_tok(Tok::OrOr, l));
    reads_space(s, b, text, 79, l, d24);
    reads_name(s, b, text, 80, 85, "other"@, l, d24);
    let d25 = d24.push(name_tok("other"@, l));
    reads_sign(s, b, text, 85, Tok::Dot, l, d25);
    let d26 = d25.push(sign_tok(Tok::Dot, l));
    reads_name(s, b, text, 86, 90, "test"@, l, d26);
    let d27 = d26.push(name_tok("test"@, l));
    reads_sign(s, b, text, 90, Tok::LParen, l, d27);
    let d28 = d27.push(sign_tok(Tok::LParen, l));
    reads_name(s, b, text, 91, 92, "t"@, l, d28);
    let d29 = d28.push(name_tok("t"@, l));
    reads_sign(s, b, text, 92, Tok::Comma, l, d29);
    let d30 = d29.push(sign_tok(Tok::Comma, l));
    reads_space(s, b, text, 93, l, d30);
    reads_name(s, b, text, 94, 95, "u"@, l, d30);
    let d31 = d30.push(name_tok("u"@, l));
    reads_sign(s, b, text, 95, Tok::RParen, l, d31);
    let d32 = d31.push(sign_tok(Tok::RParen, l));
    reads_sign(s, b, text, 96, Tok::Semi, l, d32);
    let d33 = d32.push(sign_tok(Tok::Semi, l));
    reads_space(s, b, text, 97, l, d33);
    reads_sign(s, b, text, 98, Tok::RBrace, l, d33);
    let d34 = d33.push(sign_tok(Tok::RBrace, l));
    assert(d34 =~= done + bi_predicate_or_tokens(l));
}

/// The tokens are read as one method.
pub proof fn stands_bi_predicate_or(t: Seq<TokenV>, name: Seq<char>, p: int, l: int)
    requires
        0 <= p,
        p + 34 < t.len(),
        t.subrange(p, p + 34) == bi_predicate_or_tokens(l),
    ensures
        stands(t, name, p, p + 34),
{
    words_are_known();
    let u = bi_predicate_or_tokens(l);
    assert forall|k: int| 0 <= k < 34 implies t[p + k] == #[trigger] u[k] by {
        assert(t.subrange(p, p + 34)[k] == u[k]);
    }
    assert(t[p] == u[0] && t[p + 1] == u[1] && t[p + 2] == u[2] && t[p + 3] == u[3]);
    assert(t[p + 4] == u[4] && t[p + 5] == u[5] && t[p + 6] == u[6] && t[p + 7] == u[7]);
    assert(t[p + 8] == u[8] && t[p + 9] == u[9] && t[p + 10] == u[10] && t[p + 11] == u[11]);
    assert(t[p + 12] == u[12] && t[p + 13] == u[13] && t[p + 14] == u[14] && t[p + 15] == u[15]);
    assert(t[p + 16] == u[16] && t[p + 17] == u[17] && t[p + 18] == u[18] && t[p + 19] == u[19]);
    assert(t[p + 20] == u[20] && t[p + 21] == u[21] && t[p + 22] == u[22] && t[p + 23] == u[23]);
    assert(t[p + 24] == u[24] && t[p + 25] == u[25] && t[p + 26] == u[26] && t[p + 27] == u[27]);
    assert(t[p + 28] == u[28] && t[p + 29] == u[29] && t[p + 30] == u[30] && t[p + 31] == u[31]);
    assert(t[p + 32] == u[32] && t[p + 33] == u[33]);
    reads_last_parameter(t, p + 4);
    reads_parameters(t, p + 4, p + 6);
    reads_chain_end(t, p + 20);
    reads_variable(t, p + 19, p + 20);
    reads_no_operator(t, 0u8, p + 20);
    reads_operation(t, 0u8, p + 19, p + 20, p + 20);
    reads_simple(t, p + 19, p + 20);
    reads_chain_end(t, p + 22);
    reads_variable(t, p + 21, p + 22);
    reads_no_operator(t, 0u8, p + 22);
    reads_operation(t, 0u8, p + 21, p + 22, p + 22);
    reads_simple(t, p + 21, p + 22);
    reads_last_argument(t, p + 21, p + 22);
    reads_next_argument(t, p + 19, p + 20, p + 23);
    reads_arguments(t, p + 18, p + 23);
    reads_chain_end(t, p + 23);
    reads_chained_call(t, p + 16, p + 23, p + 23);
    reads_this(t, p + 15, p + 23);
    reads_chain_end(t, p + 29);
    reads_variable(t, p + 28, p + 29);
    reads_no_operator(t, 0u8, p + 29);
    reads_operation(t, 0u8, p + 28, p + 29, p + 29);
    reads_simple(t, p + 28, p + 29);
    reads_chain_end(t, p + 31);
    reads_variable(t, p + 30, p + 31);
    reads_no_operator(t, 0u8, p + 31);
    reads_operation(t, 0u8, p + 30, p + 31, p + 31);
    reads_simple(t, p + 30, p + 31);
    reads_last_argument(t, p + 30, p + 31);
    reads_next_argument(t, p + 28, p + 29, p + 32);
    reads_arguments(t, p + 27, p + 32);
    reads_chain_end(t, p + 32);
    reads_chained_call(t, p + 25, p + 32, p + 32);
    reads_variable(t, p + 24, p + 32);
    reads_no_operator(t, 2u8, p + 32);
    reads_operation(t, 2u8, p + 24, p + 32, p + 32);
    reads_no_operator(t, 0u8, p + 32);
    reads_operator(t, 0u8, p + 23, p + 32, p + 32);
    reads_operation(t, 0u8, p + 15, p + 23, p + 32);
    reads_simple(t, p + 15, p + 32);
    reads_expression_body(t, p + 15, p + 32);
    reads_lambda_of_two(t, p + 9, p + 32);
    reads_return(t, p + 8, p + 32);
    reads_block_end(t, p + 33);
    reads_next_statement(t, p + 8, p + 33, p + 34);
    reads_block(t, p + 8, p + 34);
    reads_method(t, name, p, p + 1, p + 6, p + 34);
}

/// The tokens of `default Comparator reversed()`.
pub open spec fn comparator_reversed_tokens(l: int) -> Seq<TokenV> {
    seq![
        sign_tok(Tok::Default, l), name_tok("Comparator"@, l), name_tok("reversed"@, l),
        sign_tok(Tok::LParen, l), sign_tok(Tok::RParen, l), sign_tok(Tok::LBrace, l),
        sign_tok(Tok::Return, l), sign_tok(Tok::LParen, l), name_tok("a"@, l),
        sign_tok(Tok::Comma, l), name_tok("b"@, l), sign_tok(Tok::RParen, l),
        sign_tok(Tok::Arrow, l), name_tok("this"@, l), sign_tok(Tok::Dot, l),
        name_tok("compare"@, l), sign_tok(Tok::LParen, l), name_tok("b"@, l),
        sign_tok(Tok::Comma, l), name_tok("a"@, l), sign_tok(Tok::RParen, l),
        sign_tok(Tok::Semi, l), sign_tok(Tok::RBrace, l),
    ]
}

/// Its text.
pub open spec fn comparator_reversed_text() -> Seq<char> {
    "default Comparator reversed() { return (a, b) -> this.compare(b, a); }"@
}

/// Where the words and signs of the text stand.
pub proof fn spelling_of_comparator_reversed()
    ensures
        comparator_reversed_text().len() == 70,
        spells(comparator_reversed_text(), 0, "default"@),
        spells(comparator_reversed_text(), 8, "Comparator"@),
        spells(comparator_reversed_text(), 19, "reversed"@),
        spells(comparator_reversed_text(), 32, "return"@),
        spells(comparator_reversed_text(), 40, "a"@),
        spells(comparator_reversed_text(), 43, "b"@),
        spells(comparator_reversed_text(), 49, "this"@),
        spells(comparator_reversed_text(), 54, "compare"@),
        spells(comparator_reversed_text(), 62, "b"@),
        spells(comparator_reversed_text(), 65, "a"@),
        comparator_reversed_text()[7] == ' ' && comparator_reversed_text()[18] == ' ',
        comparator_reversed_text()[27] == '(' && comparator_reversed_text()[28] == ')',
        comparator_reversed_text()[29] == ' ' && comparator_reversed_text()[30] == '{',
        comparator_reversed_text()[31] == ' ' && comparator_reversed_text()[38] == ' ',
        comparator_reversed_text()[39] == '(' && comparator_reversed_text()[40] == 'a',
        comparator_reversed_text()[41] == ',' && comparator_reversed_text()[42] == ' ',
        comparator_reversed_text()[44] == ')' && comparator_reversed_text()[45] == ' ',
        comparator_reversed_text()[46] == '-' && comparator_reversed_text()[47] == '>',
        comparator_reversed_text()[48] == ' ' && comparator_reversed_text()[53] == '.',
        comparator_reversed_text()[54] == 'c' && comparator_reversed_text()[61] == '(',
        comparator_reversed_text()[62] == 'b' && comparator_reversed_text()[63] == ',',
        comparator_reversed_text()[64] == ' ' && comparator_reversed_text()[66] == ')',
        comparator_reversed_text()[67] == ';' && comparator_reversed_text()[68] == ' ',
        comparator_reversed_text()[69] == '}',
{
    reveal_strlit("default Comparator reversed() { return (a, b) -> this.compare(b, a); }");
    reveal_strlit("Comparator");
    reveal_strlit("a");
    reveal_strlit("b");
    reveal_strlit("compare");
    reveal_strlit("default");
    reveal_strlit("return");
    reveal_strlit("reversed");
    reveal_strlit("this");
}

/// The text is lexed as these tokens.
pub proof fn lexes_comparator_reversed(s: Seq<char>, b: int, l: int, done: Seq<TokenV>)
    requires
        spells(s, b, comparator_reversed_text()),
    ensures
        rest(s, b, l, done) == rest(s, b + 70, l, done + comparator_reversed_tokens(l)),
{
    words_are_known();
    spelling_of_comparator_reversed();
    let text = comparator_reversed_text();
    let d0 = done;
    reads_key_space(s, b, text, 0, 8, "default"@, Tok::Default, l, d0);
    let d1 = d0.push(sign_tok(Tok::Default, l));
    reads_name_space(s, b, text, 8, 19, "Comparator"@, l, d1);
    let d2 = d1.push(name_tok("Comparator"@, l));
    reads_name(s, b, text, 19, 27, "reversed"@, l, d2);
    let d3 = d2.push(name_tok("reversed"@, l));
    reads_sign(s, b, text, 27, Tok::LParen, l, d3);
    let d4 = d3.push(sign_tok(Tok::LParen, l));
    reads_sign(s, b, text, 28, Tok::RParen, l, d4);
    let d5 = d4.push(sign_tok(Tok::RParen, l));
    reads_space(s, b, text, 29, l, d5);
    reads_sign(s, b, text, 30, Tok::LBrace, l, d5);
    let d6 = d5.push(sign_tok(Tok::LBrace, l));
    reads_space(s, b, text, 31, l, d6);
    reads_key_space(s, b, text, 32, 39, "return"@, Tok::Return, l, d6);
    let d7 = d6.push(sign_tok(Tok::Return, l));
    reads_sign(s, b, text, 39, Tok::LParen, l, d7);
    let d8 = d7.push(sign_tok(Tok::LParen, l));
    reads_name(s, b, text, 40, 41, "a"@, l, d8);
    let d9 = d8.push(name_tok("a"@, l));
    reads_sign(s, b, text, 41, Tok::Comma, l, d9);
    let d10 = d9.push(sign_tok(Tok::Comma, l));
    reads_space(s, b, text, 42, l, d10);
    reads_name(s, b, text, 43, 44, "b"@, l, d10);
    let d11 = d10.push(name_tok("b"@, l));
    reads_sign(s, b, text, 44, Tok::RParen, l, d11);
    let d12 = d11.push(sign_tok(Tok::RParen, l));
    reads_space(s, b, text, 45, l, d12);
    reads_operator_sign(s, b, text, 46, 48, Tok::Arrow, l, d12);
    let d13 = d12.push(sign_tok(Tok::Arrow, l));
    reads_space(s, b, text, 48, l, d13);
    reads_name(s, b, text, 49, 53, "this"@, l, d13);
    let d14 = d13.push(name_tok("this"@, l));
    reads_sign(s, b, text, 53, Tok::Dot, l, d14);
    let d15 = d14.push(sign_tok(Tok::Dot, l));
    reads_name(s, b, text, 54, 61, "compare"@, l, d15);
    let d16 = d15.push(name_tok("compare"@, l));
    reads_sign(s, b, text, 61, Tok::LParen, l, d16);
    let d17 = d16.push(sign_tok(Tok::LParen, l));
    reads_name(s, b, text, 62, 63, "b"@, l, d17);
    let d18 = d17.push(name_tok("b"@, l));
    reads_sign(s, b, text, 63, Tok::Comma, l, d18);
    let d19 = d18.push(sign_tok(Tok::Comma, l));
    reads_space(s, b, text, 64, l, d19);
    reads_name(s, b, text, 65, 66, "a"@, l, d19);
    let d20 = d19.push(name_tok("a"@, l));
    reads_sign(s, b, text, 66, Tok::RParen, l, d20);
    let d21 = d20.push(sign_tok(Tok::RParen, l));
    reads_sign(s, b, text, 67, Tok::Semi, l, d21);
    let d22 = d21.push(sign_tok(Tok::Semi, l));
    reads_space(s, b, text, 68, l, d22);
    reads_sign(s, b, text, 69, Tok::RBrace, l, d22);
    let d23 = d22.push(sign_tok(Tok::RBrace, l));
    assert(d23 =~= done + comparator_reversed_tokens(l));
}

/// The tokens are read as one method.
pub proof fn stands_comparator_reversed(t: Seq<TokenV>, name: Seq<char>, p: int, l: int)
    requires
        0 <= p,
        p + 23 < t.len(),
        t.subrange(p, p + 23) == comparator_reversed_tokens(l),
    ensures
        stands(t, name, p, p + 23),
{
    words_are_known();
    let u = comparator_reversed_tokens(l);
    assert forall|k: int| 0 <= k < 23 implies t[p + k] == #[trigger] u[k] by {
        assert(t.subrange(p, p + 23)[k] == u[k]);
    }
    assert(t[p] == u[0] && t[p + 1] == u[1] && t[p + 2] == u[2] && t[p + 3] == u[3]);
    assert(t[p + 4] == u[4] && t[p + 5] == u[5] && t[p + 6] == u[6] && t[p + 7] == u[7]);
    assert(t[p + 8] == u[8] && t[p + 9] == u[9] && t[p + 10] == u[10] && t[p + 11] == u[11]);
    assert(t[p + 12] == u[12] && t[p + 13] == u[13] && t[p + 14] == u[14] && t[p + 15] == u[15]);
    assert(t[p + 16] == u[16] && t[p + 17] == u[17] && t[p + 18] == u[18] && t[p + 19] == u[19]);
    assert(t[p + 20] == u[20] && t[p + 21] == u[21] && t[p + 22] == u[22]);
    reads_no_parameters(t, p + 4);
    reads_chain_end(t, p + 18);
    reads_variable(t, p + 17, p + 18);
    reads_no_operator(t, 0u8, p + 18);
    reads_operation(t, 0u8, p + 17, p + 18, p + 18);
    reads_simple(t, p + 17, p + 18);
    reads_chain_end(t, p + 20);
    reads_variable(t, p + 19, p + 20);
    reads_no_operator(t, 0u8, p + 20);
    reads_operation(t, 0u8, p + 19, p + 20, p + 20);
    reads_simple(t, p + 19, p + 20);
    reads_last_argument(t, p + 19, p + 20);
    reads_next_argument(t, p + 17, p + 18, p + 21);
    reads_arguments(t, p + 16, p + 21);
    reads_chain_end(t, p + 21);
    reads_chained_call(t, p + 14, p + 21, p + 21);
    reads_this(t, p + 13, p + 21);
    reads_no_operator(t, 0u8, p + 21);
    reads_operation(t, 0u8, p + 13, p + 21, p + 21);
    reads_simple(t, p + 13, p + 21);
    reads_expression_body(t, p + 13, p + 21);
    reads_lambda_of_two(t, p + 7, p + 21);
    reads_return(t, p + 6, p + 21);
    reads_block_end(t, p + 22);
    reads_next_statement(t, p + 6, p + 22, p + 23);
    reads_block(t, p + 6, p + 23);
    reads_method(t, name, p, p + 1, p + 4, p + 23);
}

/// The tokens of `default Comparator thenComparing(Comparator other)`.
pub open spec fn comparator_then_comparing_tokens(l: int) -> Seq<TokenV> {
    seq![
        sign_tok(Tok::Default, l), name_tok("Comparator"@, l), name_tok("thenComparing"@, l),
        sign_tok(Tok::LParen, l), name_tok("Comparator"@, l), name_tok("other"@, l),
        sign_tok(Tok::RParen, l), sign_tok(Tok::LBrace, l), sign_tok(Tok::Return, l),
        sign_tok(Tok::LParen, l), name_tok("a"@, l), sign_tok(Tok::Comma, l), name_tok("b"@, l),
        sign_tok(Tok::RParen, l), sign_tok(Tok::Arrow, l), sign_tok(Tok::LBrace, l),
        name_tok("int"@, l), name_tok("r"@, l), sign_tok(Tok::Assign, l), name_tok("this"@, l),
        sign_tok(Tok::Dot, l), name_tok("compare"@, l), sign_tok(Tok::LParen, l),
        name_tok("a"@, l), sign_tok(Tok::Comma, l), name_tok("b"@, l), sign_tok(Tok::RParen, l),
        sign_tok(Tok::Semi, l), sign_tok(Tok::If, l), sign_tok(Tok::LParen, l),
        name_tok("r"@, l), sign_tok(Tok::NotEq, l), sign_tok(Tok::Int, l),
        sign_tok(Tok::RParen, l), sign_tok(Tok::LBrace, l), sign_tok(Tok::Return, l),
        name_tok("r"@, l), sign_tok(Tok::Semi, l), sign_tok(Tok::RBrace, l),
        sign_tok(Tok::Return, l), name_tok("other"@, l), sign_tok(Tok::Dot, l),
        name_tok("compare"@, l), sign_tok(Tok::LParen, l), name_tok("a"@, l),
        sign_tok(Tok::Comma, l), name_tok("b"@, l), sign_tok(Tok::RParen, l),
        sign_tok(Tok::Semi, l), sign_tok(Tok::RBrace, l), sign_tok(Tok::Semi, l),
        sign_tok(Tok::RBrace, l),
    ]
}

/// Its text.
pub open spec fn comparator_then_comparing_text() -> Seq<char> {
    "default Comparator thenComparing(Comparator other) { return (a, b) -> { int r = this.compare(a, b); if (r != 0) { return r; } return other.compare(a, b); }; }"@
}

/// Where the words and signs of the text stand.
pub proof fn spelling_of_comparator_then_comparing()
    ensures
        comparator_then_comparing_text().len() == 158,
        spells(comparator_then_comparing_text(), 0, "default"@),
        spells(comparator_then_comparing_text(), 8, "Comparator"@),
        spells(comparator_then_comparing_text(), 19, "thenComparing"@),
        spells(comparator_then_comparing_text(), 33, "Comparator"@),
        spells(comparator_then_comparing_text(), 44, "other"@),
        spells(comparator_then_comparing_text(), 53, "return"@),
        spells(comparator_then_comparing_text(), 61, "a"@),
        spells(comparator_then_comparing_text(), 64, "b"@),
        spells(comparator_then_comparing_text(), 72, "int"@),
        spells(comparator_then_comparing_text(), 76, "r"@),
        spells(comparator_then_comparing_text(), 80, "this"@),
        spells(comparator_then_comparing_text(), 85, "compare"@),
        spells(comparator_then_comparing_text(), 93, "a"@),
        spells(comparator_then_comparing_text(), 96, "b"@),
        spells(comparator_then_comparing_text(), 100, "if"@),
        spells(comparator_then_comparing_text(), 104, "r"@),
        spells(comparator_then_comparing_text(), 114, "return"@),
        spells(comparator_then_comparing_text(), 121, "r"@),
        spells(comparator_then_comparing_text(), 126, "return"@),
        spells(comparator_then_comparing_text(), 133, "other"@),
        spells(comparator_then_comparing_text(), 139, "compare"@),
        spells(comparator_then_comparing_text(), 147, "a"@),
        spells(comparator_then_comparing_text(), 150, "b"@),
        comparator_then_comparing_text()[7] == ' ',
        comparator_then_comparing_text()[18] == ' ',
        comparator_then_comparing_text()[32] == '(',
        comparator_then_comparing_text()[33] == 'C',
        comparator_then_comparing_text()[43] == ' ',
        comparator_then_comparing_text()[49] == ')',
        comparator_then_comparing_text()[50] == ' ',
        comparator_then_comparing_text()[51] == '{',
        comparator_then_comparing_text()[52] == ' ',
        comparator_then_comparing_text()[59] == ' ',
        comparator_then_comparing_text()[60] == '(',
        comparator_then_comparing_text()[61] == 'a',
        comparator_then_comparing_text()[62] == ',',
        comparator_then_comparing_text()[63] == ' ',
        comparator_then_comparing_text()[65] == ')',
        comparator_then_comparing_text()[66] == ' ',
        comparator_then_comparing_text()[67] == '-',
        comparator_then_comparing_text()[68] == '>',
        comparator_then_comparing_text()[69] == ' ',
        comparator_then_comparing_text()[70] == '{',
        comparator_then_comparing_text()[71] == ' ',
        comparator_then_comparing_text()[75] == ' ',
        comparator_then_comparing_text()[77] == ' ',
        comparator_then_comparing_text()[78] == '=',
        comparator_then_comparing_text()[79] == ' ',
        comparator_then_comparing_text()[84] == '.',
        comparator_then_comparing_text()[85] == 'c',
        comparator_then_comparing_text()[92] == '(',
        comparator_then_comparing_text()[93] == 'a',
        comparator_then_comparing_text()[94] == ',',
        comparator_then_comparing_text()[95] == ' ',
        comparator_then_comparing_text()[97] == ')',
        comparator_then_comparing_text()[98] == ';',
        comparator_then_comparing_text()[99] == ' ',
        comparator_then_comparing_text()[102] == ' ',
        comparator_then_comparing_text()[103] == '(',
        comparator_then_comparing_text()[104] == 'r',
        comparator_then_comparing_text()[105] == ' ',
        comparator_then_comparing_text()[106] == '!',
        comparator_then_comparing_text()[107] == '=',
        comparator_then_comparing_text()[108] == ' ',
        comparator_then_comparing_text()[109] == '0',
        comparator_then_comparing_text()[110] == ')',
        comparator_then_comparing_text()[111] == ' ',
        comparator_then_comparing_text()[112] == '{',
        comparator_then_comparing_text()[113] == ' ',
        comparator_then_comparing_text()[120] == ' ',
        comparator_then_comparing_text()[122] == ';',
        comparator_then_comparing_text()[123] == ' ',
        comparator_then_comparing_text()[124] == '}',
        comparator_then_comparing_text()[125] == ' ',
        comparator_then_comparing_text()[132] == ' ',
        comparator_then_comparing_text()[138] == '.',
        comparator_then_comparing_text()[139] == 'c',
        comparator_then_comparing_text()[146] == '(',
        comparator_then_comparing_text()[147] == 'a',
        comparator_then_comparing_text()[148] == ',',
        comparator_then_comparing_text()[149] == ' ',
        comparator_then_comparing_text()[151] == ')',
        comparator_then_comparing_text()[152] == ';',
        comparator_then_comparing_text()[153] == ' ',
        comparator_then_comparing_text()[154] == '}',
        comparator_then_comparing_text()[155] == ';',
        comparator_then_comparing_text()[156] == ' ',
        comparator_then_comparing_text()[157] == '}',
{
    reveal_strlit("default Comparator thenComparing(Comparator other) { return (a, b) -> { int r = this.compare(a, b); if (r != 0) { return r; } return other.compare(a, b); }; }");
    reveal_strlit("Comparator");
    reveal_strlit("a");
    reveal_strlit("b");
    reveal_strlit("compare");
    reveal_strlit("default");
    reveal_strlit("if");
    reveal_strlit("int");
    reveal_strlit("other");
    reveal_strlit("r");
    reveal_strlit("return");
    reveal_strlit("thenComparing");
    reveal_strlit("this");
}

/// The text is lexed as these tokens.
#[verifier::rlimit(60)]
pub proof fn lexes_comparator_then_comparing(s: Seq<char>, b: int, l: int, done: Seq<TokenV>)
    requires
        spells(s, b, comparator_then_comparing_text()),
    ensures
        rest(s, b, l, done) == rest(s, b + 158, l, done + comparator_then_comparing_tokens(l)),
{
    words_are_known();
    spelling_of_comparator_then_comparing();
    let text = comparator_then_comparing_text();
    let d0 = done;
    reads_key_space(s, b, text, 0, 8, "default"@, Tok::Default, l, d0);
    let d1 = d0.push(sign_tok(Tok::Default, l));
    reads_name_space(s, b, text, 8, 19, "Comparator"@, l, d1);
    let d2 = d1.push(name_tok("Comparator"@, l));
    reads_name(s, b, text, 19, 32, "thenComparing"@, l, d2);
    let d3 = d2.push(name_tok("thenComparing"@, l));
    reads_sign(s, b, text, 32, Tok::LParen, l, d3);
    let d4 = d3.push(sign_tok(Tok::LParen, l));
    reads_name_space(s, b, text, 33, 44, "Comparator"@, l, d4);
    let d5 = d4.push(name_tok("Comparator"@, l));
    reads_name(s, b, text, 44, 49, "other"@, l, d5);
    let d6 = d5.push(name_tok("other"@, l));
    reads_sign(s, b, text, 49, Tok::RParen, l, d6);
    let d7 = d6.push(sign_tok(Tok::RParen, l));
    reads_space(s, b, text, 50, l, d7);
    reads_sign(s, b, text, 51, Tok::LBrace, l, d7);
    let d8 = d7.push(sign_tok(Tok::LBrace, l));
    reads_space(s, b, text, 52, l, d8);
    reads_key_space(s, b, text, 53, 60, "return"@, Tok::Return, l, d8);
    let d9 = d8.push(sign_tok(Tok::Return, l));
    reads_sign(s, b, text, 60, Tok::LParen, l, d9);
    let d10 = d9.push(sign_tok(Tok::LParen, l));
    reads_name(s, b, text, 61, 62, "a"@, l, d10);
    let d11 = d10.push(name_tok("a"@, l));
    reads_sign(s, b, text, 62, Tok::Comma, l, d11);
    let d12 = d11.push(sign_tok(Tok::Comma, l));
    reads_space(s, b, text, 63, l, d12);
    reads_name(s, b, text, 64, 65, "b"@, l, d12);
    let d13 = d12.push(name_tok("b"@, l));
    reads_sign(s, b, text, 65, Tok::RParen, l, d13);
    let d14 = d13.push(sign_tok(Tok::RParen, l));
    reads_space(s, b, text, 66, l, d14);
    reads_operator_sign(s, b, text, 67, 69, Tok::Arrow, l, d14);
    let d15 = d14.push(sign_tok(Tok::Arrow, l));
    reads_space(s, b, text, 69, l, d15);
    reads_sign(s, b, text, 70, Tok::LBrace, l, d15);
    let d16 = d15.push(sign_tok(Tok::LBrace, l));
    reads_space(s, b, text, 71, l, d16);
    reads_name_space(s, b, text, 72, 76, "int"@, l, d16);
    let d17 = d16.push(name_tok("int"@, l));
    reads_name_space(s, b, text, 76, 78, "r"@, l, d17);
    let d18 = d17.push(name_tok("r"@, l));
    reads_operator_sign(s, b, text, 78, 79, Tok::Assign, l, d18);
    let d19 = d18.push(sign_tok(Tok::Assign, l));
    reads_space(s, b, text, 79, l, d19);
    reads_name(s, b, text, 80, 84, "this"@, l, d19);
    let d20 = d19.push(name_tok("this"@, l));
    reads_sign(s, b, text, 84, Tok::Dot, l, d20);
    let d21 = d20.push(sign_tok(Tok::Dot, l));
    reads_name(s, b, text, 85, 92, "compare"@, l, d21);
    let d22 = d21.push(name_tok("compare"@, l));
    reads_sign(s, b, text, 92, Tok::LParen, l, d22);
    let d23 = d22.push(sign_tok(Tok::LParen, l));
    reads_name(s, b, text, 93, 94, "a"@, l, d23);
    let d24 = d23.push(name_tok("a"@, l));
    reads_sign(s, b, text, 94, Tok::Comma, l, d24);
    let d25 = d24.push(sign_tok(Tok::Comma, l));
    reads_space(s, b, text, 95, l, d25);
    reads_name(s, b, text, 96, 97, "b"@, l, d25);
    let d26 = d25.push(name_tok("b"@, l));
    reads_sign(s, b, text, 97, Tok::RParen, l, d26);
    let d27 = d26.push(sign_tok(Tok::RParen, l));
    reads_sign(s, b, text, 98, Tok::Semi, l, d27);
    let d28 = d27.push(sign_tok(Tok::Semi, l));
    reads_space(s, b, text, 99, l, d28);
    reads_key_space(s, b, text, 100, 103, "if"@, Tok::If, l, d28);
    let d29 = d28.push(sign_tok(Tok::If, l));
    reads_sign(s, b, text, 103, Tok::LParen, l, d29);
    let d30 = d29.push(sign_tok(Tok::LParen, l));
    reads_name_space(s, b, text, 104, 106, "r"@, l, d30);
    let d31 = d30.push(name_tok("r"@, l));
    reads_operator_sign(s, b, text, 106, 108, Tok::NotEq, l, d31);
    let d32 = d31.push(sign_tok(Tok::NotEq, l));
    reads_space(s, b, text, 108, l, d32);
    reads_zero(s, b, text, 109, l, d32);
    let d33 = d32.push(sign_tok(Tok::Int, l));
    reads_sign(s, b, text, 110, Tok::RParen, l, d33);
    let d34 = d33.push(sign_tok(Tok::RParen, l));
    reads_space(s, b, text, 111, l, d34);
    reads_sign(s, b, text, 112, Tok::LBrace, l, d34);
    let d35 = d34.push(sign_tok(Tok::LBrace, l));
    reads_space(s, b, text, 113, l, d35);
    reads_key_space(s, b, text, 114, 121, "return"@, Tok::Return, l, d35);
    let d36 = d35.push(sign_tok(Tok::Return, l));
    reads_name(s, b, text, 121, 122, "r"@, l, d36);
    let d37 = d36.push(name_tok("r"@, l));
    reads_sign(s, b, text, 122, Tok::Semi, l, d37);
    let d38 = d37.push(sign_tok(Tok::Semi, l));
    reads_space(s, b, text, 123, l, d38);
    reads_sign(s, b, text, 124, Tok::RBrace, l, d38);
    let d39 = d38.push(sign_tok(Tok::RBrace, l));
    reads_space(s, b, text, 125, l, d39);
    reads_key_space(s, b, text, 126, 133, "return"@, Tok::Return, l, d39);
    let d40 = d39.push(sign_tok(Tok::Return, l));
    reads_name(s, b, text, 133, 138, "other"@, l, d40);
    let d41 = d40.push(name_tok("other"@, l));
    reads_sign(s, b, text, 138, Tok::Dot, l, d41);
    let d42 = d41.push(sign_tok(Tok::Dot, l));
    reads_name(s, b, text, 139, 146, "compare"@, l, d42);
    let d43 = d42.push(name_tok("compare"@, l));
    reads_sign(s, b, text, 146, Tok::LParen, l, d43);
    let d44 = d43.push(sign_tok(Tok::LParen, l));
    reads_name(s, b, text, 147, 148, "a"@, l, d44);
    let d45 = d44.push(name_tok("a"@, l));
    reads_sign(s, b, text, 148, Tok::Comma, l, d45);
    let d46 = d45.push(sign_tok(Tok::Comma, l));
    reads_space(s, b, text, 149, l, d46);
    reads_name(s, b, text, 150, 151, "b"@, l, d46);
    let d47 = d46.push(name_tok("b"@, l));
    reads_sign(s, b, text, 151, Tok::RParen, l, d47);
    let d48 = d47.push(sign_tok(Tok::RParen, l));
    reads_sign(s, b, text, 152, Tok::Semi, l, d48);
    let d49 = d48.push(sign_tok(Tok::Semi, l));
    reads_space(s, b, text, 153, l, d49);
    reads_sign(s, b, text, 154, Tok::RBrace, l, d49);
    let d50 = d49.push(sign_tok(Tok::RBrace, l));
    reads_sign(s, b, text, 155, Tok::Semi, l, d50);
    let d51 = d50.push(sign_tok(Tok::Semi, l));
    reads_space(s, b, text, 156, l, d51);
    reads_sign(s, b, text, 157, Tok::RBrace, l, d51);
    let d52 = d51.push(sign_tok(Tok::RBrace, l));
    assert(d52 =~= done + comparator_then_comparing_tokens(l));
}

/// The tokens are read as one method.
pub proof fn stands_comparator_then_comparing(t: Seq<TokenV>, name: Seq<char>, p: int, l: int)
    requires
        0 <= p,
        p + 52 < t.len(),
        t.subrange(p, p + 52) == comparator_then_comparing_tokens(l),
    ensures
        stands(t, name, p, p + 52),
{
    words_are_known();
    let u = comparator_then_comparing_tokens(l);
    assert forall|k: int| 0 <= k < 52 implies t[p + k] == #[trigger] u[k] by {
        assert(t.subrange(p, p + 52)[k] == u[k]);
    }
    assert(t[p] == u[0] && t[p + 1] == u[1] && t[p + 2] == u[2] && t[p + 3] == u[3]);
    assert(t[p + 4] == u[4] && t[p + 5] == u[5] && t[p + 6] == u[6] && t[p + 7] == u[7]);
    assert(t[p + 8] == u[8] && t[p + 9] == u[9] && t[p + 10] == u[10] && t[p + 11] == u[11]);
    assert(t[p + 12] == u[12] && t[p + 13] == u[13] && t[p + 14] == u[14] && t[p + 15] == u[15]);
    assert(t[p + 16] == u[16] && t[p + 17] == u[17] && t[p + 18] == u[18] && t[p + 19] == u[19]);
    assert(t[p + 20] == u[20] && t[p + 21] == u[21] && t[p + 22] == u[22] && t[p + 23] == u[23]);
    assert(t[p + 24] == u[24] && t[p + 25] == u[25] && t[p + 26] == u[26] && t[p + 27] == u[27]);
    assert(t[p + 28] == u[28] && t[p + 29] == u[29] && t[p + 30] == u[30] && t[p + 31] == u[31]);
    assert(t[p + 32] == u[32] && t[p + 33] == u[33] && t[p + 34] == u[34] && t[p + 35] == u[35]);
    assert(t[p + 36] == u[36] && t[p + 37] == u[37] && t[p + 38] == u[38] && t[p + 39] == u[39]);
    assert(t[p + 40] == u[40] && t[p + 41] == u[41] && t[p + 42] == u[42] && t[p + 43] == u[43]);
    assert(t[p + 44] == u[44] && t[p + 45] == u[45] && t[p + 46] == u[46] && t[p + 47] == u[47]);
    assert(t[p + 48] == u[48] && t[p + 49] == u[49] && t[p + 50] == u[50] && t[p + 51] == u[51]);
    reads_last_parameter(t, p + 4);
    reads_parameters(t, p + 4, p + 6);
    reads_chain_end(t, p + 24);
    reads_variable(t, p + 23, p + 24);
    reads_no_operator(t, 0u8, p + 24);
    reads_operation(t, 0u8, p + 23, p + 24, p + 24);
    reads_simple(t, p + 23, p + 24);
    reads_chain_end(t, p + 26);
    reads_variable(t, p + 25, p + 26);
    reads_no_operator(t, 0u8, p + 26);
    reads_operation(t, 0u8, p + 25, p + 26, p + 26);
    reads_simple(t, p + 25, p + 26);
    reads_last_argument(t, p + 25, p + 26);
    reads_next_argument(t, p + 23, p + 24, p + 27);
    reads_arguments(t, p + 22, p + 27);
    reads_chain_end(t, p + 27);
    reads_chained_call(t, p + 20, p + 27, p + 27);
    reads_this(t, p + 19, p + 27);
    reads_no_operator(t, 0u8, p + 27);
    reads_operation(t, 0u8, p + 19, p + 27, p + 27);
    reads_simple(t, p + 19, p + 27);
    reads_declaration(t, p + 16, p + 27);
    reads_chain_end(t, p + 31);
    reads_variable(t, p + 30, p + 31);
    reads_literal(t, p + 32);
    reads_no_operator(t, 7u8, p + 33);
    reads_operation(t, 7u8, p + 32, p + 33, p + 33);
    reads_no_operator(t, 0u8, p + 33);
    reads_operator(t, 0u8, p + 31, p + 33, p + 33);
    reads_operation(t, 0u8, p + 30, p + 31, p + 33);
    reads_simple(t, p + 30, p + 33);
    reads_chain_end(t, p + 37);
    reads_variable(t, p + 36, p + 37);
    reads_no_operator(t, 0u8, p + 37);
    reads_operation(t, 0u8, p + 36, p + 37, p + 37);
    reads_simple(t, p + 36, p + 37);
    reads_return(t, p + 35, p + 37);
    reads_block_end(t, p + 38);
    reads_next_statement(t, p + 35, p + 38, p + 39);
    reads_block(t, p + 35, p + 39);
    reads_if(t, p + 28, p + 33, p + 39);
    reads_chain_end(t, p + 45);
    reads_variable(t, p + 44, p + 45);
    reads_no_operator(t, 0u8, p + 45);
    reads_operation(t, 0u8, p + 44, p + 45, p + 45);
    reads_simple(t, p + 44, p + 45);
    reads_chain_end(t, p + 47);
    reads_variable(t, p + 46, p + 47);
    reads_no_operator(t, 0u8, p + 47);
    reads_operation(t, 0u8, p + 46, p + 47, p + 47);
    reads_simple(t, p + 46, p + 47);
    reads_last_argument(t, p + 46, p + 47);
    reads_next_argument(t, p + 44, p + 45, p + 48);
    reads_arguments(t, p + 43, p + 48);
    reads_chain_end(t, p + 48);
    reads_chained_call(t, p + 41, p + 48, p + 48);
    reads_variable(t, p + 40, p + 48);
    reads_no_operator(t, 0u8, p + 48);
    reads_operation(t, 0u8, p + 40, p + 48, p + 48);
    reads_simple(t, p + 40, p + 48);
    reads_return(t, p + 39, p + 48);
    reads_block_end(t, p + 49);
    reads_next_statement(t, p + 39, p + 49, p + 50);
    reads_next_statement(t, p + 28, p + 39, p + 50);
    reads_next_statement(t, p + 16, p + 28, p + 50);
    reads_block(t, p + 16, p + 50);
    reads_block_body(t, p + 15, p + 50);
    reads_lambda_of_two(t, p + 9, p + 50);
    reads_return(t, p + 8, p + 50);
    reads_block_end(t, p + 51);
    reads_next_statement(t, p + 8, p + 51, p + 52);
    reads_block(t, p + 8, p + 52);
    reads_method(t, name, p, p + 1, p + 6, p + 52);
}

/// The tokens of `static Comparator naturalOrder()`.
pub open spec fn comparator_natural_order_tokens(l: int) -> Seq<TokenV> {
    seq![
        sign_tok(Tok::Static, l), name_tok("Comparator"@, l), name_tok("naturalOrder"@, l),
        sign_tok(Tok::LParen, l), sign_tok(Tok::RParen, l), sign_tok(Tok::LBrace, l),
        sign_tok(Tok::Return, l), sign_tok(Tok::LParen, l), name_tok("a"@, l),
        sign_tok(Tok::Comma, l), name_tok("b"@, l), sign_tok(Tok::RParen, l),
        sign_tok(Tok::Arrow, l), name_tok("a"@, l), sign_tok(Tok::Dot, l),
        name_tok("compareTo"@, l), sign_tok(Tok::LParen, l), name_tok("b"@, l),
        sign_tok(Tok::RParen, l), sign_tok(Tok::Semi, l), sign_tok(Tok::RBrace, l),
    ]
}

/// Its text.
pub open spec fn comparator_natural_order_text() -> Seq<char> {
    "static Comparator naturalOrder() { return (a, b) -> a.compareTo(b); }"@
}

/// Where the words and signs of the text stand.
pub proof fn spelling_of_comparator_natural_order()
    ensures
        comparator_natural_order_text().len() == 69,
        spells(comparator_natural_order_text(), 0, "static"@),
        spells(comparator_natural_order_text(), 7, "Comparator"@),
        spells(comparator_natural_order_text(), 18, "naturalOrder"@),
        spells(comparator_natural_order_text(), 35, "return"@),
        spells(comparator_natural_order_text(), 43, "a"@),
        spells(comparator_natural_order_text(), 46, "b"@),
        spells(comparator_natural_order_text(), 52, "a"@),
        spells(comparator_natural_order_text(), 54, "compareTo"@),
        spells(comparator_natural_order_text(), 64, "b"@),
        comparator_natural_order_text()[6] == ' ' && comparator_natural_order_text()[17] == ' ',
        comparator_natural_order_text()[30] == '(',
        comparator_natural_order_text()[31] == ')',
        comparator_natural_order_text()[32] == ' ',
        comparator_natural_order_text()[33] == '{',
        comparator_natural_order_text()[34] == ' ',
        comparator_natural_order_text()[41] == ' ',
        comparator_natural_order_text()[42] == '(',
        comparator_natural_order_text()[43] == 'a',
        comparator_natural_order_text()[44] == ',',
        comparator_natural_order_text()[45] == ' ',
        comparator_natural_order_text()[47] == ')',
        comparator_natural_order_text()[48] == ' ',
        comparator_natural_order_text()[49] == '-',
        comparator_natural_order_text()[50] == '>',
        comparator_natural_order_text()[51] == ' ',
        comparator_natural_order_text()[53] == '.',
        comparator_natural_order_text()[54] == 'c',
        comparator_natural_order_text()[63] == '(',
        comparator_natural_order_text()[64] == 'b',
        comparator_natural_order_text()[65] == ')',
        comparator_natural_order_text()[66] == ';',
        comparator_natural_order_text()[67] == ' ',
        comparator_natural_order_text()[68] == '}',
{
    reveal_strlit("static Comparator naturalOrder() { return (a, b) -> a.compareTo(b); }");
    reveal_strlit("Comparator");
    reveal_strlit("a");
    reveal_strlit("b");
    reveal_strlit("compareTo");
    reveal_strlit("naturalOrder");
    reveal_strlit("return");
    reveal_strlit("static");
}

/// The text is lexed as these tokens.
pub proof fn lexes_comparator_natural_order(s: Seq<char>, b: int, l: int, done: Seq<TokenV>)
    requires
        spells(s, b, comparator_natural_order_text()),
    ensures
        rest(s, b, l, done) == rest(s, b + 69, l, done + comparator_natural_order_tokens(l)),
{
    words_are_known();
    spelling_of_comparator_natural_order();
    let text = comparator_natural_order_text();
    let d0 = done;
    reads_key_space(s, b, text, 0, 7, "static"@, Tok::Static, l, d0);
    let d1 = d0.push(sign_tok(Tok::Static, l));
    reads_name_space(s, b, text, 7, 18, "Comparator"@, l, d1);
    let d2 = d1.push(name_tok("Comparator"@, l));
    reads_name(s, b, text, 18, 30, "naturalOrder"@, l, d2);
    let d3 = d2.push(name_tok("naturalOrder"@, l));
    reads_sign(s, b, text, 30, Tok::LParen, l, d3);
    let d4 = d3.push(sign_tok(Tok::LParen, l));
    reads_sign(s, b, text, 31, Tok::RParen, l, d4);
    let d5 = d4.push(sign_tok(Tok::RParen, l));
    reads_space(s, b, text, 32, l, d5);
    reads_sign(s, b, text, 33, Tok::LBrace, l, d5);
    let d6 = d5.push(sign_tok(Tok::LBrace, l));
    reads_space(s, b, text, 34, l, d6);
    reads_key_space(s, b, text, 35, 42, "return"@, Tok::Return, l, d6);
    let d7 = d6.push(sign_tok(Tok::Return, l));
    reads_sign(s, b, text, 42, Tok::LParen, l, d7);
    let d8 = d7.push(sign_tok(Tok::LParen, l));
    reads_name(s, b, text, 43, 44, "a"@, l, d8);
    let d9 = d8.push(name_tok("a"@, l));
    reads_sign(s, b, text, 44, Tok::Comma, l, d9);
    let d10 = d9.push(sign_tok(Tok::Comma, l));
    reads_space(s, b, text, 45, l, d10);
    reads_name(s, b, text, 46, 47, "b"@, l, d10);
    let d11 = d10.push(name_tok("b"@, l));
    reads_sign(s, b, text, 47, Tok::RParen, l, d11);
    let d12 = d11.push(sign_tok(Tok::RParen, l));
    reads_space(s, b, text, 48, l, d12);
    reads_operator_sign(s, b, text, 49, 51, Tok::Arrow, l, d12);
    let d13 = d12.push(sign_tok(Tok::Arrow, l));
    reads_space(s, b, text, 51, l, d13);
    reads_name(s, b, text, 52, 53, "a"@, l, d13);
    let d14 = d13.push(name_tok("a"@, l));
    reads_sign(s, b, text, 53, Tok::Dot, l, d14);
    let d15 = d14.push(sign_tok(Tok::Dot, l));
    reads_name(s, b, text, 54, 63, "compareTo"@, l, d15);
    let d16 = d15.push(name_tok("compareTo"@, l));
    reads_sign(s, b, text, 63, Tok::LParen, l, d16);
    let d17 = d16.push(sign_tok(Tok::LParen, l));
    reads_name(s, b, text, 64, 65, "b"@, l, d17);
    let d18 = d17.push(name_tok("b"@, l));
    reads_sign(s, b, text, 65, Tok::RParen, l, d18);
    let d19 = d18.push(sign_tok(Tok::RParen, l));
    reads_sign(s, b, text, 66, Tok::Semi, l, d19);
    let d20 = d19.push(sign_tok(Tok::Semi, l));
    reads_space(s, b, text, 67, l, d20);
    reads_sign(s, b, text, 68, Tok::RBrace, l, d20);
    let d21 = d20.push(sign_tok(Tok::RBrace, l));
    assert(d21 =~= done + comparator_natural_order_tokens(l));
}

/// The tokens are read as one method.
pub proof fn stands_comparator_natural_order(t: Seq<TokenV>, name: Seq<char>, p: int, l: int)
    requires
        0 <= p,
        p + 21 < t.len(),
        t.subrange(p, p + 21) == comparator_natural_order_tokens(l),
    ensures
        stands(t, name, p, p + 21),
{
    words_are_known();
    let u = comparator_natural_order_tokens(l);
    assert forall|k: int| 0 <= k < 21 implies t[p + k] == #[trigger] u[k] by {
        assert(t.subrange(p, p + 21)[k] == u[k]);
    }
    assert(t[p] == u[0] && t[p + 1] == u[1] && t[p + 2] == u[2] && t[p + 3] == u[3]);
    assert(t[p + 4] == u[4] && t[p + 5] == u[5] && t[p + 6] == u[6] && t[p + 7] == u[7]);
    assert(t[p + 8] == u[8] && t[p + 9] == u[9] && t[p + 10] == u[10] && t[p + 11] == u[11]);
    assert(t[p + 12] == u[12] && t[p + 13] == u[13] && t[p + 14] == u[14] && t[p + 15] == u[15]);
    assert(t[p + 16] == u[16] && t[p + 17] == u[17] && t[p + 18] == u[18] && t[p + 19] == u[19]);
    assert(t[p + 20] == u[20]);
    reads_no_parameters(t, p + 4);
    reads_chain_end(t, p + 18);
    reads_variable(t, p + 17, p + 18);
    reads_no_operator(t, 0u8, p + 18);
    reads_operation(t, 0u8, p + 17, p + 18, p + 18);
    reads_simple(t, p + 17, p + 18);
    reads_last_argument(t, p + 17, p + 18);
    reads_arguments(t, p + 16, p + 19);
    reads_chain_end(t, p + 19);
    reads_chained_call(t, p + 14, p + 19, p + 19);
    reads_variable(t, p + 13, p + 19);
    reads_no_operator(t, 0u8, p + 19);
    reads_operation(t, 0u8, p + 13, p + 19, p + 19);
    reads_simple(t, p + 13, p + 19);
    reads_expression_body(t, p + 13, p + 19);
    reads_lambda_of_two(t, p + 7, p + 19);
    reads_return(t, p + 6, p + 19);
    reads_block_end(t, p + 20);
    reads_next_statement(t, p + 6, p + 20, p + 21);
    reads_block(t, p + 6, p + 21);
    reads_method(t, name, p, p + 1, p + 4, p + 21);
}

/// The tokens of `static Comparator reverseOrder()`.
pub open spec fn comparator_reverse_order_tokens(l: int) -> Seq<TokenV> {
    seq![
        sign_tok(Tok::Static, l), name_tok("Comparator"@, l), name_tok("reverseOrder"@, l),
        sign_tok(Tok::LParen, l), sign_tok(Tok::RParen, l), sign_tok(Tok::LBrace, l),
        sign_tok(Tok::Return, l), sign_tok(Tok::LParen, l), name_tok("a"@, l),
        sign_tok(Tok::Comma, l), name_tok("b"@, l), sign_tok(Tok::RParen, l),
        sign_tok(Tok::Arrow, l), name_tok("b"@, l), sign_tok(Tok::Dot, l),
        name_tok("compareTo"@, l), sign_tok(Tok::LParen, l), name_tok("a"@, l),
        sign_tok(Tok::RParen, l), sign_tok(Tok::Semi, l), sign_tok(Tok::RBrace, l),
    ]
}

/// Its text.
pub open spec fn comparator_reverse_order_text() -> Seq<char> {
    "static Comparator reverseOrder() { return (a, b) -> b.compareTo(a); }"@
}

/// Where the words and signs of the text stand.
pub proof fn spelling_of_comparator_reverse_order()
    ensures
        comparator_reverse_order_text().len() == 69,
        spells(comparator_reverse_order_text(), 0, "static"@),
        spells(comparator_reverse_order_text(), 7, "Comparator"@),
        spells(comparator_reverse_order_text(), 18, "reverseOrder"@),
        spells(comparator_reverse_order_text(), 35, "return"@),
        spells(comparator_reverse_order_text(), 43, "a"@),
        spells(comparator_reverse_order_text(), 46, "b"@),
        spells(comparator_reverse_order_text(), 52, "b"@),
        spells(comparator_reverse_order_text(), 54, "compareTo"@),
        spells(comparator_reverse_order_text(), 64, "a"@),
        comparator_reverse_order_text()[6] == ' ' && comparator_reverse_order_text()[17] == ' ',
        comparator_reverse_order_text()[30] == '(',
        comparator_reverse_order_text()[31] == ')',
        comparator_reverse_order_text()[32] == ' ',
        comparator_reverse_order_text()[33] == '{',
        comparator_reverse_order_text()[34] == ' ',
        comparator_reverse_order_text()[41] == ' ',
        comparator_reverse_order_text()[42] == '(',
        comparator_reverse_order_text()[43] == 'a',
        comparator_reverse_order_text()[44] == ',',
        comparator_reverse_order_text()[45] == ' ',
        comparator_reverse_order_text()[47] == ')',
        comparator_reverse_order_text()[48] == ' ',
        comparator_reverse_order_text()[49] == '-',
        comparator_reverse_order_text()[50] == '>',
        comparator_reverse_order_text()[51] == ' ',
        comparator_reverse_order_text()[53] == '.',
        comparator_reverse_order_text()[54] == 'c',
        comparator_reverse_order_text()[63] == '(',
        comparator_reverse_order_text()[64] == 'a',
        comparator_reverse_order_text()[65] == ')',
        comparator_reverse_order_text()[66] == ';',
        comparator_reverse_order_text()[67] == ' ',
        comparator_reverse_order_text()[68] == '}',
{
    reveal_strlit("static Comparator reverseOrder() { return (a, b) -> b.compareTo(a); }");
    reveal_strlit("Comparator");
    reveal_strlit("a");
    reveal_strlit("b");
    reveal_strlit("compareTo");
    reveal_strlit("return");
    reveal_strlit("reverseOrder");
    reveal_strlit("static");
}

/// The text is lexed as these tokens.
pub proof fn lexes_comparator_reverse_order(s: Seq<char>, b: int, l: int, done: Seq<TokenV>)
    requires
        spells(s, b, comparator_reverse_order_text()),
    ensures
        rest(s, b, l, done) == rest(s, b + 69, l, done + comparator_reverse_order_tokens(l)),
{
    words_are_known();
    spelling_of_comparator_reverse_order();
    let text = comparator_reverse_order_text();
    let d0 = done;
    reads_key_space(s, b, text, 0, 7, "static"@, Tok::Static, l, d0);
    let d1 = d0.push(sign_tok(Tok::Static, l));
    reads_name_space(s, b, text, 7, 18, "Comparator"@, l, d1);
    let d2 = d1.push(name_tok("Comparator"@, l));
    reads_name(s, b, text, 18, 30, "reverseOrder"@, l, d2);
    let d3 = d2.push(name_tok("reverseOrder"@, l));
    reads_sign(s, b, text, 30, Tok::LParen, l, d3);
    let d4 = d3.push(sign_tok(Tok::LParen, l));
    reads_sign(s, b, text, 31, Tok::RParen, l, d4);
    let d5 = d4.push(sign_tok(Tok::RParen, l));
    reads_space(s, b, text, 32, l, d5);
    reads_sign(s, b, text, 33, Tok::LBrace, l, d5);
    let d6 = d5.push(sign_tok(Tok::LBrace, l));
    reads_space(s, b, text, 34, l, d6);
    reads_key_space(s, b, text, 35, 42, "return"@, Tok::Return, l, d6);
    let d7 = d6.push(sign_tok(Tok::Return, l));
    reads_sign(s, b, text, 42, Tok::LParen, l, d7);
    let d8 = d7.push(sign_tok(Tok::LParen, l));
    reads_name(s, b, text, 43, 44, "a"@, l, d8);
    let d9 = d8.push(name_tok("a"@, l));
    reads_sign(s, b, text, 44, Tok::Comma, l, d9);
    let d10 = d9.push(sign_tok(Tok::Comma, l));
    reads_space(s, b, text, 45, l, d10);
    reads_name(s, b, text, 46, 47, "b"@, l, d10);
    let d11 = d10.push(name_tok("b"@, l));
    reads_sign(s, b, text, 47, Tok::RParen, l, d11);
    let d12 = d11.push(sign_tok(Tok::RParen, l));
    reads_space(s, b, text, 48, l, d12);
    reads_operator_sign(s, b, text, 49, 51, Tok::Arrow, l, d12);
    let d13 = d12.push(sign_tok(Tok::Arrow, l));
    reads_space(s, b, text, 51, l, d13);
    reads_name(s, b, text, 52, 53, "b"@, l, d13);
    let d14 = d13.push(name_tok("b"@, l));
    reads_sign(s, b, text, 53, Tok::Dot, l, d14);
    let d15 = d14.push(sign_tok(Tok::Dot, l));
    reads_name(s, b, text, 54, 63, "compareTo"@, l, d15);
    let d16 = d15.push(name_tok("compareTo"@, l));
    reads_sign(s, b, text, 63, Tok::LParen, l, d16);
    let d17 = d16.push(sign_tok(Tok::LParen, l));
    reads_name(s, b, text, 64, 65, "a"@, l, d17);
    let d18 = d17.push(name_tok("a"@, l));
    reads_sign(s, b, text, 65, Tok::RParen, l, d18);
    let d19 = d18.push(sign_tok(Tok::RParen, l));
    reads_sign(s, b, text, 66, Tok::Semi, l, d19);
    let d20 = d19.push(sign_tok(Tok::Semi, l));
    reads_space(s, b, text, 67, l, d20);
    reads_sign(s, b, text, 68, Tok::RBrace, l, d20);
    let d21 = d20.push(sign_tok(Tok::RBrace, l));
    assert(d21 =~= done + comparator_reverse_order_tokens(l));
}

/// The tokens are read as one method.
pub proof fn stands_comparator_reverse_order(t: Seq<TokenV>, name: Seq<char>, p: int, l: int)
    requires
        0 <= p,
        p + 21 < t.len(),
        t.subrange(p, p + 21) == comparator_reverse_order_tokens(l),
    ensures
        stands(t, name, p, p + 21),
{
    words_are_known();
    let u = comparator_reverse_order_tokens(l);
    assert forall|k: int| 0 <= k < 21 implies t[p + k] == #[trigger] u[k] by {
        assert(t.subrange(p, p + 21)[k] == u[k]);
    }
    assert(t[p] == u[0] && t[p + 1] == u[1] && t[p + 2] == u[2] && t[p + 3] == u[3]);
    assert(t[p + 4] == u[4] && t[p + 5] == u[5] && t[p + 6] == u[6] && t[p + 7] == u[7]);
    assert(t[p + 8] == u[8] && t[p + 9] == u[9] && t[p + 10] == u[10] && t[p + 11] == u[11]);
    assert(t[p + 12] == u[12] && t[p + 13] == u[13] && t[p + 14] == u[14] && t[p + 15] == u[15]);
    assert(t[p + 16] == u[16] && t[p + 17] == u[17] && t[p + 18] == u[18] && t[p + 19] == u[19]);
    assert(t[p + 20] == u[20]);
    reads_no_parameters(t, p + 4);
    reads_chain_end(t, p + 18);
    reads_variable(t, p + 17, p + 18);
    reads_no_operator(t, 0u8, p + 18);
    reads_operation(t, 0u8, p + 17, p + 18, p + 18);
    reads_simple(t, p + 17, p + 18);
    reads_last_argument(t, p + 17, p + 18);
    reads_arguments(t, p + 16, p + 19);
    reads_chain_end(t, p + 19);
    reads_chained_call(t, p + 14, p + 19, p + 19);
    reads_variable(t, p + 13, p + 19);
    reads_no_operator(t, 0u8, p + 19);
    reads_operation(t, 0u8, p + 13, p + 19, p + 19);
    reads_simple(t, p + 13, p + 19);
    reads_expression_body(t, p + 13, p + 19);
    reads_lambda_of_two(t, p + 7, p + 19);
    reads_return(t, p + 6, p + 19);
    reads_block_end(t, p + 20);
    reads_next_statement(t, p + 6, p + 20, p + 21);
    reads_block(t, p + 6, p + 21);
    reads_method(t, name, p, p + 1, p + 4, p + 21);
}

/// The tokens of `static Comparator comparing(Function key)`.
pub open spec fn comparator_comparing_tokens(l: int) -> Seq<TokenV> {
    seq![
        sign_tok(Tok::Static, l), name_tok("Comparator"@, l), name_tok("comparing"@, l),
        sign_tok(Tok::LParen, l), name_tok("Function"@, l), name_tok("key"@, l),
        sign_tok(Tok::RParen, l), sign_tok(Tok::LBrace, l), sign_tok(Tok::Return, l),
        sign_tok(Tok::LParen, l), name_tok("a"@, l), sign_tok(Tok::Comma, l), name_tok("b"@, l),
        sign_tok(Tok::RParen, l), sign_tok(Tok::Arrow, l), name_tok("key"@, l),
        sign_tok(Tok::Dot, l), name_tok("apply"@, l), sign_tok(Tok::LParen, l),
        name_tok("a"@, l), sign_tok(Tok::RParen, l), sign_tok(Tok::Dot, l),
        name_tok("compareTo"@, l), sign_tok(Tok::LParen, l), name_tok("key"@, l),
        sign_tok(Tok::Dot, l), name_tok("apply"@, l), sign_tok(Tok::LParen, l),
        name_tok("b"@, l), sign_tok(Tok::RParen, l), sign_tok(Tok::RParen, l),
        sign_tok(Tok::Semi, l), sign_tok(Tok::RBrace, l),
    ]
}

/// Its text.
pub open spec fn comparator_comparing_text() -> Seq<char> {
    "static Comparator comparing(Function key) { return (a, b) -> key.apply(a).compareTo(key.apply(b)); }"@
}

/// Where the words and signs of the text stand.
pub proof fn spelling_of_comparator_comparing()
    ensures
        comparator_comparing_text().len() == 100,
        spells(comparator_comparing_text(), 0, "static"@),
        spells(comparator_comparing_text(), 7, "Comparator"@),
        spells(comparator_comparing_text(), 18, "comparing"@),
        spells(comparator_comparing_text(), 28, "Function"@),
        spells(comparator_comparing_text(), 37, "key"@),
        spells(comparator_comparing_text(), 44, "return"@),
        spells(comparator_comparing_text(), 52, "a"@),
        spells(comparator_comparing_text(), 55, "b"@),
        spells(comparator_comparing_text(), 61, "key"@),
        spells(comparator_comparing_text(), 65, "apply"@),
        spells(comparator_comparing_text(), 71, "a"@),
        spells(comparator_comparing_text(), 74, "compareTo"@),
        spells(comparator_comparing_text(), 84, "key"@),
        spells(comparator_comparing_text(), 88, "apply"@),
        spells(comparator_comparing_text(), 94, "b"@),
        comparator_comparing_text()[6] == ' ' && comparator_comparing_text()[17] == ' ',
        comparator_comparing_text()[27] == '(' && comparator_comparing_text()[28] == 'F',
        comparator_comparing_text()[36] == ' ' && comparator_comparing_text()[40] == ')',
        comparator_comparing_text()[41] == ' ' && comparator_comparing_text()[42] == '{',
        comparator_comparing_text()[43] == ' ' && comparator_comparing_text()[50] == ' ',
        comparator_comparing_text()[51] == '(' && comparator_comparing_text()[52] == 'a',
        comparator_comparing_text()[53] == ',' && comparator_comparing_text()[54] == ' ',
        comparator_comparing_text()[56] == ')' && comparator_comparing_text()[57] == ' ',
        comparator_comparing_text()[58] == '-' && comparator_comparing_text()[59] == '>',
        comparator_comparing_text()[60] == ' ' && comparator_comparing_text()[64] == '.',
        comparator_comparing_text()[65] == 'a' && comparator_comparing_text()[70] == '(',
        comparator_comparing_text()[71] == 'a' && comparator_comparing_text()[72] == ')',
        comparator_comparing_text()[73] == '.' && comparator_comparing_text()[74] == 'c',
        comparator_comparing_text()[83] == '(' && comparator_comparing_text()[84] == 'k',
        comparator_comparing_text()[87] == '.' && comparator_comparing_text()[88] == 'a',
        comparator_comparing_text()[93] == '(' && comparator_comparing_text()[94] == 'b',
        comparator_comparing_text()[95] == ')' && comparator_comparing_text()[96] == ')',
        comparator_comparing_text()[97] == ';' && comparator_comparing_text()[98] == ' ',
        comparator_comparing_text()[99] == '}',
{
    reveal_strlit("static Comparator comparing(Function key) { return (a, b) -> key.apply(a).compareTo(key.apply(b)); }");
    reveal_strlit("Comparator");
    reveal_strlit("Function");
    reveal_strlit("a");
    reveal_strlit("apply");
    reveal_strlit("b");
    reveal_strlit("compareTo");
    reveal_strlit("comparing");
    reveal_strlit("key");
    reveal_strlit("return");
    reveal_strlit("static");
}

/// The text is lexed as these tokens.
pub proof fn lexes_comparator_comparing(s: Seq<char>, b: int, l: int, done: Seq<TokenV>)
    requires
        spells(s, b, comparator_comparing_text()),
    ensures
        rest(s, b, l, done) == rest(s, b + 100, l, done + comparator_comparing_tokens(l)),
{
    words_are_known();
    spelling_of_comparator_comparing();
    let text = comparator_comparing_text();
    let d0 = done;
    reads_key_space(s, b, text, 0, 7, "static"@, Tok::Static, l, d0);
    let d1 = d0.push(sign_tok(Tok::Static, l));
    reads_name_space(s, b, text, 7, 18, "Comparator"@, l, d1);
    let d2 = d1.push(name_tok("Comparator"@, l));
    reads_name(s, b, text, 18, 27, "comparing"@, l, d2);
    let d3 = d2.push(name_tok("comparing"@, l));
    reads_sign(s, b, text, 27, Tok::LParen, l, d3);
    let d4 = d3.push(sign_tok(Tok::LParen, l));
    reads_name_space(s, b, text, 28, 37, "Function"@, l, d4);
    let d5 = d4.push(name_tok("Function"@, l));
    reads_name(s, b, text, 37, 40, "key"@, l, d5);
    let d6 = d5.push(name_tok("key"@, l));
    reads_sign(s, b, text, 40, Tok::RParen, l, d6);
    let d7 = d6.push(sign_tok(Tok::RParen, l));
    reads_space(s, b, text, 41, l, d7);
    reads_sign(s, b, text, 42, Tok::LBrace, l, d7);
    let d8 = d7.push(sign_tok(Tok::LBrace, l));
    reads_space(s, b, text, 43, l, d8);
    reads_key_space(s, b, text, 44, 51, "return"@, Tok::Return, l, d8);
    let d9 = d8.push(sign_tok(Tok::Return, l));
    reads_sign(s, b, text, 51, Tok::LParen, l, d9);
    let d10 = d9.push(sign_tok(Tok::LParen, l));
    reads_name(s, b, text, 52, 53, "a"@, l, d10);
    let d11 = d10.push(name_tok("a"@, l));
    reads_sign(s, b, text, 53, Tok::Comma, l, d11);
    let d12 = d11.push(sign_tok(Tok::Comma, l));
    reads_space(s, b, text, 54, l, d12);
    reads_name(s, b, text, 55, 56, "b"@, l, d12);
    let d13 = d12.push(name_tok("b"@, l));
    reads_sign(s, b, text, 56, Tok::RParen, l, d13);
    let d14 = d13.push(sign_tok(Tok::RParen, l));
    reads_space(s, b, text, 57, l, d14);
    reads_operator_sign(s, b, text, 58, 60, Tok::Arrow, l, d14);
    let d15 = d14.push(sign_tok(Tok::Arrow, l));
    reads_space(s, b, text, 60, l, d15);
    reads_name(s, b, text, 61, 64, "key"@, l, d15);
    let d16 = d15.push(name_tok("key"@, l));
    reads_sign(s, b, text, 64, Tok::Dot, l, d16);
    let d17 = d16.push(sign_tok(Tok::Dot, l));
    reads_name(s, b, text, 65, 70, "apply"@, l, d17);
    let d18 = d17.push(name_tok("apply"@, l));
    reads_sign(s, b, text, 70, Tok::LParen, l, d18);
    let d19 = d18.push(sign_tok(Tok::LParen, l));
    reads_name(s, b, text, 71, 72, "a"@, l, d19);
    let d20 = d19.push(name_tok("a"@, l));
    reads_sign(s, b, text, 72, Tok::RParen, l, d20);
    let d21 = d20.push(sign_tok(Tok::RParen, l));
    reads_sign(s, b, text, 73, Tok::Dot, l, d21);
    let d22 = d21.push(sign_tok(Tok::Dot, l));
    reads_name(s, b, text, 74, 83, "compareTo"@, l, d22);
    let d23 = d22.push(name_tok("compareTo"@, l));
    reads_sign(s, b, text, 83, Tok::LParen, l, d23);
    let d24 = d23.push(sign_tok(Tok::LParen, l));
    reads_name(s, b, text, 84, 87, "key"@, l, d24);
    let d25 = d24.push(name_tok("key"@, l));
    reads_sign(s, b, text, 87, Tok::Dot, l, d25);
    let d26 = d25.push(sign_tok(Tok::Dot, l));
    reads_name(s, b, text, 88, 93, "apply"@, l, d26);
    let d27 = d26.push(name_tok("apply"@, l));
    reads_sign(s, b, text, 93, Tok::LParen, l, d27);
    let d28 = d27.push(sign_tok(Tok::LParen, l));
    reads_name(s, b, text, 94, 95, "b"@, l, d28);
    let d29 = d28.push(name_tok("b"@, l));
    reads_sign(s, b, text, 95, Tok::RParen, l, d29);
    let d30 = d29.push(sign_tok(Tok::RParen, l));
    reads_sign(s, b, text, 96, Tok::RParen, l, d30);
    let d31 = d30.push(sign_tok(Tok::RParen, l));
    reads_sign(s, b, text, 97, Tok::Semi, l, d31);
    let d32 = d31.push(sign_tok(Tok::Semi, l));
    reads_space(s, b, text, 98, l, d32);
    reads_sign(s, b, text, 99, Tok::RBrace, l, d32);
    let d33 = d32.push(sign_tok(Tok::RBrace, l));
    assert(d33 =~= done + comparator_comparing_tokens(l));
}

/// The tokens are read as one method.
pub proof fn stands_comparator_comparing(t: Seq<TokenV>, name: Seq<char>, p: int, l: int)
    requires
        0 <= p,
        p + 33 < t.len(),
        t.subrange(p, p + 33) == comparator_comparing_tokens(l),
    ensures
        stands(t, name, p, p + 33),
{
    words_are_known();
    let u = comparator_comparing_tokens(l);
    assert forall|k: int| 0 <= k < 33 implies t[p + k] == #[trigger] u[k] by {
        assert(t.subrange(p, p + 33)[k] == u[k]);
    }
    assert(t[p] == u[0] && t[p + 1] == u[1] && t[p + 2] == u[2] && t[p + 3] == u[3]);
    assert(t[p + 4] == u[4] && t[p + 5] == u[5] && t[p + 6] == u[6] && t[p + 7] == u[7]);
    assert(t[p + 8] == u[8] && t[p + 9] == u[9] && t[p + 10] == u[10] && t[p + 11] == u[11]);
    assert(t[p + 12] == u[12] && t[p + 13] == u[13] && t[p + 14] == u[14] && t[p + 15] == u[15]);
    assert(t[p + 16] == u[16] && t[p + 17] == u[17] && t[p + 18] == u[18] && t[p + 19] == u[19]);
    assert(t[p + 20] == u[20] && t[p + 21] == u[21] && t[p + 22] == u[22] && t[p + 23] == u[23]);
    assert(t[p + 24] == u[24] && t[p + 25] == u[25] && t[p + 26] == u[26] && t[p + 27] == u[27]);
    assert(t[p + 28] == u[28] && t[p + 29] == u[29] && t[p + 30] == u[30] && t[p + 31] == u[31]);
    assert(t[p + 32] == u[32]);
    reads_last_parameter(t, p + 4);
    reads_parameters(t, p + 4, p + 6);
    reads_chain_end(t, p + 20);
    reads_variable(t, p + 19, p + 20);
    reads_no_operator(t, 0u8, p + 20);
    reads_operation(t, 0u8, p + 19, p + 20, p + 20);
    reads_simple(t, p + 19, p + 20);
    reads_last_argument(t, p + 19, p + 20);
    reads_arguments(t, p + 18, p + 21);
    reads_chain_end(t, p + 29);
    reads_variable(t, p + 28, p + 29);
    reads_no_operator(t, 0u8, p + 29);
    reads_operation(t, 0u8, p + 28, p + 29, p + 29);
    reads_simple(t, p + 28, p + 29);
    reads_last_argument(t, p + 28, p + 29);
    reads_arguments(t, p + 27, p + 30);
    reads_chain_end(t, p + 30);
    reads_chained_call(t, p + 25, p + 30, p + 30);
    reads_variable(t, p + 24, p + 30);
    reads_no_operator(t, 0u8, p + 30);
    reads_operation(t, 0u8, p + 24, p + 30, p + 30);
    reads_simple(t, p + 24, p + 30);
    reads_last_argument(t, p + 24, p + 30);
    reads_arguments(t, p + 23, p + 31);
    reads_chain_end(t, p + 31);
    reads_chained_call(t, p + 21, p + 31, p + 31);
    reads_chained_call(t, p + 16, p + 21, p + 31);
    reads_variable(t, p + 15, p + 31);
    reads_no_operator(t, 0u8, p + 31);
    reads_operation(t, 0u8, p + 15, p + 31, p + 31);
    reads_simple(t, p + 15, p + 31);
    reads_expression_body(t, p + 15, p + 31);
    reads_lambda_of_two(t, p + 9, p + 31);
    reads_return(t, p + 8, p + 31);
    reads_block_end(t, p + 32);
    reads_next_statement(t, p + 8, p + 32, p + 33);
    reads_block(t, p + 8, p + 33);
    reads_method(t, name, p, p + 1, p + 6, p + 33);
}

/// The tokens of `default IntPredicate and(IntPredicate other)`.
pub open spec fn int_predicate_and_tokens(l: int) -> Seq<TokenV> {
    seq![
        sign_tok(Tok::Default, l), name_tok("IntPredicate"@, l), name_tok("and"@, l),
        sign_tok(Tok::LParen, l), name_tok("IntPredicate"@, l), name_tok("other"@, l),
        sign_tok(Tok::RParen, l), sign_tok(Tok::LBrace, l), sign_tok(Tok::Return, l),
        name_tok("value"@, l), sign_tok(Tok::Arrow, l), name_tok("this"@, l),
        sign_tok(Tok::Dot, l), name_tok("test"@, l), sign_tok(Tok::LParen, l),
        name_tok("value"@, l), sign_tok(Tok::RParen, l), sign_tok(Tok::AndAnd, l),
        name_tok("other"@, l), sign_tok(Tok::Dot, l), name_tok("test"@, l),
        sign_tok(Tok::LParen, l), name_tok("value"@, l), sign_tok(Tok::RParen, l),
        sign_tok(Tok::Semi, l), sign_tok(Tok::RBrace, l),
    ]
}

/// Its text.
pub open spec fn int_predicate_and_text() -> Seq<char> {
    "default IntPredicate and(IntPredicate other) { return value -> this.test(value) && other.test(value); }"@
}

/// Where the words and signs of the text stand.
pub proof fn spelling_of_int_predicate_and()
    ensures
        int_predicate_and_text().len() == 103,
        spells(int_predicate_and_text(), 0, "default"@),
        spells(int_predicate_and_text(), 8, "IntPredicate"@),
        spells(int_predicate_and_text(), 21, "and"@),
        spells(int_predicate_and_text(), 25, "IntPredicate"@),
        spells(int_predicate_and_text(), 38, "other"@),
        spells(int_predicate_and_text(), 47, "return"@),
        spells(int_predicate_and_text(), 54, "value"@),
        spells(int_predicate_and_text(), 63, "this"@),
        spells(int_predicate_and_text(), 68, "test"@),
        spells(int_predicate_and_text(), 73, "value"@),
        spells(int_predicate_and_text(), 83, "other"@),
        spells(int_predicate_and_text(), 89, "test"@),
        spells(int_predicate_and_text(), 94, "value"@),
        int_predicate_and_text()[7] == ' ' && int_predicate_and_text()[20] == ' ',
        int_predicate_and_text()[24] == '(' && int_predicate_and_text()[25] == 'I',
        int_predicate_and_text()[37] == ' ' && int_predicate_and_text()[43] == ')',
        int_predicate_and_text()[44] == ' ' && int_predicate_and_text()[45] == '{',
        int_predicate_and_text()[46] == ' ' && int_predicate_and_text()[53] == ' ',
        int_predicate_and_text()[59] == ' ' && int_predicate_and_text()[60] == '-',
        int_predicate_and_text()[61] == '>' && int_predicate_and_text()[62] == ' ',
        int_predicate_and_text()[67] == '.' && int_predicate_and_text()[68] == 't',
        int_predicate_and_text()[72] == '(' && int_predicate_and_text()[73] == 'v',
        int_predicate_and_text()[78] == ')' && int_predicate_and_text()[79] == ' ',
        int_predicate_and_text()[80] == '&' && int_predicate_and_text()[81] == '&',
        int_predicate_and_text()[82] == ' ' && int_predicate_and_text()[88] == '.',
        int_predicate_and_text()[89] == 't' && int_predicate_and_text()[93] == '(',
        int_predicate_and_text()[94] == 'v' && int_predicate_and_text()[99] == ')',
        int_predicate_and_text()[100] == ';' && int_predicate_and_text()[101] == ' ',
        int_predicate_and_text()[102] == '}',
{
    reveal_strlit("default IntPredicate and(IntPredicate other) { return value -> this.test(value) && other.test(value); }");
    reveal_strlit("IntPredicate");
    reveal_strlit("and");
    reveal_strlit("default");
    reveal_strlit("other");
    reveal_strlit("return");
    reveal_strlit("test");
    reveal_strlit("this");
    reveal_strlit("value");
}

/// The text is lexed as these tokens.
pub proof fn lexes_int_predicate_and(s: Seq<char>, b: int, l: int, done: Seq<TokenV>)
    requires
        spells(s, b, int_predicate_and_text()),
    ensures
        rest(s, b, l, done) == rest(s, b + 103, l, done + int_predicate_and_tokens(l)),
{
    words_are_known();
    spelling_of_int_predicate_and();
    let text = int_predicate_and_text();
    let d0 = done;
    reads_key_space(s, b, text, 0, 8, "default"@, Tok::Default, l, d0);
    let d1 = d0.push(sign_tok(Tok::Default, l));
    reads_name_space(s, b, text, 8, 21, "IntPredicate"@, l, d1);
    let d2 = d1.push(name_tok("IntPredicate"@, l));
    reads_name(s, b, text, 21, 24, "and"@, l, d2);
    let d3 = d2.push(name_tok("and"@, l));
    reads_sign(s, b, text, 24, Tok::LParen, l, d3);
    let d4 = d3.push(sign_tok(Tok::LParen, l));
    reads_name_space(s, b, text, 25, 38, "IntPredicate"@, l, d4);
    let d5 = d4.push(name_tok("IntPredicate"@, l));
    reads_name(s, b, text, 38, 43, "other"@, l, d5);
    let d6 = d5.push(name_tok("other"@, l));
    reads_sign(s, b, text, 43, Tok::RParen, l, d6);
    let d7 = d6.push(sign_tok(Tok::RParen, l));
    reads_space(s, b, text, 44, l, d7);
    reads_sign(s, b, text, 45, Tok::LBrace, l, d7);
    let d8 = d7.push(sign_tok(Tok::LBrace, l));
    reads_space(s, b, text, 46, l, d8);
    reads_key_space(s, b, text, 47, 54, "return"@, Tok::Return, l, d8);
    let d9 = d8.push(sign_tok(Tok::Return, l));
    reads_name_space(s, b, text, 54, 60, "value"@, l, d9);
    let d10 = d9.push(name_tok("value"@, l));
    reads_operator_sign(s, b, text, 60, 62, Tok::Arrow, l, d10);
    let d11 = d10.push(sign_tok(Tok::Arrow, l));
    reads_space(s, b, text, 62, l, d11);
    reads_name(s, b, text, 63, 67, "this"@, l, d11);
    let d12 = d11.push(name_tok("this"@, l));
    reads_sign(s, b, text, 67, Tok::Dot, l, d12);
    let d13 = d12.push(sign_tok(Tok::Dot, l));
    reads_name(s, b, text, 68, 72, "test"@, l, d13);
    let d14 = d13.push(name_tok("test"@, l));
    reads_sign(s, b, text, 72, Tok::LParen, l, d14);
    let d15 = d14.push(sign_tok(Tok::LParen, l));
    reads_name(s, b, text, 73, 78, "value"@, l, d15);
    let d16 = d15.push(name_tok("value"@, l));
    reads_sign(s, b, text, 78, Tok::RParen, l, d16);
    let d17 = d16.push(sign_tok(Tok::RParen, l));
    reads_space(s, b, text, 79, l, d17);
    reads_operator_sign(s, b, text, 80, 82, Tok::AndAnd, l, d17);
    let d18 = d17.push(sign_tok(Tok::AndAnd, l));
    reads_space(s, b, text, 82, l, d18);
    reads_name(s, b, text, 83, 88, "other"@, l, d18);
    let d19 = d18.push(name_tok("other"@, l));
    reads_sign(s, b, text, 88, Tok::Dot, l, d19);
    let d20 = d19.push(sign_tok(Tok::Dot, l));
    reads_name(s, b, text, 89, 93, "test"@, l, d20);
    let d21 = d20.push(name_tok("test"@, l));
    reads_sign(s, b, text, 93, Tok::LParen, l, d21);
    let d22 = d21.push(sign_tok(Tok::LParen, l));
    reads_name(s, b, text, 94, 99, "value"@, l, d22);
    let d23 = d22.push(name_tok("value"@, l));
    reads_sign(s, b, text, 99, Tok::RParen, l, d23);
    let d24 = d23.push(sign_tok(Tok::RParen, l));
    reads_sign(s, b, text, 100, Tok::Semi, l, d24);
    let d25 = d24.push(sign_tok(Tok::Semi, l));
    reads_space(s, b, text, 101, l, d25);
    reads_sign(s, b, text, 102, Tok::RBrace, l, d25);
    let d26 = d25.push(sign_tok(Tok::RBrace, l));
    assert(d26 =~= done + int_predicate_and_tokens(l));
}

/// The tokens are read as one method.
pub proof fn stands_int_predicate_and(t: Seq<TokenV>, name: Seq<char>, p: int, l: int)
    requires
        0 <= p,
        p + 26 < t.len(),
        t.subrange(p, p + 26) == int_predicate_and_tokens(l),
    ensures
        stands(t, name, p, p + 26),
{
    words_are_known();
    let u = int_predicate_and_tokens(l);
    assert forall|k: int| 0 <= k < 26 implies t[p + k] == #[trigger] u[k] by {
        assert(t.subrange(p, p + 26)[k] == u[k]);
    }
    assert(t[p] == u[0] && t[p + 1] == u[1] && t[p + 2] == u[2] && t[p + 3] == u[3]);
    assert(t[p + 4] == u[4] && t[p + 5] == u[5] && t[p + 6] == u[6] && t[p + 7] == u[7]);
    assert(t[p + 8] == u[8] && t[p + 9] == u[9] && t[p + 10] == u[10] && t[p + 11] == u[11]);
    assert(t[p + 12] == u[12] && t[p + 13] == u[13] && t[p + 14] == u[14] && t[p + 15] == u[15]);
    assert(t[p + 16] == u[16] && t[p + 17] == u[17] && t[p + 18] == u[18] && t[p + 19] == u[19]);
    assert(t[p + 20] == u[20] && t[p + 21] == u[21] && t[p + 22] == u[22] && t[p + 23] == u[23]);
    assert(t[p + 24] == u[24] && t[p + 25] == u[25]);
    reads_last_parameter(t, p + 4);
    reads_parameters(t, p + 4, p + 6);
    reads_chain_end(t, p + 16);
    reads_variable(t, p + 15, p + 16);
    reads_no_operator(t, 0u8, p + 16);
    reads_operation(t, 0u8, p + 15, p + 16, p + 16);
    reads_simple(t, p + 15, p + 16);
    reads_last_argument(t, p + 15, p + 16);
    reads_arguments(t, p + 14, p + 17);
    reads_chain_end(t, p + 17);
    reads_chained_call(t, p + 12, p + 17, p + 17);
    reads_this(t, p + 11, p + 17);
    reads_chain_end(t, p + 23);
    reads_variable(t, p + 22, p + 23);
    reads_no_operator(t, 0u8, p + 23);
    reads_operation(t, 0u8, p + 22, p + 23, p + 23);
    reads_simple(t, p + 22, p + 23);
    reads_last_argument(t, p + 22, p + 23);
    reads_arguments(t, p + 21, p + 24);
    reads_chain_end(t, p + 24);
    reads_chained_call(t, p + 19, p + 24, p + 24);
    reads_variable(t, p + 18, p + 24);
    reads_no_operator(t, 3u8, p + 24);
    reads_operation(t, 3u8, p + 18, p + 24, p + 24);
    reads_no_operator(t, 0u8, p + 24);
    reads_operator(t, 0u8, p + 17, p + 24, p + 24);
    reads_operation(t, 0u8, p + 11, p + 17, p + 24);
    reads_simple(t, p + 11, p + 24);
    reads_expression_body(t, p + 11, p + 24);
    reads_lambda(t, p + 9, p + 24);
    reads_return(t, p + 8, p + 24);
    reads_block_end(t, p + 25);
    reads_next_statement(t, p + 8, p + 25, p + 26);
    reads_block(t, p + 8, p + 26);
    reads_method(t, name, p, p + 1, p + 6, p + 26);
}

/// The tokens of `default IntPredicate negate()`.
pub open spec fn int_predicate_negate_tokens(l: int) -> Seq<TokenV> {
    seq![
        sign_tok(Tok::Default, l), name_tok("IntPredicate"@, l), name_tok("negate"@, l),
        sign_tok(Tok::LParen, l), sign_tok(Tok::RParen, l), sign_tok(Tok::LBrace, l),
        sign_tok(Tok::Return, l), name_tok("value"@, l), sign_tok(Tok::Arrow, l),
        sign_tok(Tok::Not, l), name_tok("this"@, l), sign_tok(Tok::Dot, l),
        name_tok("test"@, l), sign_tok(Tok::LParen, l), name_tok("value"@, l),
        sign_tok(Tok::RParen, l), sign_tok(Tok::Semi, l), sign_tok(Tok::RBrace, l),
    ]
}

/// Its text.
pub open spec fn int_predicate_negate_text() -> Seq<char> {
    "default IntPredicate negate() { return value -> !this.test(value); }"@
}

/// Where the words and signs of the text stand.
pub proof fn spelling_of_int_predicate_negate()
    ensures
        int_predicate_negate_text().len() == 68,
        spells(int_predicate_negate_text(), 0, "default"@),
        spells(int_predicate_negate_text(), 8, "IntPredicate"@),
        spells(int_predicate_negate_text(), 21, "negate"@),
        spells(int_predicate_negate_text(), 32, "return"@),
        spells(int_predicate_negate_text(), 39, "value"@),
        spells(int_predicate_negate_text(), 49, "this"@),
        spells(int_predicate_negate_text(), 54, "test"@),
        spells(int_predicate_negate_text(), 59, "value"@),
        int_predicate_negate_text()[7] == ' ' && int_predicate_negate_text()[20] == ' ',
        int_predicate_negate_text()[27] == '(' && int_predicate_negate_text()[28] == ')',
        int_predicate_negate_text()[29] == ' ' && int_predicate_negate_text()[30] == '{',
        int_predicate_negate_text()[31] == ' ' && int_predicate_negate_text()[38] == ' ',
        int_predicate_negate_text()[44] == ' ' && int_predicate_negate_text()[45] == '-',
        int_predicate_negate_text()[46] == '>' && int_predicate_negate_text()[47] == ' ',
        int_predicate_negate_text()[48] == '!' && int_predicate_negate_text()[49] == 't',
        int_predicate_negate_text()[53] == '.' && int_predicate_negate_text()[54] == 't',
        int_predicate_negate_text()[58] == '(' && int_predicate_negate_text()[59] == 'v',
        int_predicate_negate_text()[64] == ')' && int_predicate_negate_text()[65] == ';',
        int_predicate_negate_text()[66] == ' ' && int_predicate_negate_text()[67] == '}',
{
    reveal_strlit("default IntPredicate negate() { return value -> !this.test(value); }");
    reveal_strlit("IntPredicate");
    reveal_strlit("default");
    reveal_strlit("negate");
    reveal_strlit("return");
    reveal_strlit("test");
    reveal_strlit("this");
    reveal_strlit("value");
}

/// The text is lexed as these tokens.
pub proof fn lexes_int_predicate_negate(s: Seq<char>, b: int, l: int, done: Seq<TokenV>)
    requires
        spells(s, b, int_predicate_negate_text()),
    ensures
        rest(s, b, l, done) == rest(s, b + 68, l, done + int_predicate_negate_tokens(l)),
{
    words_are_known();
    spelling_of_int_predicate_negate();
    let text = int_predicate_negate_text();
    let d0 = done;
    reads_key_space(s, b, text, 0, 8, "default"@, Tok::Default, l, d0);
    let d1 = d0.push(sign_tok(Tok::Default, l));
    reads_name_space(s, b, text, 8, 21, "IntPredicate"@, l, d1);
    let d2 = d1.push(name_tok("IntPredicate"@, l));
    reads_name(s, b, text, 21, 27, "negate"@, l, d2);
    let d3 = d2.push(name_tok("negate"@, l));
    reads_sign(s, b, text, 27, Tok::LParen, l, d3);
    let d4 = d3.push(sign_tok(Tok::LParen, l));
    reads_sign(s, b, text, 28, Tok::RParen, l, d4);
    let d5 = d4.push(sign_tok(Tok::RParen, l));
    reads_space(s, b, text, 29, l, d5);
    reads_sign(s, b, text, 30, Tok::LBrace, l, d5);
    let d6 = d5.push(sign_tok(Tok::LBrace, l));
    reads_space(s, b, text, 31, l, d6);
    reads_key_space(s, b, text, 32, 39, "return"@, Tok::Return, l, d6);
    let d7 = d6.push(sign_tok(Tok::Return, l));
    reads_name_space(s, b, text, 39, 45, "value"@, l, d7);
    let d8 = d7.push(name_tok("value"@, l));
    reads_operator_sign(s, b, text, 45, 47, Tok::Arrow, l, d8);
    let d9 = d8.push(sign_tok(Tok::Arrow, l));
    reads_space(s, b, text, 47, l, d9);
    reads_operator_sign(s, b, text, 48, 49, Tok::Not, l, d9);
    let d10 = d9.push(sign_tok(Tok::Not, l));
    reads_name(s, b, text, 49, 53, "this"@, l, d10);
    let d11 = d10.push(name_tok("this"@, l));
    reads_sign(s, b, text, 53, Tok::Dot, l, d11);
    let d12 = d11.push(sign_tok(Tok::Dot, l));
    reads_name(s, b, text, 54, 58, "test"@, l, d12);
    let d13 = d12.push(name_tok("test"@, l));
    reads_sign(s, b, text, 58, Tok::LParen, l, d13);
    let d14 = d13.push(sign_tok(Tok::LParen, l));
    reads_name(s, b, text, 59, 64, "value"@, l, d14);
    let d15 = d14.push(name_tok("value"@, l));
    reads_sign(s, b, text, 64, Tok::RParen, l, d15);
    let d16 = d15.push(sign_tok(Tok::RParen, l));
    reads_sign(s, b, text, 65, Tok::Semi, l, d16);
    let d17 = d16.push(sign_tok(Tok::Semi, l));
    reads_space(s, b, text, 66, l, d17);
    reads_sign(s, b, text, 67, Tok::RBrace, l, d17);
    let d18 = d17.push(sign_tok(Tok::RBrace, l));
    assert(d18 =~= done + int_predicate_negate_tokens(l));
}

/// The tokens are read as one method.
pub proof fn stands_int_predicate_negate(t: Seq<TokenV>, name: Seq<char>, p: int, l: int)
    requires
        0 <= p,
        p + 18 < t.len(),
        t.subrange(p, p + 18) == int_predicate_negate_tokens(l),
    ensures
        stands(t, name, p, p + 18),
{
    words_are_known();
    let u = int_predicate_negate_tokens(l);
    assert forall|k: int| 0 <= k < 18 implies t[p + k] == #[trigger] u[k] by {
        assert(t.subrange(p, p + 18)[k] == u[k]);
    }
    assert(t[p] == u[0] && t[p + 1] == u[1] && t[p + 2] == u[2] && t[p + 3] == u[3]);
    assert(t[p + 4] == u[4] && t[p + 5] == u[5] && t[p + 6] == u[6] && t[p + 7] == u[7]);
    assert(t[p + 8] == u[8] && t[p + 9] == u[9] && t[p + 10] == u[10] && t[p + 11] == u[11]);
    assert(t[p + 12] == u[12] && t[p + 13] == u[13] && t[p + 14] == u[14] && t[p + 15] == u[15]);
    assert(t[p + 16] == u[16] && t[p + 17] == u[17]);
    reads_no_parameters(t, p + 4);
    reads_chain_end(t, p + 15);
    reads_variable(t, p + 14, p + 15);
    reads_no_operator(t, 0u8, p + 15);
    reads_operation(t, 0u8, p + 14, p + 15, p + 15);
    reads_simple(t, p + 14, p + 15);
    reads_last_argument(t, p + 14, p + 15);
    reads_arguments(t, p + 13, p + 16);
    reads_chain_end(t, p + 16);
    reads_chained_call(t, p + 11, p + 16, p + 16);
    reads_this(t, p + 10, p + 16);
    reads_negation(t, p + 9, p + 16);
    reads_no_operator(t, 0u8, p + 16);
    reads_operation(t, 0u8, p + 9, p + 16, p + 16);
    reads_simple(t, p + 9, p + 16);
    reads_expression_body(t, p + 9, p + 16);
    reads_lambda(t, p + 7, p + 16);
    reads_return(t, p + 6, p + 16);
    reads_block_end(t, p + 17);
    reads_next_statement(t, p + 6, p + 17, p + 18);
    reads_block(t, p + 6, p + 18);
    reads_method(t, name, p, p + 1, p + 4, p + 18);
}

/// The tokens of `default IntPredicate or(IntPredicate other)`.
pub open spec fn int_predicate_or_tokens(l: int) -> Seq<TokenV> {
    seq![
        sign_tok(Tok::Default, l), name_tok("IntPredicate"@, l), name_tok("or"@, l),
        sign_tok(Tok::LParen, l), name_tok("IntPredicate"@, l), name_tok("other"@, l),
        sign_tok(Tok::RParen, l), sign_tok(Tok::LBrace, l), sign_tok(Tok::Return, l),
        name_tok("value"@, l), sign_tok(Tok::Arrow, l), name_tok("this"@, l),
        sign_tok(Tok::Dot, l), name_tok("test"@, l), sign_tok(Tok::LParen, l),
        name_tok("value"@, l), sign_tok(Tok::RParen, l), sign_tok(Tok::OrOr, l),
        name_tok("other"@, l), sign_tok(Tok::Dot, l), name_tok("test"@, l),
        sign_tok(Tok::LParen, l), name_tok("value"@, l), sign_tok(Tok::RParen, l),
        sign_tok(Tok::Semi, l), sign_tok(Tok::RBrace, l),
    ]
}

/// Its text.
pub open spec fn int_predicate_or_text() -> Seq<char> {
    "default IntPredicate or(IntPredicate other) { return value -> this.test(value) || other.test(value); }"@
}

/// Where the words and signs of the text stand.
pub proof fn spelling_of_int_predicate_or()
    ensures
        int_predicate_or_text().len() == 102,
        spells(int_predicate_or_text(), 0, "default"@),
        spells(int_predicate_or_text(), 8, "IntPredicate"@),
        spells(int_predicate_or_text(), 21, "or"@),
        spells(int_predicate_or_text(), 24, "IntPredicate"@),
        spells(int_predicate_or_text(), 37, "other"@),
        spells(int_predicate_or_text(), 46, "return"@),
        spells(int_predicate_or_text(), 53, "value"@),
        spells(int_predicate_or_text(), 62, "this"@),
        spells(int_predicate_or_text(), 67, "test"@),
        spells(int_predicate_or_text(), 72, "value"@),
        spells(int_predicate_or_text(), 82, "other"@),
        spells(int_predicate_or_text(), 88, "test"@),
        spells(int_predicate_or_text(), 93, "value"@),
        int_predicate_or_text()[7] == ' ' && int_predicate_or_text()[20] == ' ',
        int_predicate_or_text()[23] == '(' && int_predicate_or_text()[24] == 'I',
        int_predicate_or_text()[36] == ' ' && int_predicate_or_text()[42] == ')',
        int_predicate_or_text()[43] == ' ' && int_predicate_or_text()[44] == '{',
        int_predicate_or_text()[45] == ' ' && int_predicate_or_text()[52] == ' ',
        int_predicate_or_text()[58] == ' ' && int_predicate_or_text()[59] == '-',
        int_predicate_or_text()[60] == '>' && int_predicate_or_text()[61] == ' ',
        int_predicate_or_text()[66] == '.' && int_predicate_or_text()[67] == 't',
        int_predicate_or_text()[71] == '(' && int_predicate_or_text()[72] == 'v',
        int_predicate_or_text()[77] == ')' && int_predicate_or_text()[78] == ' ',
        int_predicate_or_text()[79] == '|' && int_predicate_or_text()[80] == '|',
        int_predicate_or_text()[81] == ' ' && int_predicate_or_text()[87] == '.',
        int_predicate_or_text()[88] == 't' && int_predicate_or_text()[92] == '(',
        int_predicate_or_text()[93] == 'v' && int_predicate_or_text()[98] == ')',
        int_predicate_or_text()[99] == ';' && int_predicate_or_text()[100] == ' ',
        int_predicate_or_text()[101] == '}',
{
    reveal_strlit("default IntPredicate or(IntPredicate other) { return value -> this.test(value) || other.test(value); }");
    reveal_strlit("IntPredicate");
    reveal_strlit("default");
    reveal_strlit("or");
    reveal_strlit("other");
    reveal_strlit("return");
    reveal_strlit("test");
    reveal_strlit("this");
    reveal_strlit("value");
}

/// The text is lexed as these tokens.
pub proof fn lexes_int_predicate_or(s: Seq<char>, b: int, l: int, done: Seq<TokenV>)
    requires
        spells(s, b, int_predicate_or_text()),
    ensures
        rest(s, b, l, done) == rest(s, b + 102, l, done + int_predicate_or_tokens(l)),
{
    words_are_known();
    spelling_of_int_predicate_or();
    let text = int_predicate_or_text();
    let d0 = done;
    reads_key_space(s, b, text, 0, 8, "default"@, Tok::Default, l, d0);
    let d1 = d0.push(sign_tok(Tok::Default, l));
    reads_name_space(s, b, text, 8, 21, "IntPredicate"@, l, d1);
    let d2 = d1.push(name_tok("IntPredicate"@, l));
    reads_name(s, b, text, 21, 23, "or"@, l, d2);
    let d3 = d2.push(name_tok("or"@, l));
    reads_sign(s, b, text, 23, Tok::LParen, l, d3);
    let d4 = d3.push(sign_tok(Tok::LParen, l));
    reads_name_space(s, b, text, 24, 37, "IntPredicate"@, l, d4);
    let d5 = d4.push(name_tok("IntPredicate"@, l));
    reads_name(s, b, text, 37, 42, "other"@, l, d5);
    let d6 = d5.push(name_tok("other"@, l));
    reads_sign(s, b, text, 42, Tok::RParen, l, d6);
    let d7 = d6.push(sign_tok(Tok::RParen, l));
    reads_space(s, b, text, 43, l, d7);
    reads_sign(s, b, text, 44, Tok::LBrace, l, d7);
    let d8 = d7.push(sign_tok(Tok::LBrace, l));
    reads_space(s, b, text, 45, l, d8);
    reads_key_space(s, b, text, 46, 53, "return"@, Tok::Return, l, d8);
    let d9 = d8.push(sign_tok(Tok::Return, l));
    reads_name_space(s, b, text, 53, 59, "value"@, l, d9);
    let d10 = d9.push(name_tok("value"@, l));
    reads_operator_sign(s, b, text, 59, 61, Tok::Arrow, l, d10);
    let d11 = d10.push(sign_tok(Tok::Arrow, l));
    reads_space(s, b, text, 61, l, d11);
    reads_name(s, b, text, 62, 66, "this"@, l, d11);
    let d12 = d11.push(name_tok("this"@, l));
    reads_sign(s, b, text, 66, Tok::Dot, l, d12);
    let d13 = d12.push(sign_tok(Tok::Dot, l));
    reads_name(s, b, text, 67, 71, "test"@, l, d13);
    let d14 = d13.push(name_tok("test"@, l));
    reads_sign(s, b, text, 71, Tok::LParen, l, d14);
    let d15 = d14.push(sign_tok(Tok::LParen, l));
    reads_name(s, b, text, 72, 77, "value"@, l, d15);
    let d16 = d15.push(name_tok("value"@, l));
    reads_sign(s, b, text, 77, Tok::RParen, l, d16);
    let d17 = d16.push(sign_tok(Tok::RParen, l));
    reads_space(s, b, text, 78, l, d17);
    reads_operator_sign(s, b, text, 79, 81, Tok::OrOr, l, d17);
    let d18 = d17.push(sign_tok(Tok::OrOr, l));
    reads_space(s, b, text, 81, l, d18);
    reads_name(s, b, text, 82, 87, "other"@, l, d18);
    let d19 = d18.push(name_tok("other"@, l));
    reads_sign(s, b, text, 87, Tok::Dot, l, d19);
    let d20 = d19.push(sign_tok(Tok::Dot, l));
    reads_name(s, b, text, 88, 92, "test"@, l, d20);
    let d21 = d20.push(name_tok("test"@, l));
    reads_sign(s, b, text, 92, Tok::LParen, l, d21);
    let d22 = d21.push(sign_tok(Tok::LParen, l));
    reads_name(s, b, text, 93, 98, "value"@, l, d22);
    let d23 = d22.push(name_tok("value"@, l));
    reads_sign(s, b, text, 98, Tok::RParen, l, d23);
    let d24 = d23.push(sign_tok(Tok::RParen, l));
    reads_sign(s, b, text, 99, Tok::Semi, l, d24);
    let d25 = d24.push(sign_tok(Tok::Semi, l));
    reads_space(s, b, text, 100, l, d25);
    reads_sign(s, b, text, 101, Tok::RBrace, l, d25);
    let d26 = d25.push(sign_tok(Tok::RBrace, l));
    assert(d26 =~= done + int_predicate_or_tokens(l));
}

/// The tokens are read as one method.
pub proof fn stands_int_predicate_or(t: Seq<TokenV>, name: Seq<char>, p: int, l: int)
    requires
        0 <= p,
        p + 26 < t.len(),
        t.subrange(p, p + 26) == int_predicate_or_tokens(l),
    ensures
        stands(t, name, p, p + 26),
{
    words_are_known();
    let u = int_predicate_or_tokens(l);
    assert forall|k: int| 0 <= k < 26 implies t[p + k] == #[trigger] u[k] by {
        assert(t.subrange(p, p + 26)[k] == u[k]);
    }
    assert(t[p] == u[0] && t[p + 1] == u[1] && t[p + 2] == u[2] && t[p + 3] == u[3]);
    assert(t[p + 4] == u[4] && t[p + 5] == u[5] && t[p + 6] == u[6] && t[p + 7] == u[7]);
    assert(t[p + 8] == u[8] && t[p + 9] == u[9] && t[p + 10] == u[10] && t[p + 11] == u[11]);
    assert(t[p + 12] == u[12] && t[p + 13] == u[13] && t[p + 14] == u[14] && t[p + 15] == u[15]);
    assert(t[p + 16] == u[16] && t[p + 17] == u[17] && t[p + 18] == u[18] && t[p + 19] == u[19]);
    assert(t[p + 20] == u[20] && t[p + 21] == u[21] && t[p + 22] == u[22] && t[p + 23] == u[23]);
    assert(t[p + 24] == u[24] && t[p + 25] == u[25]);
    reads_last_parameter(t, p + 4);
    reads_parameters(t, p + 4, p + 6);
    reads_chain_end(t, p + 16);
    reads_variable(t, p + 15, p + 16);
    reads_no_operator(t, 0u8, p + 16);
    reads_operation(t, 0u8, p + 15, p + 16, p + 16);
    reads_simple(t, p + 15, p + 16);
    reads_last_argument(t, p + 15, p + 16);
    reads_arguments(t, p + 14, p + 17);
    reads_chain_end(t, p + 17);
    reads_chained_call(t, p + 12, p + 17, p + 17);
    reads_this(t, p + 11, p + 17);
    reads_chain_end(t, p + 23);
    reads_variable(t, p + 22, p + 23);
    reads_no_operator(t, 0u8, p + 23);
    reads_operation(t, 0u8, p + 22, p + 23, p + 23);
    reads_simple(t, p + 22, p + 23);
    reads_last_argument(t, p + 22, p + 23);
    reads_arguments(t, p + 21, p + 24);
    reads_chain_end(t, p + 24);
    reads_chained_call(t, p + 19, p + 24, p + 24);
    reads_variable(t, p + 18, p + 24);
    reads_no_operator(t, 2u8, p + 24);
    reads_operation(t, 2u8, p + 18, p + 24, p + 24);
    reads_no_operator(t, 0u8, p + 24);
    reads_operator(t, 0u8, p + 17, p + 24, p + 24);
    reads_operation(t, 0u8, p + 11, p + 17, p + 24);
    reads_simple(t, p + 11, p + 24);
    reads_expression_body(t, p + 11, p + 24);
    reads_lambda(t, p + 9, p + 24);
    reads_return(t, p + 8, p + 24);
    reads_block_end(t, p + 25);
    reads_next_statement(t, p + 8, p + 25, p + 26);
    reads_block(t, p + 8, p + 26);
    reads_method(t, name, p, p + 1, p + 6, p + 26);
}

/// The tokens of `default IntConsumer andThen(IntConsumer after)`.
pub open spec fn int_consumer_and_then_tokens(l: int) -> Seq<TokenV> {
    seq![
        sign_tok(Tok::Default, l), name_tok("IntConsumer"@, l), name_tok("andThen"@, l),
        sign_tok(Tok::LParen, l), name_tok("IntConsumer"@, l), name_tok("after"@, l),
        sign_tok(Tok::RParen, l), sign_tok(Tok::LBrace, l), sign_tok(Tok::Return, l),
        name_tok("value"@, l), sign_tok(Tok::Arrow, l), sign_tok(Tok::LBrace, l),
        name_tok("this"@, l), sign_tok(Tok::Dot, l), name_tok("accept"@, l),
        sign_tok(Tok::LParen, l), name_tok("value"@, l), sign_tok(Tok::RParen, l),
        sign_tok(Tok::Semi, l), name_tok("after"@, l), sign_tok(Tok::Dot, l),
        name_tok("accept"@, l), sign_tok(Tok::LParen, l), name_tok("value"@, l),
        sign_tok(Tok::RParen, l), sign_tok(Tok::Semi, l), sign_tok(Tok::RBrace, l),
        sign_tok(Tok::Semi, l), sign_tok(Tok::RBrace, l),
    ]
}

/// Its text.
pub open spec fn int_consumer_and_then_text() -> Seq<char> {
    "default IntConsumer andThen(IntConsumer after) { return value -> { this.accept(value); after.accept(value); }; }"@
}

/// Where the words and signs of the text stand.
pub proof fn spelling_of_int_consumer_and_then()
    ensures
        int_consumer_and_then_text().len() == 112,
        spells(int_consumer_and_then_text(), 0, "default"@),
        spells(int_consumer_and_then_text(), 8, "IntConsumer"@),
        spells(int_consumer_and_then_text(), 20, "andThen"@),
        spells(int_consumer_and_then_text(), 28, "IntConsumer"@),
        spells(int_consumer_and_then_text(), 40, "after"@),
        spells(int_consumer_and_then_text(), 49, "return"@),
        spells(int_consumer_and_then_text(), 56, "value"@),
        spells(int_consumer_and_then_text(), 67, "this"@),
        spells(int_consumer_and_then_text(), 72, "accept"@),
        spells(int_consumer_and_then_text(), 79, "value"@),
        spells(int_consumer_and_then_text(), 87, "after"@),
        spells(int_consumer_and_then_text(), 93, "accept"@),
        spells(int_consumer_and_then_text(), 100, "value"@),
        int_consumer_and_then_text()[7] == ' ' && int_consumer_and_then_text()[19] == ' ',
        int_consumer_and_then_text()[27] == '(' && int_consumer_and_then_text()[28] == 'I',
        int_consumer_and_then_text()[39] == ' ' && int_consumer_and_then_text()[45] == ')',
        int_consumer_and_then_text()[46] == ' ' && int_consumer_and_then_text()[47] == '{',
        int_consumer_and_then_text()[48] == ' ' && int_consumer_and_then_text()[55] == ' ',
        int_consumer_and_then_text()[61] == ' ' && int_consumer_and_then_text()[62] == '-',
        int_consumer_and_then_text()[63] == '>' && int_consumer_and_then_text()[64] == ' ',
        int_consumer_and_then_text()[65] == '{' && int_consumer_and_then_text()[66] == ' ',
        int_consumer_and_then_text()[71] == '.' && int_consumer_and_then_text()[72] == 'a',
        int_consumer_and_then_text()[78] == '(' && int_consumer_and_then_text()[79] == 'v',
        int_consumer_and_then_text()[84] == ')' && int_consumer_and_then_text()[85] == ';',
        int_consumer_and_then_text()[86] == ' ' && int_consumer_and_then_text()[92] == '.',
        int_consumer_and_then_text()[93] == 'a' && int_consumer_and_then_text()[99] == '(',
        int_consumer_and_then_text()[100] == 'v' && int_consumer_and_then_text()[105] == ')',
        int_consumer_and_then_text()[106] == ';' && int_consumer_and_then_text()[107] == ' ',
        int_consumer_and_then_text()[108] == '}' && int_consumer_and_then_text()[109] == ';',
        int_consumer_and_then_text()[110] == ' ' && int_consumer_and_then_text()[111] == '}',
{
    reveal_strlit("default IntConsumer andThen(IntConsumer after) { return value -> { this.accept(value); after.accept(value); }; }");
    reveal_strlit("IntConsumer");
    reveal_strlit("accept");
    reveal_strlit("after");
    reveal_strlit("andThen");
    reveal_strlit("default");
    reveal_strlit("return");
    reveal_strlit("this");
    reveal_strlit("value");
}

/// The text is lexed as these tokens.
pub proof fn lexes_int_consumer_and_then(s: Seq<char>, b: int, l: int, done: Seq<TokenV>)
    requires
        spells(s, b, int_consumer_and_then_text()),
    ensures
        rest(s, b, l, done) == rest(s, b + 112, l, done + int_consumer_and_then_tokens(l)),
{
    words_are_known();
    spelling_of_int_consumer_and_then();
    let text = int_consumer_and_then_text();
    let d0 = done;
    reads_key_space(s, b, text, 0, 8, "default"@, Tok::Default, l, d0);
    let d1 = d0.push(sign_tok(Tok::Default, l));
    reads_name_space(s, b, text, 8, 20, "IntConsumer"@, l, d1);
    let d2 = d1.push(name_tok("IntConsumer"@, l));
    reads_name(s, b, text, 20, 27, "andThen"@, l, d2);
    let d3 = d2.push(name_tok("andThen"@, l));
    reads_sign(s, b, text, 27, Tok::LParen, l, d3);
    let d4 = d3.push(sign_tok(Tok::LParen, l));
    reads_name_space(s, b, text, 28, 40, "IntConsumer"@, l, d4);
    let d5 = d4.push(name_tok("IntConsumer"@, l));
    reads_name(s, b, text, 40, 45, "after"@, l, d5);
    let d6 = d5.push(name_tok("after"@, l));
    reads_sign(s, b, text, 45, Tok::RParen, l, d6);
    let d7 = d6.push(sign_tok(Tok::RParen, l));
    reads_space(s, b, text, 46, l, d7);
    reads_sign(s, b, text, 47, Tok::LBrace, l, d7);
    let d8 = d7.push(sign_tok(Tok::LBrace, l));
    reads_space(s, b, text, 48, l, d8);
    reads_key_space(s, b, text, 49, 56, "return"@, Tok::Return, l, d8);
    let d9 = d8.push(sign_tok(Tok::Return, l));
    reads_name_space(s, b, text, 56, 62, "value"@, l, d9);
    let d10 = d9.push(name_tok("value"@, l));
    reads_operator_sign(s, b, text, 62, 64, Tok::Arrow, l, d10);
    let d11 = d10.push(sign_tok(Tok::Arrow, l));
    reads_space(s, b, text, 64, l, d11);
    reads_sign(s, b, text, 65, Tok::LBrace, l, d11);
    let d12 = d11.push(sign_tok(Tok::LBrace, l));
    reads_space(s, b, text, 66, l, d12);
    reads_name(s, b, text, 67, 71, "this"@, l, d12);
    let d13 = d12.push(name_tok("this"@, l));
    reads_sign(s, b, text, 71, Tok::Dot, l, d13);
    let d14 = d13.push(sign_tok(Tok::Dot, l));
    reads_name(s, b, text, 72, 78, "accept"@, l, d14);
    let d15 = d14.push(name_tok("accept"@, l));
    reads_sign(s, b, text, 78, Tok::LParen, l, d15);
    let d16 = d15.push(sign_tok(Tok::LParen, l));
    reads_name(s, b, text, 79, 84, "value"@, l, d16);
    let d17 = d16.push(name_tok("value"@, l));
    reads_sign(s, b, text, 84, Tok::RParen, l, d17);
    let d18 = d17.push(sign_tok(Tok::RParen, l));
    reads_sign(s, b, text, 85, Tok::Semi, l, d18);
    let d19 = d18.push(sign_tok(Tok::Semi, l));
    reads_space(s, b, text, 86, l, d19);
    reads_name(s, b, text, 87, 92, "after"@, l, d19);
    let d20 = d19.push(name_tok("after"@, l));
    reads_sign(s, b, text, 92, Tok::Dot, l, d20);
    let d21 = d20.push(sign_tok(Tok::Dot, l));
    reads_name(s, b, text, 93, 99, "accept"@, l, d21);
    let d22 = d21.push(name_tok("accept"@, l));
    reads_sign(s, b, text, 99, Tok::LParen, l, d22);
    let d23 = d22.push(sign_tok(Tok::LParen, l));
    reads_name(s, b, text, 100, 105, "value"@, l, d23);
    let d24 = d23.push(name_tok("value"@, l));
    reads_sign(s, b, text, 105, Tok::RParen, l, d24);
    let d25 = d24.push(sign_tok(Tok::RParen, l));
    reads_sign(s, b, text, 106, Tok::Semi, l, d25);
    let d26 = d25.push(sign_tok(Tok::Semi, l));
    reads_space(s, b, text, 107, l, d26);
    reads_sign(s, b, text, 108, Tok::RBrace, l, d26);
    let d27 = d26.push(sign_tok(Tok::RBrace, l));
    reads_sign(s, b, text, 109, Tok::Semi, l, d27);
    let d28 = d27.push(sign_tok(Tok::Semi, l));
    reads_space(s, b, text, 110, l, d28);
    reads_sign(s, b, text, 111, Tok::RBrace, l, d28);
    let d29 = d28.push(sign_tok(Tok::RBrace, l));
    assert(d29 =~= done + int_consumer_and_then_tokens(l));
}

/// The tokens are read as one method.
pub proof fn stands_int_consumer_and_then(t: Seq<TokenV>, name: Seq<char>, p: int, l: int)
    requires
        0 <= p,
        p + 29 < t.len(),
        t.subrange(p, p + 29) == int_consumer_and_then_tokens(l),
    ensures
        stands(t, name, p, p + 29),
{
    words_are_known();
    let u = int_consumer_and_then_tokens(l);
    assert forall|k: int| 0 <= k < 29 implies t[p + k] == #[trigger] u[k] by {
        assert(t.subrange(p, p + 29)[k] == u[k]);
    }
    assert(t[p] == u[0] && t[p + 1] == u[1] && t[p + 2] == u[2] && t[p + 3] == u[3]);
    assert(t[p + 4] == u[4] && t[p + 5] == u[5] && t[p + 6] == u[6] && t[p + 7] == u[7]);
    assert(t[p + 8] == u[8] && t[p + 9] == u[9] && t[p + 10] == u[10] && t[p + 11] == u[11]);
    assert(t[p + 12] == u[12] && t[p + 13] == u[13] && t[p + 14] == u[14] && t[p + 15] == u[15]);
    assert(t[p + 16] == u[16] && t[p + 17] == u[17] && t[p + 18] == u[18] && t[p + 19] == u[19]);
    assert(t[p + 20] == u[20] && t[p + 21] == u[21] && t[p + 22] == u[22] && t[p + 23] == u[23]);
    assert(t[p + 24] == u[24] && t[p + 25] == u[25] && t[p + 26] == u[26] && t[p + 27] == u[27]);
    assert(t[p + 28] == u[28]);
    reads_last_parameter(t, p + 4);
    reads_parameters(t, p + 4, p + 6);
    reads_chain_end(t, p + 17);
    reads_variable(t, p + 16, p + 17);
    reads_no_operator(t, 0u8, p + 17);
    reads_operation(t, 0u8, p + 16, p + 17, p + 17);
    reads_simple(t, p + 16, p + 17);
    reads_last_argument(t, p + 16, p + 17);
    reads_arguments(t, p + 15, p + 18);
    reads_chain_end(t, p + 18);
    reads_chained_call(t, p + 13, p + 18, p + 18);
    reads_this(t, p + 12, p + 18);
    reads_no_operator(t, 0u8, p + 18);
    reads_operation(t, 0u8, p + 12, p + 18, p + 18);
    reads_simple(t, p + 12, p + 18);
    reads_call_statement(t, p + 12, p + 18);
    reads_chain_end(t, p + 24);
    reads_variable(t, p + 23, p + 24);
    reads_no_operator(t, 0u8, p + 24);
    reads_operation(t, 0u8, p + 23, p + 24, p + 24);
    reads_simple(t, p + 23, p + 24);
    reads_last_argument(t, p + 23, p + 24);
    reads_arguments(t, p + 22, p + 25);
    reads_chain_end(t, p + 25);
    reads_chained_call(t, p + 20, p + 25, p + 25);
    reads_variable(t, p + 19, p + 25);
    reads_no_operator(t, 0u8, p + 25);
    reads_operation(t, 0u8, p + 19, p + 25, p + 25);
    reads_simple(t, p + 19, p + 25);
    reads_call_statement(t, p + 19, p + 25);
    reads_block_end(t, p + 26);
    reads_next_statement(t, p + 19, p + 26, p + 27);
    reads_next_statement(t, p + 12, p + 19, p + 27);
    reads_block(t, p + 12, p + 27);
    reads_block_body(t, p + 11, p + 27);
    reads_lambda(t, p + 9, p + 27);
    reads_return(t, p + 8, p + 27);
    reads_block_end(t, p + 28);
    reads_next_statement(t, p + 8, p + 28, p + 29);
    reads_block(t, p + 8, p + 29);
    reads_method(t, name, p, p + 1, p + 6, p + 29);
}

/// The tokens of `default IntUnaryOperator compose(IntUnaryOperator before)`.
pub open spec fn int_unary_operator_compose_tokens(l: int) -> Seq<TokenV> {
    seq![
        sign_tok(Tok::Default, l), name_tok("IntUnaryOperator"@, l), name_tok("compose"@, l),
        sign_tok(Tok::LParen, l), name_tok("IntUnaryOperator"@, l), name_tok("before"@, l),
        sign_tok(Tok::RParen, l), sign_tok(Tok::LBrace, l), sign_tok(Tok::Return, l),
        name_tok("v"@, l), sign_tok(Tok::Arrow, l), name_tok("this"@, l), sign_tok(Tok::Dot, l),
        name_tok("applyAsInt"@, l), sign_tok(Tok::LParen, l), name_tok("before"@, l),
        sign_tok(Tok::Dot, l), name_tok("applyAsInt"@, l), sign_tok(Tok::LParen, l),
        name_tok("v"@, l), sign_tok(Tok::RParen, l), sign_tok(Tok::RParen, l),
        sign_tok(Tok::Semi, l), sign_tok(Tok::RBrace, l),
    ]
}

/// Its text.
pub open spec fn int_unary_operator_compose_text() -> Seq<char> {
    "default IntUnaryOperator compose(IntUnaryOperator before) { return v -> this.applyAsInt(before.applyAsInt(v)); }"@
}

/// Where the words and signs of the text stand.
pub proof fn spelling_of_int_unary_operator_compose()
    ensures
        int_unary_operator_compose_text().len() == 112,
        spells(int_unary_operator_compose_text(), 0, "default"@),
        spells(int_unary_operator_compose_text(), 8, "IntUnaryOperator"@),
        spells(int_unary_operator_compose_text(), 25, "compose"@),
        spells(int_unary_operator_compose_text(), 33, "IntUnaryOperator"@),
        spells(int_unary_operator_compose_text(), 50, "before"@),
        spells(int_unary_operator_compose_text(), 60, "return"@),
        spells(int_unary_operator_compose_text(), 67, "v"@),
        spells(int_unary_operator_compose_text(), 72, "this"@),
        spells(int_unary_operator_compose_text(), 77, "applyAsInt"@),
        spells(int_unary_operator_compose_text(), 88, "before"@),
        spells(int_unary_operator_compose_text(), 95, "applyAsInt"@),
        spells(int_unary_operator_compose_text(), 106, "v"@),
        int_unary_operator_compose_text()[7] == ' ',
        int_unary_operator_compose_text()[24] == ' ',
        int_unary_operator_compose_text()[32] == '(',
        int_unary_operator_compose_text()[33] == 'I',
        int_unary_operator_compose_text()[49] == ' ',
        int_unary_operator_compose_text()[56] == ')',
        int_unary_operator_compose_text()[57] == ' ',
        int_unary_operator_compose_text()[58] == '{',
        int_unary_operator_compose_text()[59] == ' ',
        int_unary_operator_compose_text()[66] == ' ',
        int_unary_operator_compose_text()[68] == ' ',
        int_unary_operator_compose_text()[69] == '-',
        int_unary_operator_compose_text()[70] == '>',
        int_unary_operator_compose_text()[71] == ' ',
        int_unary_operator_compose_text()[76] == '.',
        int_unary_operator_compose_text()[77] == 'a',
        int_unary_operator_compose_text()[87] == '(',
        int_unary_operator_compose_text()[88] == 'b',
        int_unary_operator_compose_text()[94] == '.',
        int_unary_operator_compose_text()[95] == 'a',
        int_unary_operator_compose_text()[105] == '(',
        int_unary_operator_compose_text()[106] == 'v',
        int_unary_operator_compose_text()[107] == ')',
        int_unary_operator_compose_text()[108] == ')',
        int_unary_operator_compose_text()[109] == ';',
        int_unary_operator_compose_text()[110] == ' ',
        int_unary_operator_compose_text()[111] == '}',
{
    reveal_strlit("default IntUnaryOperator compose(IntUnaryOperator before) { return v -> this.applyAsInt(before.applyAsInt(v)); }");
    reveal_strlit("IntUnaryOperator");
    reveal_strlit("applyAsInt");
    reveal_strlit("before");
    reveal_strlit("compose");
    reveal_strlit("default");
    reveal_strlit("return");
    reveal_strlit("this");
    reveal_strlit("v");
}

/// The text is lexed as these tokens.
pub proof fn lexes_int_unary_operator_compose(s: Seq<char>, b: int, l: int, done: Seq<TokenV>)
    requires
        spells(s, b, int_unary_operator_compose_text()),
    ensures
        rest(s, b, l, done) == rest(s, b + 112, l, done + int_unary_operator_compose_tokens(l)),
{
    words_are_known();
    spelling_of_int_unary_operator_compose();
    let text = int_unary_operator_compose_text();
    let d0 = done;
    reads_key_space(s, b, text, 0, 8, "default"@, Tok::Default, l, d0);
    let d1 = d0.push(sign_tok(Tok::Default, l));
    reads_name_space(s, b, text, 8, 25, "IntUnaryOperator"@, l, d1);
    let d2 = d1.push(name_tok("IntUnaryOperator"@, l));
    reads_name(s, b, text, 25, 32, "compose"@, l, d2);
    let d3 = d2.push(name_tok("compose"@, l));
    reads_sign(s, b, text, 32, Tok::LParen, l, d3);
    let d4 = d3.push(sign_tok(Tok::LParen, l));
    reads_name_space(s, b, text, 33, 50, "IntUnaryOperator"@, l, d4);
    let d5 = d4.push(name_tok("IntUnaryOperator"@, l));
    reads_name(s, b, text, 50, 56, "before"@, l, d5);
    let d6 = d5.push(name_tok("before"@, l));
    reads_sign(s, b, text, 56, Tok::RParen, l, d6);
    let d7 = d6.push(sign_tok(Tok::RParen, l));
    reads_space(s, b, text, 57, l, d7);
    reads_sign(s, b, text, 58, Tok::LBrace, l, d7);
    let d8 = d7.push(sign_tok(Tok::LBrace, l));
    reads_space(s, b, text, 59, l, d8);
    reads_key_space(s, b, text, 60, 67, "return"@, Tok::Return, l, d8);
    let d9 = d8.push(sign_tok(Tok::Return, l));
    reads_name_space(s, b, text, 67, 69, "v"@, l, d9);
    let d10 = d9.push(name_tok("v"@, l));
    reads_operator_sign(s, b, text, 69, 71, Tok::Arrow, l, d10);
    let d11 = d10.push(sign_tok(Tok::Arrow, l));
    reads_space(s, b, text, 71, l, d11);
    reads_name(s, b, text, 72, 76, "this"@, l, d11);
    let d12 = d11.push(name_tok("this"@, l));
    reads_sign(s, b, text, 76, Tok::Dot, l, d12);
    let d13 = d12.push(sign_tok(Tok::Dot, l));
    reads_name(s, b, text, 77, 87, "applyAsInt"@, l, d13);
    let d14 = d13.push(name_tok("applyAsInt"@, l));
    reads_sign(s, b, text, 87, Tok::LParen, l, d14);
    let d15 = d14.push(sign_tok(Tok::LParen, l));
    reads_name(s, b, text, 88, 94, "before"@, l, d15);
    let d16 = d15.push(name_tok("before"@, l));
    reads_sign(s, b, text, 94, Tok::Dot, l, d16);
    let d17 = d16.push(sign_tok(Tok::Dot, l));
    reads_name(s, b, text, 95, 105, "applyAsInt"@, l, d17);
    let d18 = d17.push(name_tok("applyAsInt"@, l));
    reads_sign(s, b, text, 105, Tok::LParen, l, d18);
    let d19 = d18.push(sign_tok(Tok::LParen, l));
    reads_name(s, b, text, 106, 107, "v"@, l, d19);
    let d20 = d19.push(name_tok("v"@, l));
    reads_sign(s, b, text, 107, Tok::RParen, l, d20);
    let d21 = d20.push(sign_tok(Tok::RParen, l));
    reads_sign(s, b, text, 108, Tok::RParen, l, d21);
    let d22 = d21.push(sign_tok(Tok::RParen, l));
    reads_sign(s, b, text, 109, Tok::Semi, l, d22);
    let d23 = d22.push(sign_tok(Tok::Semi, l));
    reads_space(s, b, text, 110, l, d23);
    reads_sign(s, b, text, 111, Tok::RBrace, l, d23);
    let d24 = d23.push(sign_tok(Tok::RBrace, l));
    assert(d24 =~= done + int_unary_operator_compose_tokens(l));
}

/// The tokens are read as one method.
pub proof fn stands_int_unary_operator_compose(t: Seq<TokenV>, name: Seq<char>, p: int, l: int)
    requires
        0 <= p,
        p + 24 < t.len(),
        t.subrange(p, p + 24) == int_unary_operator_compose_tokens(l),
    ensures
        stands(t, name, p, p + 24),
{
    words_are_known();
    let u = int_unary_operator_compose_tokens(l);
    assert forall|k: int| 0 <= k < 24 implies t[p + k] == #[trigger] u[k] by {
        assert(t.subrange(p, p + 24)[k] == u[k]);
    }
    assert(t[p] == u[0] && t[p + 1] == u[1] && t[p + 2] == u[2] && t[p + 3] == u[3]);
    assert(t[p + 4] == u[4] && t[p + 5] == u[5] && t[p + 6] == u[6] && t[p + 7] == u[7]);
    assert(t[p + 8] == u[8] && t[p + 9] == u[9] && t[p + 10] == u[10] && t[p + 11] == u[11]);
    assert(t[p + 12] == u[12] && t[p + 13] == u[13] && t[p + 14] == u[14] && t[p + 15] == u[15]);
    assert(t[p + 16] == u[16] && t[p + 17] == u[17] && t[p + 18] == u[18] && t[p + 19] == u[19]);
    assert(t[p + 20] == u[20] && t[p + 21] == u[21] && t[p + 22] == u[22] && t[p + 23] == u[23]);
    reads_last_parameter(t, p + 4);
    reads_parameters(t, p + 4, p + 6);
    reads_chain_end(t, p + 20);
    reads_variable(t, p + 19, p + 20);
    reads_no_operator(t, 0u8, p + 20);
    reads_operation(t, 0u8, p + 19, p + 20, p + 20);
    reads_simple(t, p + 19, p + 20);
    reads_last_argument(t, p + 19, p + 20);
    reads_arguments(t, p + 18, p + 21);
    reads_chain_end(t, p + 21);
    reads_chained_call(t, p + 16, p + 21, p + 21);
    reads_variable(t, p + 15, p + 21);
    reads_no_operator(t, 0u8, p + 21);
    reads_operation(t, 0u8, p + 15, p + 21, p + 21);
    reads_simple(t, p + 15, p + 21);
    reads_last_argument(t, p + 15, p + 21);
    reads_arguments(t, p + 14, p + 22);
    reads_chain_end(t, p + 22);
    reads_chained_call(t, p + 12, p + 22, p + 22);
    reads_this(t, p + 11, p + 22);
    reads_no_operator(t, 0u8, p + 22);
    reads_operation(t, 0u8, p + 11, p + 22, p + 22);
    reads_simple(t, p + 11, p + 22);
    reads_expression_body(t, p + 11, p + 22);
    reads_lambda(t, p + 9, p + 22);
    reads_return(t, p + 8, p + 22);
    reads_block_end(t, p + 23);
    reads_next_statement(t, p + 8, p + 23, p + 24);
    reads_block(t, p + 8, p + 24);
    reads_method(t, name, p, p + 1, p + 6, p + 24);
}

/// The tokens of `default IntUnaryOperator andThen(IntUnaryOperator after)`.
pub open spec fn int_unary_operator_and_then_tokens(l: int) -> Seq<TokenV> {
    seq![
        sign_tok(Tok::Default, l), name_tok("IntUnaryOperator"@, l), name_tok("andThen"@, l),
        sign_tok(Tok::LParen, l), name_tok("IntUnaryOperator"@, l), name_tok("after"@, l),
        sign_tok(Tok::RParen, l), sign_tok(Tok::LBrace, l), sign_tok(Tok::Return, l),
        name_tok("v"@, l), sign_tok(Tok::Arrow, l), name_tok("after"@, l),
        sign_tok(Tok::Dot, l), name_tok("applyAsInt"@, l), sign_tok(Tok::LParen, l),
        name_tok("this"@, l), sign_tok(Tok::Dot, l), name_tok("applyAsInt"@, l),
        sign_tok(Tok::LParen, l), name_tok("v"@, l), sign_tok(Tok::RParen, l),
        sign_tok(Tok::RParen, l), sign_tok(Tok::Semi, l), sign_tok(Tok::RBrace, l),
    ]
}

/// Its text.
pub open spec fn int_unary_operator_and_then_text() -> Seq<char> {
    "default IntUnaryOperator andThen(IntUnaryOperator after) { return v -> after.applyAsInt(this.applyAsInt(v)); }"@
}

/// Where the words and signs of the text stand.
pub proof fn spelling_of_int_unary_operator_and_then()
    ensures
        int_unary_operator_and_then_text().len() == 110,
        spells(int_unary_operator_and_then_text(), 0, "default"@),
        spells(int_unary_operator_and_then_text(), 8, "IntUnaryOperator"@),
        spells(int_unary_operator_and_then_text(), 25, "andThen"@),
        spells(int_unary_operator_and_then_text(), 33, "IntUnaryOperator"@),
        spells(int_unary_operator_and_then_text(), 50, "after"@),
        spells(int_unary_operator_and_then_text(), 59, "return"@),
        spells(int_unary_operator_and_then_text(), 66, "v"@),
        spells(int_unary_operator_and_then_text(), 71, "after"@),
        spells(int_unary_operator_and_then_text(), 77, "applyAsInt"@),
        spells(int_unary_operator_and_then_text(), 88, "this"@),
        spells(int_unary_operator_and_then_text(), 93, "applyAsInt"@),
        spells(int_unary_operator_and_then_text(), 104, "v"@),
        int_unary_operator_and_then_text()[7] == ' ',
        int_unary_operator_and_then_text()[24] == ' ',
        int_unary_operator_and_then_text()[32] == '(',
        int_unary_operator_and_then_text()[33] == 'I',
        int_unary_operator_and_then_text()[49] == ' ',
        int_unary_operator_and_then_text()[55] == ')',
        int_unary_operator_and_then_text()[56] == ' ',
        int_unary_operator_and_then_text()[57] == '{',
        int_unary_operator_and_then_text()[58] == ' ',
        int_unary_operator_and_then_text()[65] == ' ',
        int_unary_operator_and_then_text()[67] == ' ',
        int_unary_operator_and_then_text()[68] == '-',
        int_unary_operator_and_then_text()[69] == '>',
        int_unary_operator_and_then_text()[70] == ' ',
        int_unary_operator_and_then_text()[76] == '.',
        int_unary_operator_and_then_text()[77] == 'a',
        int_unary_operator_and_then_text()[87] == '(',
        int_unary_operator_and_then_text()[88] == 't',
        int_unary_operator_and_then_text()[92] == '.',
        int_unary_operator_and_then_text()[93] == 'a',
        int_unary_operator_and_then_text()[103] == '(',
        int_unary_operator_and_then_text()[104] == 'v',
        int_unary_operator_and_then_text()[105] == ')',
        int_unary_operator_and_then_text()[106] == ')',
        int_unary_operator_and_then_text()[107] == ';',
        int_unary_operator_and_then_text()[108] == ' ',
        int_unary_operator_and_then_text()[109] == '}',
{
    reveal_strlit("default IntUnaryOperator andThen(IntUnaryOperator after) { return v -> after.applyAsInt(this.applyAsInt(v)); }");
    reveal_strlit("IntUnaryOperator");
    reveal_strlit("after");
    reveal_strlit("andThen");
    reveal_strlit("applyAsInt");
    reveal_strlit("default");
    reveal_strlit("return");
    reveal_strlit("this");
    reveal_strlit("v");
}

/// The text is lexed as these tokens.
pub proof fn lexes_int_unary_operator_and_then(s: Seq<char>, b: int, l: int, done: Seq<TokenV>)
    requires
        spells(s, b, int_unary_operator_and_then_text()),
    ensures
        rest(s, b, l, done) == rest(s, b + 110, l, done + int_unary_operator_and_then_tokens(l)),
{
    words_are_known();
    spelling_of_int_unary_operator_and_then();
    let text = int_unary_operator_and_then_text();
    let d0 = done;
    reads_key_space(s, b, text, 0, 8, "default"@, Tok::Default, l, d0);
    let d1 = d0.push(sign_tok(Tok::Default, l));
    reads_name_space(s, b, text, 8, 25, "IntUnaryOperator"@, l, d1);
    let d2 = d1.push(name_tok("IntUnaryOperator"@, l));
    reads_name(s, b, text, 25, 32, "andThen"@, l, d2);
    let d3 = d2.push(name_tok("andThen"@, l));
    reads_sign(s, b, text, 32, Tok::LParen, l, d3);
    let d4 = d3.push(sign_tok(Tok::LParen, l));
    reads_name_space(s, b, text, 33, 50, "IntUnaryOperator"@, l, d4);
    let d5 = d4.push(name_tok("IntUnaryOperator"@, l));
    reads_name(s, b, text, 50, 55, "after"@, l, d5);
    let d6 = d5.push(name_tok("after"@, l));
    reads_sign(s, b, text, 55, Tok::RParen, l, d6);
    let d7 = d6.push(sign_tok(Tok::RParen, l));
    reads_space(s, b, text, 56, l, d7);
    reads_sign(s, b, text, 57, Tok::LBrace, l, d7);
    let d8 = d7.push(sign_tok(Tok::LBrace, l));
    reads_space(s, b, text, 58, l, d8);
    reads_key_space(s, b, text, 59, 66, "return"@, Tok::Return, l, d8);
    let d9 = d8.push(sign_tok(Tok::Return, l));
    reads_name_space(s, b, text, 66, 68, "v"@, l, d9);
    let d10 = d9.push(name_tok("v"@, l));
    reads_operator_sign(s, b, text, 68, 70, Tok::Arrow, l, d10);
    let d11 = d10.push(sign_tok(Tok::Arrow, l));
    reads_space(s, b, text, 70, l, d11);
    reads_name(s, b, text, 71, 76, "after"@, l, d11);
    let d12 = d11.push(name_tok("after"@, l));
    reads_sign(s, b, text, 76, Tok::Dot, l, d12);
    let d13 = d12.push(sign_tok(Tok::Dot, l));
    reads_name(s, b, text, 77, 87, "applyAsInt"@, l, d13);
    let d14 = d13.push(name_tok("applyAsInt"@, l));
    reads_sign(s, b, text, 87, Tok::LParen, l, d14);
    let d15 = d14.push(sign_tok(Tok::LParen, l));
    reads_name(s, b, text, 88, 92, "this"@, l, d15);
    let d16 = d15.push(name_tok("this"@, l));
    reads_sign(s, b, text, 92, Tok::Dot, l, d16);
    let d17 = d16.push(sign_tok(Tok::Dot, l));
    reads_name(s, b, text, 93, 103, "applyAsInt"@, l, d17);
    let d18 = d17.push(name_tok("applyAsInt"@, l));
    reads_sign(s, b, text, 103, Tok::LParen, l, d18);
    let d19 = d18.push(sign_tok(Tok::LParen, l));
    reads_name(s, b, text, 104, 105, "v"@, l, d19);
    let d20 = d19.push(name_tok("v"@, l));
    reads_sign(s, b, text, 105, Tok::RParen, l, d20);
    let d21 = d20.push(sign_tok(Tok::RParen, l));
    reads_sign(s, b, text, 106, Tok::RParen, l, d21);
    let d22 = d21.push(sign_tok(Tok::RParen, l));
    reads_sign(s, b, text, 107, Tok::Semi, l, d22);
    let d23 = d22.push(sign_tok(Tok::Semi, l));
    reads_space(s, b, text, 108, l, d23);
    reads_sign(s, b, text, 109, Tok::RBrace, l, d23);
    let d24 = d23.push(sign_tok(Tok::RBrace, l));
    assert(d24 =~= done + int_unary_operator_and_then_tokens(l));
}

/// The tokens are read as one method.
pub proof fn stands_int_unary_operator_and_then(t: Seq<TokenV>, name: Seq<char>, p: int, l: int)
    requires
        0 <= p,
        p + 24 < t.len(),
        t.subrange(p, p + 24) == int_unary_operator_and_then_tokens(l),
    ensures
        stands(t, name, p, p + 24),
{
    words_are_known();
    let u = int_unary_operator_and_then_tokens(l);
    assert forall|k: int| 0 <= k < 24 implies t[p + k] == #[trigger] u[k] by {
        assert(t.subrange(p, p + 24)[k] == u[k]);
    }
    assert(t[p] == u[0] && t[p + 1] == u[1] && t[p + 2] == u[2] && t[p + 3] == u[3]);
    assert(t[p + 4] == u[4] && t[p + 5] == u[5] && t[p + 6] == u[6] && t[p + 7] == u[7]);
    assert(t[p + 8] == u[8] && t[p + 9] == u[9] && t[p + 10] == u[10] && t[p + 11] == u[11]);
    assert(t[p + 12] == u[12] && t[p + 13] == u[13] && t[p + 14] == u[14] && t[p + 15] == u[15]);
    assert(t[p + 16] == u[16] && t[p + 17] == u[17] && t[p + 18] == u[18] && t[p + 19] == u[19]);
    assert(t[p + 20] == u[20] && t[p + 21] == u[21] && t[p + 22] == u[22] && t[p + 23] == u[23]);
    reads_last_parameter(t, p + 4);
    reads_parameters(t, p + 4, p + 6);
    reads_chain_end(t, p + 20);
    reads_variable(t, p + 19, p + 20);
    reads_no_operator(t, 0u8, p + 20);
    reads_operation(t, 0u8, p + 19, p + 20, p + 20);
    reads_simple(t, p + 19, p + 20);
    reads_last_argument(t, p + 19, p + 20);
    reads_arguments(t, p + 18, p + 21);
    reads_chain_end(t, p + 21);
    reads_chained_call(t, p + 16, p + 21, p + 21);
    reads_this(t, p + 15, p + 21);
    reads_no_operator(t, 0u8, p + 21);
    reads_operation(t, 0u8, p + 15, p + 21, p + 21);
    reads_simple(t, p + 15, p + 21);
    reads_last_argument(t, p + 15, p + 21);
    reads_arguments(t, p + 14, p + 22);
    reads_chain_end(t, p + 22);
    reads_chained_call(t, p + 12, p + 22, p + 22);
    reads_variable(t, p + 11, p + 22);
    reads_no_operator(t, 0u8, p + 22);
    reads_operation(t, 0u8, p + 11, p + 22, p + 22);
    reads_simple(t, p + 11, p + 22);
    reads_expression_body(t, p + 11, p + 22);
    reads_lambda(t, p + 9, p + 22);
    reads_return(t, p + 8, p + 22);
    reads_block_end(t, p + 23);
    reads_next_statement(t, p + 8, p + 23, p + 24);
    reads_block(t, p + 8, p + 24);
    reads_method(t, name, p, p + 1, p + 6, p + 24);
}

/// The tokens of `static IntUnaryOperator identity()`.
pub open spec fn int_unary_operator_identity_tokens(l: int) -> Seq<TokenV> {
    seq![
        sign_tok(Tok::Static, l), name_tok("IntUnaryOperator"@, l), name_tok("identity"@, l),
        sign_tok(Tok::LParen, l), sign_tok(Tok::RParen, l), sign_tok(Tok::LBrace, l),
        sign_tok(Tok::Return, l), name_tok("v"@, l), sign_tok(Tok::Arrow, l), name_tok("v"@, l),
        sign_tok(Tok::Semi, l), sign_tok(Tok::RBrace, l),
    ]
}

/// Its text.
pub open spec fn int_unary_operator_identity_text() -> Seq<char> {
    "static IntUnaryOperator identity() { return v -> v; }"@
}

/// Where the words and signs of the text stand.
pub proof fn spelling_of_int_unary_operator_identity()
    ensures
        int_unary_operator_identity_text().len() == 53,
        spells(int_unary_operator_identity_text(), 0, "static"@),
        spells(int_unary_operator_identity_text(), 7, "IntUnaryOperator"@),
        spells(int_unary_operator_identity_text(), 24, "identity"@),
        spells(int_unary_operator_identity_text(), 37, "return"@),
        spells(int_unary_operator_identity_text(), 44, "v"@),
        spells(int_unary_operator_identity_text(), 49, "v"@),
        int_unary_operator_identity_text()[6] == ' ',
        int_unary_operator_identity_text()[23] == ' ',
        int_unary_operator_identity_text()[32] == '(',
        int_unary_operator_identity_text()[33] == ')',
        int_unary_operator_identity_text()[34] == ' ',
        int_unary_operator_identity_text()[35] == '{',
        int_unary_operator_identity_text()[36] == ' ',
        int_unary_operator_identity_text()[43] == ' ',
        int_unary_operator_identity_text()[45] == ' ',
        int_unary_operator_identity_text()[46] == '-',
        int_unary_operator_identity_text()[47] == '>',
        int_unary_operator_identity_text()[48] == ' ',
        int_unary_operator_identity_text()[50] == ';',
        int_unary_operator_identity_text()[51] == ' ',
        int_unary_operator_identity_text()[52] == '}',
{
    reveal_strlit("static IntUnaryOperator identity() { return v -> v; }");
    reveal_strlit("IntUnaryOperator");
    reveal_strlit("identity");
    reveal_strlit("return");
    reveal_strlit("static");
    reveal_strlit("v");
}

/// The text is lexed as these tokens.
pub proof fn lexes_int_unary_operator_identity(s: Seq<char>, b: int, l: int, done: Seq<TokenV>)
    requires
        spells(s, b, int_unary_operator_identity_text()),
    ensures
        rest(s, b, l, done) == rest(s, b + 53, l, done + int_unary_operator_identity_tokens(l)),
{
    words_are_known();
    spelling_of_int_unary_operator_identity();
    let text = int_unary_operator_identity_text();
    let d0 = done;
    reads_key_space(s, b, text, 0, 7, "static"@, Tok::Static, l, d0);
    let d1 = d0.push(sign_tok(Tok::Static, l));
    reads_name_space(s, b, text, 7, 24, "IntUnaryOperator"@, l, d1);
    let d2 = d1.push(name_tok("IntUnaryOperator"@, l));
    reads_name(s, b, text, 24, 32, "identity"@, l, d2);
    let d3 = d2.push(name_tok("identity"@, l));
    reads_sign(s, b, text, 32, Tok::LParen, l, d3);
    let d4 = d3.push(sign_tok(Tok::LParen, l));
    reads_sign(s, b, text, 33, Tok::RParen, l, d4);
    let d5 = d4.push(sign_tok(Tok::RParen, l));
    reads_space(s, b, text, 34, l, d5);
    reads_sign(s, b, text, 35, Tok::LBrace, l, d5);
    let d6 = d5.push(sign_tok(Tok::LBrace, l));
    reads_space(s, b, text, 36, l, d6);
    reads_key_space(s, b, text, 37, 44, "return"@, Tok::Return, l, d6);
    let d7 = d6.push(sign_tok(Tok::Return, l));
    reads_name_space(s, b, text, 44, 46, "v"@, l, d7);
    let d8 = d7.push(name_tok("v"@, l));
    reads_operator_sign(s, b, text, 46, 48, Tok::Arrow, l, d8);
    let d9 = d8.push(sign_tok(Tok::Arrow, l));
    reads_space(s, b, text, 48, l, d9);
    reads_name(s, b, text, 49, 50, "v"@, l, d9);
    let d10 = d9.push(name_tok("v"@, l));
    reads_sign(s, b, text, 50, Tok::Semi, l, d10);
    let d11 = d10.push(sign_tok(Tok::Semi, l));
    reads_space(s, b, text, 51, l, d11);
    reads_sign(s, b, text, 52, Tok::RBrace, l, d11);
    let d12 = d11.push(sign_tok(Tok::RBrace, l));
    assert(d12 =~= done + int_unary_operator_identity_tokens(l));
}

/// The tokens are read as one method.
pub proof fn stands_int_unary_operator_identity(t: Seq<TokenV>, name: Seq<char>, p: int, l: int)
    requires
        0 <= p,
        p + 12 < t.len(),
        t.subrange(p, p + 12) == int_unary_operator_identity_tokens(l),
    ensures
        stands(t, name, p, p + 12),
{
    words_are_known();
    let u = int_unary_operator_identity_tokens(l);
    assert forall|k: int| 0 <= k < 12 implies t[p + k] == #[trigger] u[k] by {
        assert(t.subrange(p, p + 12)[k] == u[k]);
    }
    assert(t[p] == u[0] && t[p + 1] == u[1] && t[p + 2] == u[2] && t[p + 3] == u[3]);
    assert(t[p + 4] == u[4] && t[p + 5] == u[5] && t[p + 6] == u[6] && t[p + 7] == u[7]);
    assert(t[p + 8] == u[8] && t[p + 9] == u[9] && t[p + 10] == u[10] && t[p + 11] == u[11]);
    reads_no_parameters(t, p + 4);
    reads_chain_end(t, p + 10);
    reads_variable(t, p + 9, p + 10);
    reads_no_operator(t, 0u8, p + 10);
    reads_operation(t, 0u8, p + 9, p + 10, p + 10);
    reads_simple(t, p + 9, p + 10);
    reads_expression_body(t, p + 9, p + 10);
    reads_lambda(t, p + 7, p + 10);
    reads_return(t, p + 6, p + 10);
    reads_block_end(t, p + 11);
    reads_next_statement(t, p + 6, p + 11, p + 12);
    reads_block(t, p + 6, p + 12);
    reads_method(t, name, p, p + 1, p + 4, p + 12);
}

} // verus!
