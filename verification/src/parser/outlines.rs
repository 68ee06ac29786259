//! What the parser reads of classes: fields, constructors and methods that are
//! written out are read back as the members of their class.
use vstd::prelude::*;

use crate::ast::{
    AssignOp, ClassV, CtorV, EnumConstantV, ExprV, FieldDeclV, MethodV, ParamV, StmtKindV, StmtV,
};
use crate::injection::reading::{is_at, starts_member};
use crate::lexer::{Tok, TokenV};
use crate::parser::classes::{
    BodyV, HeaderV, UnitV, class_decl, class_header, class_made, constants_rest, extended, member,
    members_rest, nested_ahead, no_body, plain_member, record_ahead, static_block_ahead,
    with_fields,
};
use crate::parser::forms::{block_is_read, block_out, can_write_block};
use crate::parser::grammar::{
    Read, Rule, applied, block, by_the_rule, opt_init, opt_init_rule, read, var_init_rule,
};
use crate::parser::members::{
    Slot, after_modifiers, ctor_ahead, ctor_rule, field_decls, fields_rule, main_ahead,
    main_method, method_rule, static_in,
};
use crate::parser::names::{
    brackets, declarator, declared_type, param, params, params_rest, simple_type,
};
use crate::parser::synthesis::{bare_fields, initial_values};
use crate::parser::tokens::{Place, kind_at, step};
use crate::parser::trees::{
    can_write, holds, lemma_holds_both, lemma_starts, no_arrows, on, reads, spelled_out, word,
    written_is_read,
};
use crate::prelude::functional;

verus! {

/// A member of a class.
pub enum Part {
    Method { method: MethodV, fixed: bool },
    Maker(CtorV),
    Variable { field: FieldDeclV, fixed: bool },
}

/// A type that is returned; `void` is a word of its own.
pub open spec fn returned_out(ty: Seq<char>, l: u32) -> TokenV {
    if ty == "void"@ {
        on(Tok::Void, l)
    } else {
        word(ty, l)
    }
}

/// The mark of what belongs to the class and not to its objects.
pub open spec fn fixed_out(fixed: bool, l: u32) -> Seq<TokenV> {
    if fixed {
        seq![on(Tok::Static, l)]
    } else {
        seq![]
    }
}

/// Parameters with commas between them.
pub open spec fn params_out(ps: Seq<ParamV>, l: u32) -> Seq<TokenV>
    decreases ps.len(),
{
    if ps.len() == 0 {
        seq![]
    } else if ps.len() == 1 {
        seq![word(ps[0].ty, l), word(ps[0].name, l)]
    } else {
        seq![word(ps[0].ty, l), word(ps[0].name, l), on(Tok::Comma, l)] + params_out(
            ps.subrange(1, ps.len() as int),
            l,
        )
    }
}

/// A member written out.
pub open spec fn part_out(p: Part, l: u32) -> Seq<TokenV> {
    match p {
        Part::Method { method, fixed } => fixed_out(fixed, l) + (seq![
            returned_out(method.ret, l),
            word(method.name, l),
            on(Tok::LParen, l),
        ] + (params_out(method.params, l) + (seq![on(Tok::RParen, l)] + block_out(method.body, l)))),
        Part::Maker(c) => params_out(c.params, l),
        Part::Variable { field, fixed } => fixed_out(fixed, l) + (seq![
            word(field.ty, l),
            word(field.name, l),
        ] + (match field.init {
            Some(e) => seq![on(Tok::Assign, l)] + spelled_out(e, l),
            None => seq![],
        } + seq![on(Tok::Semi, l)])),
    }
}

/// A member of the class of a name written out: a constructor bears that name.
pub open spec fn member_out(name: Seq<char>, p: Part, l: u32) -> Seq<TokenV> {
    match p {
        Part::Maker(c) => seq![word(name, l), on(Tok::LParen, l)] + (params_out(c.params, l) + (seq![
            on(Tok::RParen, l),
        ] + block_out(c.body, l))),
        _ => part_out(p, l),
    }
}

/// Whether a member can be written out.
pub open spec fn can_write_member(name: Seq<char>, p: Part, l: u32) -> bool {
    match p {
        Part::Method { method, fixed } => method.owner == name && method.line == l
            && !method.is_abstract && can_write_block(method.body, l) && starts_member(method.ret)
            && plain_params(method.params) && !(fixed && method.name == "main"@),
        Part::Maker(c) => c.line == l && can_write_block(c.body, l) && plain_params(c.params),
        Part::Variable { field, fixed } => field.line == l && starts_member(field.ty) && match field.init {
            Some(e) => can_write(e, l),
            None => true,
        },
    }
}

/// Whether no parameter is of variable arity.
pub open spec fn plain_params(ps: Seq<ParamV>) -> bool {
    forall|k: int| 0 <= k < ps.len() ==> !(#[trigger] ps[k]).varargs
}

// ── Parameters ──────────────────────────────────────────────────────────────

proof fn lemma_one_param(t: Seq<TokenV>, i: int, st: Place)
    requires
        0 <= i < t.len() - 2,
        t[i].kind == Tok::Ident,
        t[i + 1].kind == Tok::Ident,
        t[i + 2].kind == Tok::RParen || t[i + 2].kind == Tok::Comma,
        is_at(st, i),
    ensures
        is_at(param(t, st).1, i + 2),
        param(t, st).0 == (ParamV { ty: t[i].text, name: t[i + 1].text, varargs: false }),
{
    let (ty, s) = declared_type(t, st);
    assert(is_at(s, i + 1) && ty == t[i].text);
    assert(is_at(declarator(t, s, ty).1, i + 2));
    assert(declarator(t, s, ty).0 == (t[i + 1].text, ty));
}

proof fn lemma_params_on(t: Seq<TokenV>, i: int, st: Place, out: Seq<ParamV>, ps: Seq<ParamV>, l: u32)
    requires
        ps.len() > 0,
        plain_params(ps),
        holds(t, i, params_out(ps, l)),
        t[i + params_out(ps, l).len()].kind == Tok::RParen,
        is_at(st, i),
    ensures
        is_at(params_rest(t, st, out).1, i + params_out(ps, l).len()),
        params_rest(t, st, out).0 == out + ps,
    decreases ps.len(),
{
    let w = params_out(ps, l);
    assert(t[i + 0] == w[0] && t[i + 1] == w[1]);
    assert(!ps[0].varargs);
    if ps.len() == 1 {
        lemma_one_param(t, i, st);
        assert(out.push(ps[0]) =~= out + ps);
    } else {
        let rest = ps.subrange(1, ps.len() as int);
        let head = seq![word(ps[0].ty, l), word(ps[0].name, l), on(Tok::Comma, l)];
        lemma_holds_both(t, i, head, params_out(rest, l));
        assert(t[i + 2] == head[2]);
        lemma_one_param(t, i, st);
        assert forall|k: int| 0 <= k < rest.len() implies !(#[trigger] rest[k]).varargs by {
            assert(!ps[k + 1].varargs);
        }
        let s = param(t, st).1;
        lemma_params_on(t, i + 3, step(t, s), out.push(ps[0]), rest, l);
        assert(out.push(ps[0]) + rest =~= out + ps);
    }
}

proof fn lemma_params(t: Seq<TokenV>, i: int, st: Place, ps: Seq<ParamV>, l: u32)
    requires
        plain_params(ps),
        holds(t, i, params_out(ps, l)),
        t[i + params_out(ps, l).len()].kind == Tok::RParen,
        is_at(st, i),
    ensures
        is_at(params(t, st).1, i + params_out(ps, l).len()),
        params(t, st).0 == ps,
{
    if ps.len() == 0 {
        assert(ps =~= seq![]);
    } else {
        assert(t[i + 0] == params_out(ps, l)[0]);
        lemma_params_on(t, i, st, seq![], ps, l);
        assert(Seq::<ParamV>::empty() + ps =~= ps);
    }
}

// ── Members ─────────────────────────────────────────────────────────────────

/// What a member adds to the body of its class, and to what is collected.
pub open spec fn with_part(b: BodyV, u: UnitV, line: u32, p: Part) -> (BodyV, UnitV) {
    match p {
        Part::Method { method, fixed } => if fixed {
            (b, UnitV { methods: u.methods.push(method), ..u })
        } else {
            (BodyV { methods: b.methods.push(method), ..b }, u)
        },
        Part::Maker(c) => (BodyV { ctors: b.ctors.push(c), ..b }, u),
        Part::Variable { field, fixed } => {
            let bare = FieldDeclV { init: None, ..field };
            if fixed {
                (
                    BodyV {
                        static_fields: b.static_fields.push(bare),
                        static_init: match field.init {
                            Some(e) => b.static_init.push(
                                StmtV {
                                    line,
                                    kind: StmtKindV::Assign {
                                        name: field.name,
                                        op: AssignOp::Assign,
                                        value: e,
                                    },
                                },
                            ),
                            None => b.static_init,
                        },
                        ..b
                    },
                    u,
                )
            } else {
                (
                    BodyV {
                        fields: b.fields.push(bare),
                        inst_init: match field.init {
                            Some(e) => b.inst_init.push(
                                StmtV {
                                    line,
                                    kind: StmtKindV::FieldAssign {
                                        recv: ExprV::This,
                                        name: field.name,
                                        op: AssignOp::Assign,
                                        value: e,
                                    },
                                },
                            ),
                            None => b.inst_init,
                        },
                        ..b
                    },
                    u,
                )
            }
        },
    }
}

proof fn lemma_block_at(t: Seq<TokenV>, i: int, st: Place, b: Seq<StmtV>, l: u32)
    requires
        can_write_block(b, l),
        no_arrows(t, i),
        holds(t, i, block_out(b, l)),
        is_at(st, i + 1),
    ensures
        is_at(block(t, st).1, i + block_out(b, l).len()),
        block(t, st).0 == b,
        t[i].kind == Tok::LBrace,
{
    block_is_read(t, i, b, l);
    reveal(reads);
    assert(is_at(read(t, Rule::Block, st).1, i + block_out(b, l).len()));
}

proof fn lemma_void()
    ensures
        starts_member("void"@),
{
    reveal_strlit("void");
    reveal_strlit("final");
    reveal_strlit("abstract");
    reveal_strlit("private");
    reveal_strlit("protected");
    reveal_strlit("synchronized");
    reveal_strlit("native");
    reveal_strlit("volatile");
    reveal_strlit("transient");
    reveal_strlit("interface");
    reveal_strlit("enum");
    reveal_strlit("record");
    assert("void"@.len() == 4 && "enum"@[0] == 'e' && "void"@[0] == 'v');
}

/// A method that is written out is added to its class with its type, its name, its
/// parameters in their order and its body; one of the class is collected.
#[verifier::rlimit(80)]
proof fn method_is_read(
    t: Seq<TokenV>,
    i: int,
    st: Place,
    h: HeaderV,
    b: BodyV,
    u: UnitV,
    m: MethodV,
    fixed: bool,
    l: u32,
)
    requires
        can_write_member(h.name, (Part::Method { method: m, fixed }), l),
        !h.is_record,
        no_arrows(t, i),
        holds(t, i, part_out((Part::Method { method: m, fixed }), l)),
        is_at(st, i),
    ensures
        is_at(
            member(t, st, h, b, u).1,
            i + part_out((Part::Method { method: m, fixed }), l).len(),
        ),
        member(t, st, h, b, u).0 == with_part(b, u, h.line, (Part::Method { method: m, fixed })),
{
    let f = fixed_out(fixed, l);
    let head = seq![returned_out(m.ret, l), word(m.name, l), on(Tok::LParen, l)];
    let ps = params_out(m.params, l);
    let close = seq![on(Tok::RParen, l)];
    let body = block_out(m.body, l);
    lemma_holds_both(t, i, f, head + (ps + (close + body)));
    let e = i + f.len();
    lemma_holds_both(t, e, head, ps + (close + body));
    lemma_holds_both(t, e + 3, ps, close + body);
    let k = e + 3 + ps.len();
    lemma_holds_both(t, k, close, body);
    if fixed {
        assert(t[i + 0] == f[0]);
    }
    assert(t[e + 0] == head[0] && t[e + 1] == head[1] && t[e + 2] == head[2]);
    assert(t[k + 0] == close[0]);
    lemma_void();
    assert(after_modifiers(t, e, Slot::Main) == e);
    assert(after_modifiers(t, e, Slot::Class) == e);
    assert(after_modifiers(t, e, Slot::Ctor) == e);
    assert(after_modifiers(t, e, Slot::Method) == e);
    assert(after_modifiers(t, i, Slot::Main) == e);
    assert(after_modifiers(t, i, Slot::Class) == e);
    assert(after_modifiers(t, i, Slot::Ctor) == e);
    assert(after_modifiers(t, i, Slot::Method) == e);
    assert(!main_ahead(t, i)) by {
        if !fixed {
            assert(!static_in(t, i, e));
        }
    }
    assert(!nested_ahead(t, i));
    assert(!ctor_ahead(t, i, h.name));
    assert(!static_block_ahead(t, i));
    reveal(plain_member);
    reveal(method_rule);
    let at = Place { pos: e, ..st };
    let (ret, s) = declared_type(t, at);
    assert(is_at(s, e + 1) && ret == m.ret);
    let s1 = step(t, step(t, s));
    assert(is_at(s1, e + 3));
    lemma_params(t, e + 3, s1, m.params, l);
    let s2 = step(t, params(t, s1).1);
    assert(is_at(s2, k + 1));
    let s3 = step(t, s2);
    lemma_block_at(t, k + 1, s3, m.body, l);
    assert(static_in(t, i, e) == fixed) by {
        if fixed {
            assert(kind_at(t, i) == Tok::Static);
        }
    }
}

/// A constructor that is written out is added to its class with its parameters in
/// their order and its body.
#[verifier::rlimit(80)]
proof fn maker_is_read(t: Seq<TokenV>, i: int, st: Place, h: HeaderV, b: BodyV, u: UnitV, c: CtorV, l: u32)
    requires
        can_write_member(h.name, Part::Maker(c), l),
        starts_member(h.name),
        !h.is_record,
        no_arrows(t, i),
        holds(t, i, member_out(h.name, Part::Maker(c), l)),
        is_at(st, i),
    ensures
        is_at(member(t, st, h, b, u).1, i + member_out(h.name, Part::Maker(c), l).len()),
        member(t, st, h, b, u).0 == with_part(b, u, h.line, Part::Maker(c)),
{
    let head = seq![word(h.name, l), on(Tok::LParen, l)];
    let ps = params_out(c.params, l);
    let close = seq![on(Tok::RParen, l)];
    let body = block_out(c.body, l);
    lemma_holds_both(t, i, head, ps + (close + body));
    lemma_holds_both(t, i + 2, ps, close + body);
    let k = i + 2 + ps.len();
    lemma_holds_both(t, k, close, body);
    assert(t[i + 0] == head[0] && t[i + 1] == head[1]);
    assert(t[k + 0] == close[0]);
    assert(after_modifiers(t, i, Slot::Main) == i);
    assert(after_modifiers(t, i, Slot::Class) == i);
    assert(after_modifiers(t, i, Slot::Ctor) == i);
    assert(!main_ahead(t, i));
    assert(!nested_ahead(t, i));
    assert(ctor_ahead(t, i, h.name));
    reveal(plain_member);
    reveal(ctor_rule);
    let s1 = step(t, step(t, st));
    assert(is_at(s1, i + 2));
    lemma_params(t, i + 2, s1, c.params, l);
    let s2 = step(t, params(t, s1).1);
    assert(is_at(s2, k + 1));
    lemma_block_at(t, k + 1, step(t, s2), c.body, l);
}

/// A field that is written out is added to its class with its type and its name,
/// and its value is assigned where its objects are made, or where the class is.
#[verifier::rlimit(80)]
proof fn variable_is_read(
    t: Seq<TokenV>,
    i: int,
    st: Place,
    h: HeaderV,
    b: BodyV,
    u: UnitV,
    f: FieldDeclV,
    fixed: bool,
    l: u32,
)
    requires
        can_write_member(h.name, (Part::Variable { field: f, fixed }), l),
        !h.is_record,
        no_arrows(t, i),
        holds(t, i, part_out((Part::Variable { field: f, fixed }), l)),
        is_at(st, i),
    ensures
        is_at(
            member(t, st, h, b, u).1,
            i + part_out((Part::Variable { field: f, fixed }), l).len(),
        ),
        member(t, st, h, b, u).0 == with_part(b, u, h.line, (Part::Variable { field: f, fixed })),
{
    let mark = fixed_out(fixed, l);
    let head = seq![word(f.ty, l), word(f.name, l)];
    let value = match f.init {
        Some(x) => seq![on(Tok::Assign, l)] + spelled_out(x, l),
        None => seq![],
    };
    let end = seq![on(Tok::Semi, l)];
    lemma_holds_both(t, i, mark, head + (value + end));
    let e = i + mark.len();
    lemma_holds_both(t, e, head, value + end);
    lemma_holds_both(t, e + 2, value, end);
    let k = e + 2 + value.len();
    if fixed {
        assert(t[i + 0] == mark[0]);
    }
    assert(t[e + 0] == head[0] && t[e + 1] == head[1]);
    assert(t[k + 0] == end[0]);
    assert(after_modifiers(t, e, Slot::Main) == e);
    assert(after_modifiers(t, e, Slot::Class) == e);
    assert(after_modifiers(t, e, Slot::Ctor) == e);
    assert(after_modifiers(t, e, Slot::Method) == e);
    assert(after_modifiers(t, e, Slot::Field) == e);
    assert(after_modifiers(t, i, Slot::Main) == e);
    assert(after_modifiers(t, i, Slot::Class) == e);
    assert(after_modifiers(t, i, Slot::Ctor) == e);
    assert(after_modifiers(t, i, Slot::Method) == e);
    assert(after_modifiers(t, i, Slot::Field) == e);
    assert(!main_ahead(t, i));
    assert(!nested_ahead(t, i));
    assert(!ctor_ahead(t, i, h.name));
    assert(!static_block_ahead(t, i));
    reveal(plain_member);
    reveal(method_rule);
    reveal(fields_rule);
    let at = Place { pos: e, ..st };
    let (base, s) = declared_type(t, at);
    assert(is_at(s, e + 1) && base == f.ty);
    match f.init {
        Some(x) => {
            let sign = seq![on(Tok::Assign, l)];
            lemma_holds_both(t, e + 2, sign, spelled_out(x, l));
            assert(t[e + 2 + 0] == sign[0]);
            lemma_starts(x, l);
            assert(t[e + 3 + 0] == spelled_out(x, l)[0]);
            written_is_read(t, e + 3, x, l);
        },
        None => {},
    }
    let back = method_rule(t, st, h.name).1;
    assert(method_rule(t, st, h.name).0 is None && is_at(back, i));
    let at2 = Place { pos: e, ..back };
    let (base2, s2) = declared_type(t, at2);
    assert(is_at(s2, e + 1) && base2 == f.ty);
    lemma_field(t, e + 1, s2, base2, k, f);
    assert(static_in(t, i, e) == fixed) by {
        if fixed {
            assert(kind_at(t, i) == Tok::Static);
        }
    }
    let fs = seq![f];
    assert(fields_rule(t, back).0 == Some((fs, fixed)));
    assert(bare_fields(fs) =~= seq![FieldDeclV { init: None, ..f }]);
    assert(fs.drop_last() =~= seq![]);
    assert(fs.last() == f);
    assert(initial_values(h.line, Seq::<FieldDeclV>::empty(), true) =~= seq![]);
    assert(initial_values(h.line, Seq::<FieldDeclV>::empty(), false) =~= seq![]);
    let made = with_fields(b, h.line, fs, fixed);
    let want = with_part(b, u, h.line, Part::Variable { field: f, fixed }).0;
    assert(made.fields =~= want.fields);
    assert(made.static_fields =~= want.static_fields);
    assert(made.static_init =~= want.static_init);
    assert(made.inst_init =~= want.inst_init);
}

proof fn lemma_field(t: Seq<TokenV>, i: int, st: Place, base: Seq<char>, k: int, f: FieldDeclV)
    requires
        0 <= i < t.len() - 2,
        t[i].kind == Tok::Ident,
        t[i].text == f.name,
        t[i].line == f.line,
        base == f.ty,
        match f.init {
            Some(x) => t[i + 1].kind == Tok::Assign && t[i + 2].kind != Tok::LBrace && reads(
                t,
                Rule::Expression,
                i + 2,
                k,
                Read::Expr(x),
            ),
            None => k == i + 1,
        },
        k < t.len() - 1,
        t[k].kind == Tok::Semi,
        is_at(st, i),
    ensures
        field_decls(t, st, base, seq![]).0 == seq![f],
        is_at(field_decls(t, st, base, seq![]).1, k),
{
    reveal(reads);
    let s0 = declarator(t, st, base).1;
    assert(is_at(s0, i + 1) && declarator(t, st, base).0 == (f.name, base));
    by_the_rule(t, Rule::OptInit, s0);
    reveal(applied);
    reveal(opt_init_rule);
    by_the_rule(t, Rule::VarInit, step(t, s0));
    reveal(var_init_rule);
    assert(Seq::<FieldDeclV>::empty().push(f) =~= seq![f]);
    assert(opt_init(t, s0).0 == f.init);
    assert(is_at(opt_init(t, s0).1, k));
}

/// A member that is written out is read back as it is.
pub proof fn member_is_read(t: Seq<TokenV>, i: int, st: Place, h: HeaderV, b: BodyV, u: UnitV, p: Part, l: u32)
    requires
        can_write_member(h.name, p, l),
        starts_member(h.name),
        !h.is_record,
        no_arrows(t, i),
        holds(t, i, member_out(h.name, p, l)),
        is_at(st, i),
    ensures
        is_at(member(t, st, h, b, u).1, i + member_out(h.name, p, l).len()),
        member(t, st, h, b, u).0 == with_part(b, u, h.line, p),
{
    match p {
        Part::Method { method, fixed } => {
            method_is_read(t, i, st, h, b, u, method, fixed, l);
        },
        Part::Maker(c) => {
            maker_is_read(t, i, st, h, b, u, c, l);
        },
        Part::Variable { field, fixed } => {
            variable_is_read(t, i, st, h, b, u, field, fixed, l);
        },
    }
}

// ── Classes ─────────────────────────────────────────────────────────────────

/// Members one behind another.
pub open spec fn members_out(name: Seq<char>, ps: Seq<Part>, l: u32) -> Seq<TokenV>
    decreases ps.len(),
{
    if ps.len() == 0 {
        seq![]
    } else {
        member_out(name, ps[0], l) + members_out(name, ps.subrange(1, ps.len() as int), l)
    }
}

/// What members add to a body and to what is collected, in their order.
pub open spec fn with_parts(b: BodyV, u: UnitV, line: u32, ps: Seq<Part>) -> (BodyV, UnitV)
    decreases ps.len(),
{
    if ps.len() == 0 {
        (b, u)
    } else {
        let (b2, u2) = with_part(b, u, line, ps[0]);
        with_parts(b2, u2, line, ps.subrange(1, ps.len() as int))
    }
}

/// Whether all members can be written out.
pub open spec fn can_write_members(name: Seq<char>, ps: Seq<Part>, l: u32) -> bool {
    forall|k: int| 0 <= k < ps.len() ==> can_write_member(name, #[trigger] ps[k], l)
}

proof fn lemma_member_starts(name: Seq<char>, p: Part, l: u32)
    requires
        can_write_member(name, p, l),
    ensures
        member_out(name, p, l).len() > 0,
        member_out(name, p, l)[0].kind != Tok::RBrace,
        member_out(name, p, l)[0].kind != Tok::Eof,
{
    match p {
        Part::Method { method, fixed } => {
            if !fixed {
                assert(member_out(name, p, l)[0] == returned_out(method.ret, l));
            }
        },
        Part::Maker(c) => {},
        Part::Variable { field, fixed } => {
            if !fixed {
                assert(member_out(name, p, l)[0] == word(field.ty, l));
            }
        },
    }
}

proof fn lemma_members(
    t: Seq<TokenV>,
    i: int,
    st: Place,
    h: HeaderV,
    b: BodyV,
    u: UnitV,
    ps: Seq<Part>,
    l: u32,
)
    requires
        can_write_members(h.name, ps, l),
        starts_member(h.name),
        !h.is_record,
        no_arrows(t, i),
        holds(t, i, members_out(h.name, ps, l)),
        i + members_out(h.name, ps, l).len() < t.len() - 1,
        t[i + members_out(h.name, ps, l).len()].kind == Tok::RBrace,
        is_at(st, i),
    ensures
        is_at(members_rest(t, st, h, b, u).1, i + members_out(h.name, ps, l).len() + 1),
        members_rest(t, st, h, b, u).0 == with_parts(b, u, h.line, ps),
    decreases ps.len(),
{
    if ps.len() > 0 {
        let rest = ps.subrange(1, ps.len() as int);
        let w = member_out(h.name, ps[0], l);
        lemma_holds_both(t, i, w, members_out(h.name, rest, l));
        assert(can_write_member(h.name, ps[0], l));
        lemma_member_starts(h.name, ps[0], l);
        assert(t[i + 0] == w[0]);
        member_is_read(t, i, st, h, b, u, ps[0], l);
        assert forall|k: int| 0 <= k < rest.len() implies can_write_member(
            h.name,
            #[trigger] rest[k],
            l,
        ) by {
            assert(can_write_member(h.name, ps[k + 1], l));
        }
        let ((b2, u2), s) = member(t, st, h, b, u);
        lemma_members(t, i + w.len(), s, h, b2, u2, rest, l);
    }
}

/// A class with a superclass, or without one, written out.
pub open spec fn class_out(name: Seq<char>, sup: Option<Seq<char>>, ps: Seq<Part>, l: u32) -> Seq<TokenV> {
    (match sup {
        Some(s) => seq![
            on(Tok::Class, l),
            word(name, l),
            word("extends"@, l),
            word(s, l),
            on(Tok::LBrace, l),
        ],
        None => seq![on(Tok::Class, l), word(name, l), on(Tok::LBrace, l)],
    }) + (members_out(name, ps, l) + seq![on(Tok::RBrace, l)])
}

/// A class that is written out is read back with its name, its superclass and its
/// members, each in its place; what is of the class and no field is collected.
#[verifier::rlimit(80)]
pub proof fn class_is_read(
    t: Seq<TokenV>,
    i: int,
    st: Place,
    u: UnitV,
    name: Seq<char>,
    sup: Option<Seq<char>>,
    ps: Seq<Part>,
    l: u32,
)
    requires
        can_write_members(name, ps, l),
        starts_member(name),
        no_arrows(t, i),
        holds(t, i, class_out(name, sup, ps, l)),
        is_at(st, i),
    ensures
        ({
            let r = class_decl(t, st, None, u);
            let (b, u2) = with_parts(no_body(), u, l, ps);
            let c = r.0.classes.last();
            &&& is_at(r.1, i + class_out(name, sup, ps, l).len())
            &&& r.0 == (UnitV { classes: u2.classes.push(c), ..u2 })
            &&& c.name == name && c.binary == name
            &&& c.superclass == sup && c.interfaces.len() == 0
            &&& !c.is_interface && !c.is_enum && !c.is_record
            &&& c.fields == b.fields && c.static_fields == b.static_fields
            &&& c.inst_init == b.inst_init && c.static_init == b.static_init
            &&& c.ctors == b.ctors && c.methods == b.methods
        }),
{
    let head = match sup {
        Some(s) => seq![
            on(Tok::Class, l),
            word(name, l),
            word("extends"@, l),
            word(s, l),
            on(Tok::LBrace, l),
        ],
        None => seq![on(Tok::Class, l), word(name, l), on(Tok::LBrace, l)],
    };
    let body = members_out(name, ps, l);
    let end = seq![on(Tok::RBrace, l)];
    lemma_holds_both(t, i, head, body + end);
    let k = i + head.len();
    lemma_holds_both(t, k, body, end);
    assert(t[i + 0] == head[0] && t[i + 1] == head[1] && t[i + 2] == head[2]);
    if sup is Some {
        assert(t[i + 3] == head[3] && t[i + 4] == head[4]);
    }
    assert(t[k + body.len() + 0] == end[0]);
    assert(after_modifiers(t, i, Slot::Class) == i);
    reveal(class_header);
    if sup is Some {
        let s = Place { pos: i + 3, ..st };
        let (ty, s0) = declared_type(t, s);
        assert(is_at(s0, i + 4) && ty == sup->0);
        assert(is_at(extended(t, s, false, None, seq![]).1, i + 4));
        assert(extended(t, s, false, None, seq![]).0 == (Some(ty), Seq::<Seq<char>>::empty()));
    }
    let (h, s) = class_header(t, st, None);
    assert(h.name == name && h.superclass == sup && h.interfaces.len() == 0 && h.line == l);
    assert(h.binary == name && !h.is_enum && !h.is_record && !h.is_interface);
    assert(is_at(s, k));
    assert(UnitV { classes: u.classes, ..u } == u);
    lemma_members(t, k, s, h, no_body(), u, ps, l);
    reveal(class_made);
}

// ── Entry points, records, enums and interfaces ─────────────────────────────

/// The entry point written out, up to its body.
pub open spec fn entry_out(arg: Seq<char>, l: u32) -> Seq<TokenV> {
    seq![
        on(Tok::Public, l),
        on(Tok::Static, l),
        on(Tok::Void, l),
        word("main"@, l),
        on(Tok::LParen, l),
        word("String"@, l),
        on(Tok::LBracket, l),
        on(Tok::RBracket, l),
        word(arg, l),
        on(Tok::RParen, l),
    ]
}

/// The entry point is collected with the name of its class, its body and the name
/// of its parameter.
#[verifier::rlimit(80)]
pub proof fn entry_is_read(
    t: Seq<TokenV>,
    i: int,
    st: Place,
    h: HeaderV,
    b: BodyV,
    u: UnitV,
    arg: Seq<char>,
    body: Seq<StmtV>,
    l: u32,
)
    requires
        can_write_block(body, l),
        no_arrows(t, i),
        holds(t, i, entry_out(arg, l) + block_out(body, l)),
        is_at(st, i),
    ensures
        is_at(member(t, st, h, b, u).1, i + 10 + block_out(body, l).len()),
        member(t, st, h, b, u).0.0 == b,
        ({
            let made = member(t, st, h, b, u).0.1;
            &&& made == (UnitV { entry: made.entry, ..u })
            &&& made.entry matches Some(x) && x.class_name == h.name && x.body == body && x.param
                == Some(arg)
        }),
{
    let w = entry_out(arg, l);
    lemma_holds_both(t, i, w, block_out(body, l));
    assert(t[i + 0] == w[0] && t[i + 1] == w[1] && t[i + 2] == w[2] && t[i + 3] == w[3]);
    assert(t[i + 4] == w[4] && t[i + 5] == w[5] && t[i + 6] == w[6] && t[i + 7] == w[7]);
    assert(t[i + 8] == w[8] && t[i + 9] == w[9]);
    assert(after_modifiers(t, i + 2, Slot::Main) == i + 2);
    assert(after_modifiers(t, i + 1, Slot::Main) == i + 2);
    assert(after_modifiers(t, i, Slot::Main) == i + 2);
    assert(kind_at(t, i + 1) == Tok::Static);
    assert(main_ahead(t, i));
    assert(!static_block_ahead(t, i));
    reveal(main_method);
    let s = Place { pos: i + 5, ..st };
    let (ty, s1) = simple_type(t, s);
    assert(ty == "String"@ && is_at(s1, i + 6));
    let s2 = Place { fun: s1.fun || functional(ty), ..s1 };
    let s3 = step(t, step(t, s2));
    assert(is_at(s3, i + 8));
    assert(brackets(t, ty + "[]"@, s3) == (ty + "[]"@, s3));
    assert(brackets(t, ty, s2) == (ty + "[]"@, s3));
    assert(declared_type(t, s) == (ty + "[]"@, s3));
    let p = param(t, s);
    assert(is_at(p.1, i + 9) && p.0.name == arg);
    assert(params_rest(t, s, seq![]) == (Seq::<ParamV>::empty().push(p.0), p.1));
    assert(params(t, s).0[0].name == arg);
    let s4 = step(t, params(t, s).1);
    assert(is_at(s4, i + 10));
    lemma_block_at(t, i + 10, step(t, s4), body, l);
}

/// The header of a record gives its name and its components in their order, that
/// of an interface or an enum its name and what it is.
#[verifier::rlimit(80)]
pub proof fn headers_are_read(t: Seq<TokenV>, i: int, st: Place, name: Seq<char>, ps: Seq<ParamV>, l: u32)
    requires
        plain_params(ps),
        is_at(st, i),
    ensures
        holds(
            t,
            i,
            seq![word("record"@, l), word(name, l), on(Tok::LParen, l)] + (params_out(ps, l) + seq![
                on(Tok::RParen, l),
                on(Tok::LBrace, l),
            ]),
        ) ==> ({
            let (h, s) = class_header(t, st, None);
            &&& is_at(s, i + 5 + params_out(ps, l).len())
            &&& h.name == name && h.is_record && !h.is_enum && !h.is_interface
            &&& h.components == ps && h.superclass is None && h.interfaces.len() == 0
        }),
        holds(t, i, seq![word("interface"@, l), word(name, l), on(Tok::LBrace, l)]) ==> ({
            let (h, s) = class_header(t, st, None);
            &&& is_at(s, i + 3)
            &&& h.name == name && h.is_interface && !h.is_enum && !h.is_record
        }),
        holds(t, i, seq![word("enum"@, l), word(name, l), on(Tok::LBrace, l)]) ==> ({
            let (h, s) = class_header(t, st, None);
            &&& is_at(s, i + 3)
            &&& h.name == name && h.is_enum && !h.is_interface && !h.is_record
        }),
{
    lemma_header_words();
    reveal(class_header);
    let rec = seq![word("record"@, l), word(name, l), on(Tok::LParen, l)];
    let w = params_out(ps, l);
    let end = seq![on(Tok::RParen, l), on(Tok::LBrace, l)];
    if holds(t, i, rec + (w + end)) {
        lemma_holds_both(t, i, rec, w + end);
        lemma_holds_both(t, i + 3, w, end);
        let k = i + 3 + w.len();
        assert(t[i + 0] == rec[0] && t[i + 1] == rec[1] && t[i + 2] == rec[2]);
        assert(t[k + 0] == end[0] && t[k + 1] == end[1]);
        assert(after_modifiers(t, i, Slot::Class) == i);
        assert(record_ahead(t, i));
        let s = Place { pos: i + 3, ..st };
        lemma_params(t, i + 3, s, ps, l);
    }
    let face = seq![word("interface"@, l), word(name, l), on(Tok::LBrace, l)];
    if holds(t, i, face) {
        assert(t[i + 0] == face[0] && t[i + 1] == face[1] && t[i + 2] == face[2]);
        assert(after_modifiers(t, i, Slot::Class) == i);
    }
    let many = seq![word("enum"@, l), word(name, l), on(Tok::LBrace, l)];
    if holds(t, i, many) {
        assert(t[i + 0] == many[0] && t[i + 1] == many[1] && t[i + 2] == many[2]);
        assert(after_modifiers(t, i, Slot::Class) == i);
    }
}

proof fn lemma_header_words()
    ensures
        "record"@ != "final"@ && "record"@ != "abstract"@ && "record"@ != "interface"@ && "record"@
            != "enum"@,
        "interface"@ != "final"@ && "interface"@ != "abstract"@ && "interface"@ != "enum"@
            && "interface"@ != "record"@,
        "enum"@ != "final"@ && "enum"@ != "abstract"@ && "enum"@ != "interface"@ && "enum"@
            != "record"@,
{
    reveal_strlit("record");
    reveal_strlit("interface");
    reveal_strlit("enum");
    reveal_strlit("final");
    reveal_strlit("abstract");
    assert("record"@.len() == 6 && "interface"@.len() == 9 && "enum"@.len() == 4);
    assert("final"@.len() == 5 && "abstract"@.len() == 8);
}

/// Names with commas between them.
pub open spec fn names_out(names: Seq<Seq<char>>, l: u32) -> Seq<TokenV>
    decreases names.len(),
{
    if names.len() == 0 {
        seq![]
    } else if names.len() == 1 {
        seq![word(names[0], l)]
    } else {
        seq![word(names[0], l), on(Tok::Comma, l)] + names_out(
            names.subrange(1, names.len() as int),
            l,
        )
    }
}

/// The constants of an enum are read in their order, each with its name and
/// without arguments.
pub proof fn constants_are_read(
    t: Seq<TokenV>,
    i: int,
    st: Place,
    owner: Seq<char>,
    out: Seq<EnumConstantV>,
    classes: Seq<ClassV>,
    names: Seq<Seq<char>>,
    l: u32,
)
    requires
        names.len() > 0,
        holds(t, i, names_out(names, l)),
        t[i + names_out(names, l).len()].kind == Tok::RBrace,
        is_at(st, i),
    ensures
        ({
            let ((made, all), s) = constants_rest(t, st, owner, out, classes);
            &&& is_at(s, i + names_out(names, l).len())
            &&& all == classes
            &&& made.len() == out.len() + names.len()
            &&& forall|k: int| 0 <= k < out.len() ==> #[trigger] made[k] == out[k]
            &&& forall|k: int|
                0 <= k < names.len() ==> (#[trigger] made[out.len() + k]).name == names[k]
                    && made[out.len() + k].args.len() == 0 && made[out.len() + k].body_class is None
        }),
    decreases names.len(),
{
    let w = names_out(names, l);
    assert(t[i + 0] == w[0]);
    let made = EnumConstantV { name: names[0], line: l, args: seq![], body_class: None };
    if names.len() > 1 {
        let rest = names.subrange(1, names.len() as int);
        let head = seq![word(names[0], l), on(Tok::Comma, l)];
        lemma_holds_both(t, i, head, names_out(rest, l));
        assert(t[i + 1] == head[1]);
        let s = step(t, step(t, st));
        assert(is_at(s, i + 2));
        constants_are_read(t, i + 2, s, owner, out.push(made), classes, rest, l);
        let all = constants_rest(t, s, owner, out.push(made), classes).0.0;
        assert(constants_rest(t, st, owner, out, classes) == constants_rest(
            t,
            s,
            owner,
            out.push(made),
            classes,
        ));
        assert forall|k: int| 0 <= k < out.len() implies #[trigger] all[k] == out[k] by {
            assert(all[k] == out.push(made)[k]);
        }
        assert forall|k: int| 0 <= k < names.len() implies (#[trigger] all[out.len() + k]).name
            == names[k] && all[out.len() + k].args.len() == 0 && all[out.len() + k].body_class is None by {
            if k == 0 {
                assert(all[out.len() as int] == out.push(made)[out.len() as int]);
            } else {
                assert(all[out.push(made).len() + (k - 1)].name == rest[k - 1]);
            }
        }
    } else {
        assert(constants_rest(t, st, owner, out, classes).0.0 == out.push(made));
    }
}

} // verus!
