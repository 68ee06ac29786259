//! Reading classes, and a program as the classes it consists of.
use vstd::prelude::*;

use crate::ast::{
    Class, ClassV, Ctor, CtorV, EnumConstant, EnumConstantV, Expr, ExprV, FieldDecl, FieldDeclV,
    Method, MethodV, Param, ParamV, Program, ProgramV, Stmt, StmtV, body_class_name, class_views,
    constant_views, ctor_views, enum_body_class, expr_views, field_decl_views, method_views,
    param_views, stmt_views,
};
use crate::lexer::{Tok, TokenV};
use crate::parser::exprs::{push_word, with_line};
use crate::parser::grammar::{at_line, block, call_args};
use crate::parser::members::{
    Slot, after_modifiers, ctor_ahead, ctor_rule, fields_rule, main_ahead, main_method,
    member_end, method_rule,
};
use crate::parser::names::{declared_type, params, skipped_generics};
use crate::parser::stmts::no_stmts;
use crate::parser::synthesis::{
    bare_fields, copy_params, enum_fields, enum_members, enum_methods, initial_values,
    instance_declaration, record_ctors, record_fields, record_members, record_methods,
    static_declaration,
};
use crate::parser::tokens::{
    Parser, Place, eat, eat_if, failed, halted, ident, kind_at, left, line_at, moved, step,
    text_of_token, word_at,
};
use crate::prelude::{is_throwable, opt_view, throwable};
use crate::text::{own, views};

verus! {

broadcast use crate::parser::grammar::first_error_stays;

/// The entry point: the class that declares it, its body, and the name of its
/// parameter.
pub struct Entry {
    pub class_name: String,
    pub body: Vec<Stmt>,
    pub param: Option<String>,
}

pub struct EntryV {
    pub class_name: Seq<char>,
    pub body: Seq<StmtV>,
    pub param: Option<Seq<char>>,
}

/// What the classes of a program are collected into.
pub struct Unit {
    pub entry: Option<Entry>,
    pub methods: Vec<Method>,
    pub classes: Vec<Class>,
}

pub struct UnitV {
    pub entry: Option<EntryV>,
    pub methods: Seq<MethodV>,
    pub classes: Seq<ClassV>,
}

impl View for Unit {
    type V = UnitV;

    open spec fn view(&self) -> UnitV {
        UnitV {
            entry: match self.entry {
                Some(e) => Some(
                    EntryV {
                        class_name: e.class_name@,
                        body: stmt_views(e.body@),
                        param: opt_view(e.param),
                    },
                ),
                None => None,
            },
            methods: method_views(self.methods@),
            classes: class_views(self.classes@),
        }
    }
}

/// What stands before the members of a class.
pub struct Header {
    pub line: u32,
    pub name: String,
    pub binary: String,
    pub is_interface: bool,
    pub is_enum: bool,
    pub is_record: bool,
    pub components: Vec<Param>,
    pub superclass: Option<String>,
    pub interfaces: Vec<String>,
}

pub struct HeaderV {
    pub line: u32,
    pub name: Seq<char>,
    pub binary: Seq<char>,
    pub is_interface: bool,
    pub is_enum: bool,
    pub is_record: bool,
    pub components: Seq<ParamV>,
    pub superclass: Option<Seq<char>>,
    pub interfaces: Seq<Seq<char>>,
}

impl View for Header {
    type V = HeaderV;

    open spec fn view(&self) -> HeaderV {
        HeaderV {
            line: self.line,
            name: self.name@,
            binary: self.binary@,
            is_interface: self.is_interface,
            is_enum: self.is_enum,
            is_record: self.is_record,
            components: param_views(self.components@),
            superclass: opt_view(self.superclass),
            interfaces: views(self.interfaces@),
        }
    }
}

/// The members of a class, as far as they are read. `compact` is the place of
/// the first compact constructor among the constructors.
pub struct Body {
    pub fields: Vec<FieldDecl>,
    pub static_fields: Vec<FieldDecl>,
    pub static_init: Vec<Stmt>,
    pub inst_init: Vec<Stmt>,
    pub ctors: Vec<Ctor>,
    pub methods: Vec<Method>,
    pub compact: Option<usize>,
}

pub struct BodyV {
    pub fields: Seq<FieldDeclV>,
    pub static_fields: Seq<FieldDeclV>,
    pub static_init: Seq<StmtV>,
    pub inst_init: Seq<StmtV>,
    pub ctors: Seq<CtorV>,
    pub methods: Seq<MethodV>,
    pub compact: Option<int>,
}

impl View for Body {
    type V = BodyV;

    open spec fn view(&self) -> BodyV {
        BodyV {
            fields: field_decl_views(self.fields@),
            static_fields: field_decl_views(self.static_fields@),
            static_init: stmt_views(self.static_init@),
            inst_init: stmt_views(self.inst_init@),
            ctors: ctor_views(self.ctors@),
            methods: method_views(self.methods@),
            compact: match self.compact {
                Some(i) => Some(i as int),
                None => None,
            },
        }
    }
}

impl Body {
    /// The compact constructor is one of the constructors.
    pub open spec fn wf(&self) -> bool {
        self.compact is Some ==> self.compact->0 < self.ctors.len()
    }

    /// A body without members.
    fn none() -> (r: Body)
        ensures
            r@ == no_body(),
            r.wf(),
    {
        let r: Body = Body {
            fields: Vec::new(),
            static_fields: Vec::new(),
            static_init: no_stmts(),
            inst_init: no_stmts(),
            ctors: Vec::new(),
            methods: Vec::new(),
            compact: None,
        };
        assert(r@.fields =~= seq![]);
        assert(r@.static_fields =~= seq![]);
        assert(r@.ctors =~= seq![]);
        assert(r@.methods =~= seq![]);
        r
    }
}

/// A body without members.
pub open spec fn no_body() -> BodyV {
    BodyV {
        fields: seq![],
        static_fields: seq![],
        static_init: seq![],
        inst_init: seq![],
        ctors: seq![],
        methods: seq![],
        compact: None,
    }
}

// ── The header ──────────────────────────────────────────────────────────────

/// Whether a `record` starts here. The word alone may be a name.
pub open spec fn record_ahead(t: Seq<TokenV>, j: int) -> bool {
    word_at(t, j, "record"@) && kind_at(t, j + 1) == Tok::Ident && (kind_at(t, j + 2)
        == Tok::LParen || kind_at(t, j + 2) == Tok::Lt)
}

/// Whether a class starts here, behind its modifiers.
pub open spec fn nested_ahead(t: Seq<TokenV>, j: int) -> bool {
    let e = after_modifiers(t, j, Slot::Class);
    kind_at(t, e) == Tok::Class || word_at(t, e, "interface"@) || word_at(t, e, "enum"@)
        || record_ahead(t, e)
}

/// The types behind `extends`, of which a class keeps the last as its
/// superclass and an interface all.
pub open spec fn extended(
    t: Seq<TokenV>,
    st: Place,
    is_interface: bool,
    superclass: Option<Seq<char>>,
    interfaces: Seq<Seq<char>>,
) -> ((Option<Seq<char>>, Seq<Seq<char>>), Place)
    decreases left(t, st),
{
    if left(t, st) == 0 {
        ((superclass, interfaces), halted(st))
    } else {
        let (ty, s0) = declared_type(t, st);
        let s1 = moved(t, st, s0);
        let s = Place { exc: s1.exc || throwable(ty), ..s1 };
        let sup = if is_interface {
            superclass
        } else {
            Some(ty)
        };
        let ifs = if is_interface {
            interfaces.push(ty)
        } else {
            interfaces
        };
        if s.err is None && kind_at(t, s.pos) == Tok::Comma {
            extended(t, step(t, s), is_interface, sup, ifs)
        } else {
            ((sup, ifs), s)
        }
    }
}

/// The types behind `implements`.
pub open spec fn implemented(t: Seq<TokenV>, st: Place, out: Seq<Seq<char>>) -> (
    Seq<Seq<char>>,
    Place,
)
    decreases left(t, st),
{
    if left(t, st) == 0 {
        (out, halted(st))
    } else {
        let (ty, s0) = declared_type(t, st);
        let s = moved(t, st, s0);
        if s.err is None && kind_at(t, s.pos) == Tok::Comma {
            implemented(t, step(t, s), out.push(ty))
        } else {
            (out.push(ty), s)
        }
    }
}

/// The supertypes of a class.
pub open spec fn supertypes_here(t: Seq<TokenV>, st: Place, is_interface: bool) -> (
    (Option<Seq<char>>, Seq<Seq<char>>),
    Place,
) {
    let ((sup, ifs), s) = if st.err is None && word_at(t, st.pos, "extends"@) {
        extended(t, step(t, st), is_interface, None, seq![])
    } else {
        ((None, seq![]), st)
    };
    if s.err is None && word_at(t, s.pos, "implements"@) {
        let (all, s2) = implemented(t, step(t, s), ifs);
        ((sup, all), s2)
    } else {
        ((sup, ifs), s)
    }
}

/// The components in the header of a record.
pub open spec fn components_here(t: Seq<TokenV>, st: Place, is_record: bool) -> (
    Seq<ParamV>,
    Place,
) {
    if is_record {
        let (ps, s) = params(t, eat(t, st, Tok::LParen));
        (ps, eat(t, s, Tok::RParen))
    } else {
        (seq![], st)
    }
}

/// The name of a class in a running program: nested ones are joined by a dollar
/// sign.
pub open spec fn nested_name(outer: Option<Seq<char>>, name: Seq<char>) -> Seq<char> {
    match outer {
        Some(o) => o + "$"@ + name,
        None => name,
    }
}

/// What stands before the members of a class, up to the opening brace.
#[verifier::opaque]
pub open spec fn class_header(t: Seq<TokenV>, st: Place, outer: Option<Seq<char>>) -> (
    HeaderV,
    Place,
) {
    let at = Place { pos: after_modifiers(t, st.pos, Slot::Class), ..st };
    let is_interface = word_at(t, at.pos, "interface"@);
    let is_enum = word_at(t, at.pos, "enum"@);
    let is_record = record_ahead(t, at.pos);
    let s0 = if is_interface || is_enum || is_record {
        step(t, at)
    } else {
        eat(t, at, Tok::Class)
    };
    let (name, s1) = ident(t, s0);
    let (components, s2) = components_here(t, skipped_generics(t, s1), is_record);
    let ((superclass, interfaces), s3) = supertypes_here(t, s2, is_interface);
    (
        HeaderV {
            line: line_at(t, at.pos),
            name,
            binary: nested_name(outer, name),
            is_interface,
            is_enum,
            is_record,
            components,
            superclass,
            interfaces,
        },
        eat(t, s3, Tok::LBrace),
    )
}

// ── Enum constants ──────────────────────────────────────────────────────────

/// A declaration of fields added to a body.
pub open spec fn with_fields(b: BodyV, line: u32, fs: Seq<FieldDeclV>, is_static: bool) -> BodyV {
    if is_static {
        BodyV {
            static_fields: b.static_fields + bare_fields(fs),
            static_init: b.static_init + initial_values(line, fs, false),
            ..b
        }
    } else {
        BodyV {
            fields: b.fields + bare_fields(fs),
            inst_init: b.inst_init + initial_values(line, fs, true),
            ..b
        }
    }
}

/// The message of a member that the body of a constant cannot have.
pub open spec fn no_such_member(owner: Seq<char>, constant: Seq<char>, line: u32) -> Seq<char> {
    at_line(
        "javars: unsupported member in the body of enum constant `"@ + owner + "."@ + constant
            + "`"@,
        line,
    )
}

/// The members in the body of an enum constant, up to its closing brace.
pub open spec fn constant_members(
    t: Seq<TokenV>,
    st: Place,
    owner: Seq<char>,
    constant: Seq<char>,
    line: u32,
    b: BodyV,
) -> (BodyV, Place)
    decreases left(t, st),
{
    if left(t, st) == 0 {
        (b, halted(st))
    } else if kind_at(t, st.pos) == Tok::RBrace || kind_at(t, st.pos) == Tok::Eof {
        (b, eat(t, st, Tok::RBrace))
    } else {
        let (method, s) = method_rule(t, st, body_class_name(owner, constant));
        match method {
            Some((m, _)) => constant_members(
                t,
                moved(t, st, s),
                owner,
                constant,
                line,
                BodyV { methods: b.methods.push(m), ..b },
            ),
            None => {
                let (fields, s2) = fields_rule(t, s);
                match fields {
                    Some((fs, is_static)) => constant_members(
                        t,
                        moved(t, st, s2),
                        owner,
                        constant,
                        line,
                        with_fields(b, line, fs, is_static),
                    ),
                    None => if s2.err is Some {
                        (b, s2)
                    } else {
                        (b, failed(s2, no_such_member(owner, constant, line_at(t, s2.pos))))
                    },
                }
            },
        }
    }
}

/// The class that the body of an enum constant is: a subclass of the enum.
pub open spec fn constant_class(
    owner: Seq<char>,
    constant: Seq<char>,
    line: u32,
    b: BodyV,
) -> ClassV {
    ClassV {
        name: body_class_name(owner, constant),
        binary: body_class_name(owner, constant),
        superclass: Some(owner),
        interfaces: seq![],
        is_interface: false,
        is_enum: false,
        is_record: false,
        enum_constants: seq![],
        fields: b.fields,
        static_fields: b.static_fields,
        static_init: b.static_init,
        inst_init: b.inst_init,
        ctors: seq![],
        methods: b.methods,
        line,
    }
}

/// The arguments of an enum constant, if it has some.
pub open spec fn constant_args(t: Seq<TokenV>, st: Place) -> (Seq<ExprV>, Place) {
    if st.err is None && kind_at(t, st.pos) == Tok::LParen {
        call_args(t, st)
    } else {
        (seq![], st)
    }
}

/// The body of an enum constant, if it has one, as a class.
pub open spec fn constant_body(
    t: Seq<TokenV>,
    st: Place,
    owner: Seq<char>,
    constant: Seq<char>,
    line: u32,
) -> (Option<ClassV>, Place) {
    if st.err is None && kind_at(t, st.pos) == Tok::LBrace {
        let (b, s) = constant_members(t, step(t, st), owner, constant, line, no_body());
        (Some(constant_class(owner, constant, line, b)), s)
    } else {
        (None, st)
    }
}

/// The constants of an enum, with the classes of their bodies. A semicolon may
/// end them.
pub open spec fn constants_rest(
    t: Seq<TokenV>,
    st: Place,
    owner: Seq<char>,
    out: Seq<EnumConstantV>,
    classes: Seq<ClassV>,
) -> ((Seq<EnumConstantV>, Seq<ClassV>), Place)
    decreases left(t, st),
{
    if left(t, st) == 0 {
        ((out, classes), halted(st))
    } else if kind_at(t, st.pos) != Tok::Ident {
        ((out, classes), eat_if(t, st, Tok::Semi))
    } else {
        let line = line_at(t, st.pos);
        let name = text_of_token(t, st.pos);
        let (args, s1) = constant_args(t, step(t, st));
        let (class, s2) = constant_body(t, s1, owner, name, line);
        let s = moved(t, st, s2);
        let next = out.push(
            EnumConstantV {
                name,
                line,
                args,
                body_class: match class {
                    Some(c) => Some(c.name),
                    None => None,
                },
            },
        );
        let all = match class {
            Some(c) => classes.push(c),
            None => classes,
        };
        if s.err is None && kind_at(t, s.pos) == Tok::Comma {
            constants_rest(t, step(t, s), owner, next, all)
        } else {
            ((next, all), eat_if(t, s, Tok::Semi))
        }
    }
}

// ── Members ─────────────────────────────────────────────────────────────────

/// Whether a block that initializes the class starts here.
pub open spec fn static_block_ahead(t: Seq<TokenV>, j: int) -> bool {
    kind_at(t, j) == Tok::Static && kind_at(t, j + 1) == Tok::LBrace
}

/// Whether a compact constructor starts here.
pub open spec fn compact_ahead(t: Seq<TokenV>, j: int, h: HeaderV) -> bool {
    h.is_record && word_at(t, j, h.name) && kind_at(t, j + 1) == Tok::LBrace
}

/// A member that is no class, no entry point and no block of the class: a
/// constructor, a method, fields, a block of the instance, or what is skipped.
#[verifier::opaque]
pub open spec fn plain_member(t: Seq<TokenV>, st: Place, h: HeaderV, b: BodyV, u: UnitV) -> (
    (BodyV, UnitV),
    Place,
) {
    if st.err is Some {
        ((b, u), st)
    } else if compact_ahead(t, st.pos, h) {
        let (body, s) = block(t, step(t, step(t, st)));
        let made = CtorV { params: h.components, body, line: line_at(t, st.pos) };
        (
            (
                BodyV {
                    ctors: b.ctors.push(made),
                    compact: match b.compact {
                        Some(i) => Some(i),
                        None => Some(b.ctors.len() as int),
                    },
                    ..b
                },
                u,
            ),
            s,
        )
    } else if ctor_ahead(t, st.pos, h.name) {
        let (made, s) = ctor_rule(t, st);
        ((BodyV { ctors: b.ctors.push(made), ..b }, u), s)
    } else {
        let (method, s) = method_rule(t, st, h.name);
        match method {
            Some((m, is_static)) => if is_static {
                ((b, UnitV { methods: u.methods.push(m), ..u }), s)
            } else {
                ((BodyV { methods: b.methods.push(m), ..b }, u), s)
            },
            None => {
                let (fields, s2) = fields_rule(t, s);
                match fields {
                    Some((fs, is_static)) => ((with_fields(b, h.line, fs, is_static), u), s2),
                    None => if s2.err is Some {
                        ((b, u), s2)
                    } else if kind_at(t, s2.pos) == Tok::LBrace {
                        let (body, s3) = block(t, step(t, s2));
                        ((BodyV { inst_init: b.inst_init + body, ..b }, u), s3)
                    } else {
                        ((b, u), Place { pos: member_end(t, s2.pos), ..s2 })
                    },
                }
            },
        }
    }
}

/// The class made of a header, its constants and its members, with what every
/// enum and record has.
#[verifier::opaque]
pub open spec fn class_made(h: HeaderV, constants: Seq<EnumConstantV>, b: BodyV) -> ClassV {
    let fields = if h.is_enum {
        enum_fields(b.fields, h.line)
    } else {
        b.fields
    };
    let methods = if h.is_enum {
        enum_methods(b.methods, h.name, h.line)
    } else {
        b.methods
    };
    ClassV {
        name: h.name,
        binary: h.binary,
        superclass: h.superclass,
        interfaces: h.interfaces,
        is_interface: h.is_interface,
        is_enum: h.is_enum,
        is_record: h.is_record,
        enum_constants: constants,
        fields: if h.is_record {
            record_fields(fields, h.components, h.line)
        } else {
            fields
        },
        static_fields: b.static_fields,
        static_init: b.static_init,
        inst_init: b.inst_init,
        ctors: if h.is_record {
            record_ctors(b.ctors, h.components, b.compact, h.line)
        } else {
            b.ctors
        },
        methods: if h.is_record {
            record_methods(methods, h.components, h.name, h.line)
        } else {
            methods
        },
        line: h.line,
    }
}

/// A class, added to what is collected with what stands inside it.
pub open spec fn class_decl(t: Seq<TokenV>, st: Place, outer: Option<Seq<char>>, u: UnitV) -> (
    UnitV,
    Place,
)
    decreases left(t, st), 1int,
{
    if left(t, st) == 0 {
        (u, halted(st))
    } else {
        let (h, s) = class_header(t, st, outer);
        let ((constants, classes), s2) = if h.is_enum {
            constants_rest(t, s, h.name, seq![], u.classes)
        } else {
            ((seq![], u.classes), s)
        };
        let ((b, u2), s3) = members_rest(
            t,
            moved(t, st, s2),
            h,
            no_body(),
            UnitV { classes, ..u },
        );
        (UnitV { classes: u2.classes.push(class_made(h, constants, b)), ..u2 }, s3)
    }
}

/// The members from a place on, up to the closing brace.
pub open spec fn members_rest(t: Seq<TokenV>, st: Place, h: HeaderV, b: BodyV, u: UnitV) -> (
    (BodyV, UnitV),
    Place,
)
    decreases left(t, st), 3int,
{
    if left(t, st) == 0 {
        ((b, u), halted(st))
    } else if kind_at(t, st.pos) == Tok::RBrace || kind_at(t, st.pos) == Tok::Eof {
        ((b, u), eat(t, st, Tok::RBrace))
    } else {
        let ((b2, u2), s) = member(t, st, h, b, u);
        members_rest(t, moved(t, st, s), h, b2, u2)
    }
}

/// One member.
pub open spec fn member(t: Seq<TokenV>, st: Place, h: HeaderV, b: BodyV, u: UnitV) -> (
    (BodyV, UnitV),
    Place,
)
    decreases left(t, st), 2int,
{
    if left(t, st) == 0 {
        ((b, u), halted(st))
    } else if static_block_ahead(t, st.pos) {
        let (body, s) = block(t, step(t, step(t, st)));
        ((BodyV { static_init: b.static_init + body, ..b }, u), s)
    } else if main_ahead(t, st.pos) {
        let ((body, param), s) = main_method(t, st);
        ((b, UnitV { entry: Some(EntryV { class_name: h.name, body, param }), ..u }), s)
    } else if nested_ahead(t, st.pos) {
        let (u2, s) = class_decl(t, st, Some(h.binary), u);
        ((b, u2), s)
    } else {
        plain_member(t, st, h, b, u)
    }
}

// ── Programs ────────────────────────────────────────────────────────────────

/// The first semicolon from a place on, or the end.
pub open spec fn semicolon_from(t: Seq<TokenV>, j: int) -> int
    decreases t.len() - j,
{
    if j < 0 || j >= t.len() || t[j].kind == Tok::Eof || t[j].kind == Tok::Semi {
        j
    } else {
        semicolon_from(t, j + 1)
    }
}

/// The place after the lines that name packages.
pub open spec fn after_prologue(t: Seq<TokenV>, st: Place) -> Place
    decreases left(t, st),
{
    if left(t, st) > 0 && (word_at(t, st.pos, "package"@) || word_at(t, st.pos, "import"@)) {
        after_prologue(
            t,
            moved(t, st, eat(t, Place { pos: semicolon_from(t, st.pos), ..st }, Tok::Semi)),
        )
    } else {
        st
    }
}

/// The classes from a place on, up to the end.
pub open spec fn classes_rest(t: Seq<TokenV>, st: Place, u: UnitV) -> (UnitV, Place)
    decreases left(t, st),
{
    if left(t, st) == 0 {
        (u, halted(st))
    } else if kind_at(t, st.pos) == Tok::Eof {
        (u, st)
    } else {
        let (u2, s) = class_decl(t, st, None, u);
        classes_rest(t, moved(t, st, s), u2)
    }
}

/// What is collected before anything is read.
pub open spec fn no_unit() -> UnitV {
    UnitV { entry: None, methods: seq![], classes: seq![] }
}

/// The program that tokens spell, or the error.
pub open spec fn program_of(t: Seq<TokenV>) -> Result<ProgramV, Seq<char>> {
    let start = Place { pos: 0, exc: false, fun: false, depth: 0, err: None };
    let (u, s) = classes_rest(t, after_prologue(t, start), no_unit());
    match s.err {
        Some(m) => Err(m),
        None => match u.entry {
            Some(e) => Ok(
                ProgramV {
                    class_name: e.class_name,
                    main: e.body,
                    main_param: e.param,
                    methods: u.methods,
                    classes: u.classes,
                    uses_exceptions: s.exc,
                    uses_functional: s.fun,
                },
            ),
            None => Err("javars: no class declares `public static void main(String[] args)`"@),
        },
    }
}

impl Parser {
    /// Whether a `record` starts here.
    fn record_at(&self, j: usize) -> (r: bool)
        requires
            self.wf(),
        ensures
            r == record_ahead(self.t(), j as int),
    {
        self.is_word(j, "record") && self.at(j + 1) == Tok::Ident && (self.at(j + 2)
            == Tok::LParen || self.at(j + 2) == Tok::Lt)
    }

    /// Whether a class starts here, behind its modifiers.
    fn at_nested_class(&self) -> (r: bool)
        requires
            self.wf(),
        ensures
            r == nested_ahead(self.t(), self.pos as int),
    {
        let (e, _is_static) = self.modifiers_end(self.pos, Slot::Class);
        self.at(e) == Tok::Class || self.is_word(e, "interface") || self.is_word(e, "enum")
            || self.record_at(e)
    }

    /// The supertypes of a class.
    fn supertypes(&mut self, is_interface: bool) -> (r: Result<
        (Option<String>, Vec<String>),
        String,
    >)
        requires
            old(self).wf(),
        ensures
            match r {
                Ok(x) => ((opt_view(x.0), views(x.1@)), final(self).here()) == supertypes_here(
                    old(self).t(),
                    old(self).here(),
                    is_interface,
                ) && final(self).onward(*old(self)),
                Err(m) => supertypes_here(
                    old(self).t(),
                    old(self).here(),
                    is_interface,
                ).1.err == Some(m@),
            },
            final(self).t() == old(self).t(),
    {
        let mut superclass: Option<String> = None;
        let mut interfaces: Vec<String> = Vec::new();
        assert(views(interfaces@) =~= seq![]);
        if self.eat_word("extends") {
            let mut more: bool = true;
            let ghost from = self.here();
            while more
                invariant
                    self.onward(*old(self)),
                    old(self).wf(),
                    from == step(old(self).t(), old(self).here()),
                    more ==> extended(
                        self.t(),
                        self.here(),
                        is_interface,
                        opt_view(superclass),
                        views(interfaces@),
                    ) == extended(self.t(), from, is_interface, None, seq![]),
                    !more ==> ((opt_view(superclass), views(interfaces@)), self.here())
                        == extended(self.t(), from, is_interface, None, seq![]),
                    word_at(old(self).t(), old(self).pos as int, "extends"@),
                decreases self.toks.len() - self.pos, more as int,
            {
                let ty: String = match self.declared_type() {
                    Ok(v) => v,
                    Err(m) => {
                        return Err(m);
                    },
                };
                if is_throwable(ty.as_str()) {
                    self.uses_exceptions = true;
                }
                if is_interface {
                    push_word(&mut interfaces, ty);
                } else {
                    superclass = Some(ty);
                }
                more = self.eat_if(Tok::Comma);
            }
        }
        let ghost sup = opt_view(superclass);
        let ghost ifs = views(interfaces@);
        if self.eat_word("implements") {
            let ghost from = self.here();
            loop
                invariant
                    self.onward(*old(self)),
                    sup == opt_view(superclass),
                    supertypes_here(old(self).t(), old(self).here(), is_interface) == (
                        (sup, implemented(self.t(), from, ifs).0),
                        implemented(self.t(), from, ifs).1,
                    ),
                    implemented(self.t(), self.here(), views(interfaces@)) == implemented(
                        self.t(),
                        from,
                        ifs,
                    ),
                decreases self.toks.len() - self.pos,
            {
                let ty: String = match self.declared_type() {
                    Ok(v) => v,
                    Err(m) => {
                        return Err(m);
                    },
                };
                push_word(&mut interfaces, ty);
                if !self.is(Tok::Comma) {
                    return Ok((superclass, interfaces));
                }
                self.advance();
            }
        }
        Ok((superclass, interfaces))
    }

    /// The components in the header of a record.
    fn components(&mut self, is_record: bool) -> (r: Result<Vec<Param>, String>)
        requires
            old(self).wf(),
        ensures
            match r {
                Ok(x) => (param_views(x@), final(self).here()) == components_here(
                    old(self).t(),
                    old(self).here(),
                    is_record,
                ) && final(self).onward(*old(self)),
                Err(m) => components_here(
                    old(self).t(),
                    old(self).here(),
                    is_record,
                ).1.err == Some(m@),
            },
            final(self).t() == old(self).t(),
    {
        if is_record {
            if let Err(m) = self.eat(Tok::LParen) {
                return Err(m);
            }
            let ps: Vec<Param> = match self.params() {
                Ok(v) => v,
                Err(m) => {
                    return Err(m);
                },
            };
            if let Err(m) = self.eat(Tok::RParen) {
                return Err(m);
            }
            return Ok(ps);
        }
        let none: Vec<Param> = Vec::new();
        assert(param_views(none@) =~= seq![]);
        Ok(none)
    }

    /// What stands before the members of a class.
    fn class_header(&mut self, outer: Option<&str>) -> (r: Result<Header, String>)
        requires
            old(self).wf(),
        ensures
            match r {
                Ok(x) => (x@, final(self).here()) == class_header(
                    old(self).t(),
                    old(self).here(),
                    str_view(outer),
                ) && final(self).beyond(*old(self)),
                Err(m) => class_header(
                    old(self).t(),
                    old(self).here(),
                    str_view(outer),
                ).1.err == Some(m@),
            },
            final(self).t() == old(self).t(),
    {
        proof {
            reveal(class_header);
        }
        let (e, _is_static) = self.modifiers_end(self.pos, Slot::Class);
        self.pos = e;
        let line: u32 = self.line();
        let is_interface: bool = self.at_word("interface");
        let is_enum: bool = self.at_word("enum");
        let is_record: bool = self.record_at(self.pos);
        if is_interface || is_enum || is_record {
            self.advance();
        } else {
            if let Err(m) = self.eat(Tok::Class) {
                return Err(m);
            }
        }
        let name: String = match self.ident() {
            Ok(v) => v,
            Err(m) => {
                return Err(m);
            },
        };
        let binary: String = match outer {
            Some(o) => {
                let mut b: String = own(o);
                b.append("$");
                b.append(name.as_str());
                b
            },
            None => own(name.as_str()),
        };
        self.skip_generics();
        let components: Vec<Param> = match self.components(is_record) {
            Ok(v) => v,
            Err(m) => {
                return Err(m);
            },
        };
        let supers: (Option<String>, Vec<String>) = match self.supertypes(is_interface) {
            Ok(v) => v,
            Err(m) => {
                return Err(m);
            },
        };
        if let Err(m) = self.eat(Tok::LBrace) {
            return Err(m);
        }
        Ok(
            Header {
                line,
                name,
                binary,
                is_interface,
                is_enum,
                is_record,
                components,
                superclass: supers.0,
                interfaces: supers.1,
            },
        )
    }

    /// The class that the body of an enum constant is.
    fn enum_constant_body(&mut self, owner: &str, constant: &str, line: u32) -> (r: Result<
        Class,
        String,
    >)
        requires
            old(self).wf(),
        ensures
            match r {
                Ok(x) => ({
                    let (b, s) = constant_members(
                        old(self).t(),
                        old(self).here(),
                        owner@,
                        constant@,
                        line,
                        no_body(),
                    );
                    x@ == constant_class(owner@, constant@, line, b) && final(self).here() == s
                        && final(self).beyond(*old(self))
                }),
                Err(m) => constant_members(
                    old(self).t(),
                    old(self).here(),
                    owner@,
                    constant@,
                    line,
                    no_body(),
                ).1.err == Some(m@),
            },
            final(self).t() == old(self).t(),
    {
        let name: String = enum_body_class(owner, constant);
        let mut b: Body = Body::none();
        while !self.is(Tok::RBrace) && !self.is(Tok::Eof)
            invariant
                self.onward(*old(self)),
                b.compact is None,
                b@.ctors == Seq::<CtorV>::empty(),
                name@ == body_class_name(owner@, constant@),
                constant_members(self.t(), self.here(), owner@, constant@, line, b@)
                    == constant_members(
                    old(self).t(),
                    old(self).here(),
                    owner@,
                    constant@,
                    line,
                    no_body(),
                ),
            decreases self.toks.len() - self.pos,
        {
            proof {
                reveal_with_fuel(constant_members, 2);
            }
            let ghost was = b@;
            let ghost start = self.here();
            proof {
                reveal(method_rule);
                reveal(fields_rule);
            }
            let method: Option<(Method, bool)> = match self.try_any_method(name.as_str()) {
                Ok(v) => v,
                Err(m) => {
                    return Err(m);
                },
            };
            match method {
                Some((m, _)) => {
                    let ghost one = m@;
                    b.methods.push(m);
                    assert(b@.methods =~= was.methods.push(one));
                },
                None => {
                    let found: Option<(Vec<FieldDecl>, bool)> = match self.try_fields() {
                        Ok(v) => v,
                        Err(m) => {
                            return Err(m);
                        },
                    };
                    match found {
                        Some((fs, is_static)) => {
                            if is_static {
                                static_declaration(
                                    line,
                                    fs,
                                    &mut b.static_fields,
                                    &mut b.static_init,
                                );
                            } else {
                                instance_declaration(line, fs, &mut b.fields, &mut b.inst_init);
                            }
                        },
                        None => {
                            let mut m: String = own(
                                "javars: unsupported member in the body of enum constant `",
                            );
                            m.append(owner);
                            m.append(".");
                            m.append(constant);
                            m.append("`");
                            return Err(with_line(m, self.line()));
                        },
                    }
                },
            }
        }
        if let Err(m) = self.eat(Tok::RBrace) {
            return Err(m);
        }
        let binary: String = own(name.as_str());
        let c: Class = Class {
            name,
            binary,
            superclass: Some(own(owner)),
            interfaces: Vec::new(),
            is_interface: false,
            is_enum: false,
            is_record: false,
            enum_constants: Vec::new(),
            fields: b.fields,
            static_fields: b.static_fields,
            static_init: b.static_init,
            inst_init: b.inst_init,
            ctors: Vec::new(),
            methods: b.methods,
            line,
        };
        assert(c@.interfaces =~= seq![]);
        assert(c@.enum_constants =~= seq![]);
        assert(c@.ctors =~= seq![]);
        Ok(c)
    }
}

impl Parser {
    /// The constants of an enum; the classes of their bodies are collected.
    fn enum_constants(&mut self, owner: &str, classes: &mut Vec<Class>) -> (r: Result<
        Vec<EnumConstant>,
        String,
    >)
        requires
            old(self).wf(),
        ensures
            match r {
                Ok(x) => (
                    (constant_views(x@), class_views(final(classes)@)),
                    final(self).here(),
                ) == constants_rest(
                    old(self).t(),
                    old(self).here(),
                    owner@,
                    seq![],
                    class_views(old(classes)@),
                ) && final(self).onward(*old(self)),
                Err(m) => constants_rest(
                    old(self).t(),
                    old(self).here(),
                    owner@,
                    seq![],
                    class_views(old(classes)@),
                ).1.err == Some(m@),
            },
            final(self).t() == old(self).t(),
    {
        let mut out: Vec<EnumConstant> = Vec::new();
        assert(constant_views(out@) =~= seq![]);
        let mut more: bool = self.is(Tok::Ident);
        while more
            invariant
                self.onward(*old(self)),
                more ==> kind_at(self.t(), self.pos as int) == Tok::Ident,
                ({
                    let want = constants_rest(
                        old(self).t(),
                        old(self).here(),
                        owner@,
                        seq![],
                        class_views(old(classes)@),
                    );
                    if more {
                        want == constants_rest(
                            self.t(),
                            self.here(),
                            owner@,
                            constant_views(out@),
                            class_views(classes@),
                        )
                    } else {
                        want == (
                            (constant_views(out@), class_views(classes@)),
                            eat_if(self.t(), self.here(), Tok::Semi),
                        )
                    }
                }),
            decreases self.toks.len() - self.pos, more as int,
        {
            proof {
                reveal_with_fuel(constants_rest, 2);
            }
            let ghost were = constant_views(out@);
            let ghost classes_were = class_views(classes@);
            let ghost start = self.here();
            let line: u32 = self.line();
            let name: String = self.text();
            self.advance();
            let mut args: Vec<Expr> = Vec::new();
            assert(expr_views(args@) =~= seq![]);
            if self.is(Tok::LParen) {
                match self.call_args() {
                    Ok(v) => {
                        args = v;
                    },
                    Err(m) => {
                        return Err(m);
                    },
                }
            }
            let mut body_class: Option<String> = None;
            if self.eat_if(Tok::LBrace) {
                let class: Class = match self.enum_constant_body(owner, name.as_str(), line) {
                    Ok(v) => v,
                    Err(m) => {
                        return Err(m);
                    },
                };
                body_class = Some(own(class.name.as_str()));
                let ghost one = class@;
                classes.push(class);
                assert(class_views(classes@) =~= classes_were.push(one));
            }
            let c: EnumConstant = EnumConstant { name, line, args, body_class };
            let ghost one = c@;
            out.push(c);
            assert(constant_views(out@) =~= were.push(one));
            if self.eat_if(Tok::Comma) {
                more = self.is(Tok::Ident);
            } else {
                more = false;
            }
        }
        self.eat_if(Tok::Semi);
        Ok(out)
    }

    /// A constructor, a method, fields, a block of the instance, or what is
    /// skipped.
    fn plain_member(&mut self, h: &Header, body: &mut Body, unit: &mut Unit) -> (r: Result<
        (),
        String,
    >)
        requires
            old(self).wf(),
            old(body).wf(),
            kind_at(old(self).t(), old(self).pos as int) != Tok::RBrace,
            kind_at(old(self).t(), old(self).pos as int) != Tok::Eof,
        ensures
            match r {
                Ok(_) => ((final(body)@, final(unit)@), final(self).here()) == plain_member(
                    old(self).t(),
                    old(self).here(),
                    h@,
                    old(body)@,
                    old(unit)@,
                ) && final(self).beyond(*old(self)) && final(body).wf(),
                Err(m) => plain_member(
                    old(self).t(),
                    old(self).here(),
                    h@,
                    old(body)@,
                    old(unit)@,
                ).1.err == Some(m@),
            },
            final(self).t() == old(self).t(),
    {
        proof {
            reveal(plain_member);
        }
        let ghost was = body@;
        let ghost unit_was = unit@;
        if h.is_record && self.at_word(h.name.as_str()) && self.ahead(1) == Tok::LBrace {
            let line: u32 = self.line();
            self.advance();
            self.advance();
            let stmts: Vec<Stmt> = match self.block() {
                Ok(v) => v,
                Err(m) => {
                    return Err(m);
                },
            };
            let made: Ctor = Ctor { params: copy_params(&h.components), body: stmts, line };
            let ghost one = made@;
            if body.compact.is_none() {
                body.compact = Some(body.ctors.len());
            }
            body.ctors.push(made);
            assert(body@.ctors =~= was.ctors.push(one));
            return Ok(());
        }
        if self.at_ctor(h.name.as_str()) {
            let made: Ctor = match self.ctor_here(h.name.as_str()) {
                Ok(v) => v,
                Err(m) => {
                    return Err(m);
                },
            };
            let ghost one = made@;
            body.ctors.push(made);
            assert(body@.ctors =~= was.ctors.push(one));
            return Ok(());
        }
        proof {
            reveal(method_rule);
            reveal(fields_rule);
        }
        let method: Option<(Method, bool)> = match self.try_any_method(h.name.as_str()) {
            Ok(v) => v,
            Err(m) => {
                return Err(m);
            },
        };
        if let Some((m, is_static)) = method {
            let ghost one = m@;
            if is_static {
                unit.methods.push(m);
                assert(unit@.methods =~= unit_was.methods.push(one));
            } else {
                body.methods.push(m);
                assert(body@.methods =~= was.methods.push(one));
            }
            return Ok(());
        }
        let fields: Option<(Vec<FieldDecl>, bool)> = match self.try_fields() {
            Ok(v) => v,
            Err(m) => {
                return Err(m);
            },
        };
        if let Some((fs, is_static)) = fields {
            if is_static {
                static_declaration(h.line, fs, &mut body.static_fields, &mut body.static_init);
            } else {
                instance_declaration(h.line, fs, &mut body.fields, &mut body.inst_init);
            }
            return Ok(());
        }
        if self.is(Tok::LBrace) {
            self.advance();
            let stmts: Vec<Stmt> = match self.block() {
                Ok(v) => v,
                Err(m) => {
                    return Err(m);
                },
            };
            append_stmts(&mut body.inst_init, stmts);
            return Ok(());
        }
        self.skip_member();
        Ok(())
    }

    /// One member.
    fn member(&mut self, h: &Header, body: &mut Body, unit: &mut Unit) -> (r: Result<(), String>)
        requires
            old(self).wf(),
            old(body).wf(),
            kind_at(old(self).t(), old(self).pos as int) != Tok::RBrace,
            kind_at(old(self).t(), old(self).pos as int) != Tok::Eof,
        ensures
            match r {
                Ok(_) => ((final(body)@, final(unit)@), final(self).here()) == member(
                    old(self).t(),
                    old(self).here(),
                    h@,
                    old(body)@,
                    old(unit)@,
                ) && final(self).beyond(*old(self)) && final(body).wf(),
                Err(m) => member(
                    old(self).t(),
                    old(self).here(),
                    h@,
                    old(body)@,
                    old(unit)@,
                ).1.err == Some(m@),
            },
            final(self).t() == old(self).t(),
        decreases old(self).toks.len() - old(self).pos, 2int,
    {
        if self.is(Tok::Static) && self.ahead(1) == Tok::LBrace {
            self.advance();
            self.advance();
            let stmts: Vec<Stmt> = match self.block() {
                Ok(v) => v,
                Err(m) => {
                    return Err(m);
                },
            };
            append_stmts(&mut body.static_init, stmts);
            return Ok(());
        }
        if self.at_main() {
            let found: (Vec<Stmt>, Option<String>) = match self.main_here() {
                Ok(v) => v,
                Err(m) => {
                    return Err(m);
                },
            };
            unit.entry = Some(
                Entry { class_name: own(h.name.as_str()), body: found.0, param: found.1 },
            );
            return Ok(());
        }
        if self.at_nested_class() {
            return self.parse_class(Some(h.binary.as_str()), unit);
        }
        self.plain_member(h, body, unit)
    }

    /// A class, added to what is collected with what stands inside it.
    pub fn parse_class(&mut self, outer: Option<&str>, unit: &mut Unit) -> (r: Result<(), String>)
        requires
            old(self).wf(),
        ensures
            match r {
                Ok(_) => (final(unit)@, final(self).here()) == class_decl(
                    old(self).t(),
                    old(self).here(),
                    str_view(outer),
                    old(unit)@,
                ) && final(self).beyond(*old(self)),
                Err(m) => class_decl(
                    old(self).t(),
                    old(self).here(),
                    str_view(outer),
                    old(unit)@,
                ).1.err == Some(m@),
            },
            final(self).t() == old(self).t(),
        decreases old(self).toks.len() - old(self).pos, 1int,
    {
        proof {
            reveal_with_fuel(class_decl, 2);
        }
        let ghost want = class_decl(old(self).t(), old(self).here(), str_view(outer), old(unit)@);
        let h: Header = match self.class_header(outer) {
            Ok(v) => v,
            Err(m) => {
                return Err(m);
            },
        };
        let mut constants: Vec<EnumConstant> = Vec::new();
        assert(constant_views(constants@) =~= seq![]);
        if h.is_enum {
            match self.enum_constants(h.name.as_str(), &mut unit.classes) {
                Ok(v) => {
                    constants = v;
                },
                Err(m) => {
                    return Err(m);
                },
            }
        }
        let mut body: Body = Body::none();
        let ghost list = constant_views(constants@);
        while !self.is(Tok::RBrace) && !self.is(Tok::Eof)
            invariant
                self.beyond(*old(self)),
                body.wf(),
                want == class_decl(
                    old(self).t(),
                    old(self).here(),
                    str_view(outer),
                    old(unit)@,
                ),
                ({
                    let ((b, u), s) = members_rest(self.t(), self.here(), h@, body@, unit@);
                    want == (
                        UnitV { classes: u.classes.push(class_made(h@, list, b)), ..u },
                        s,
                    )
                }),
            decreases self.toks.len() - self.pos,
        {
            proof {
                reveal_with_fuel(members_rest, 2);
            }
            if let Err(m) = self.member(&h, &mut body, unit) {
                return Err(m);
            }
        }
        if let Err(m) = self.eat(Tok::RBrace) {
            return Err(m);
        }
        let ghost unit_was = unit@;
        let class: Class = make_class(h, constants, body);
        let ghost one = class@;
        unit.classes.push(class);
        assert(unit@.classes =~= unit_was.classes.push(one));
        Ok(())
    }

    /// Go past the lines that name packages.
    fn skip_prologue(&mut self) -> (r: Result<(), String>)
        requires
            old(self).wf(),
        ensures
            match r {
                Ok(_) => final(self).here() == after_prologue(
                    old(self).t(),
                    old(self).here(),
                ) && final(self).onward(*old(self)),
                Err(m) => after_prologue(old(self).t(), old(self).here()).err == Some(m@),
            },
            final(self).t() == old(self).t(),
    {
        while self.at_word("package") || self.at_word("import")
            invariant
                self.onward(*old(self)),
                after_prologue(self.t(), self.here()) == after_prologue(
                    old(self).t(),
                    old(self).here(),
                ),
            decreases self.toks.len() - self.pos,
        {
            proof {
                reveal_with_fuel(after_prologue, 2);
            }
            let ghost from = self.here();
            let ghost t = self.t();
            let ghost len = self.toks.len();
            let ghost depth = self.switch_expr_depth;
            while !self.is(Tok::Semi) && !self.is(Tok::Eof)
                invariant
                    self.wf(),
                    self.t() == t,
                    self.toks.len() == len,
                    self.switch_expr_depth == depth,
                    from.pos <= self.pos,
                    self.here() == (Place { pos: self.pos as int, ..from }),
                    semicolon_from(t, from.pos) == semicolon_from(t, self.pos as int),
                decreases self.toks.len() - self.pos,
            {
                self.advance();
            }
            if let Err(m) = self.eat(Tok::Semi) {
                return Err(m);
            }
        }
        Ok(())
    }

    /// A program.
    pub fn program(self) -> (r: Result<Program, String>)
        requires
            self.wf(),
            self.here() == (Place { pos: 0, exc: false, fun: false, depth: 0, err: None }),
        ensures
            match r {
                Ok(p) => program_of(self.t()) == Ok::<ProgramV, Seq<char>>(p@),
                Err(m) => program_of(self.t()) == Err::<ProgramV, Seq<char>>(m@),
            },
    {
        let mut p: Parser = self;
        let ghost t = p.t();
        let ghost start = p.here();
        proof {
            reveal_with_fuel(classes_rest, 2);
        }
        if let Err(m) = p.skip_prologue() {
            return Err(m);
        }
        let mut unit: Unit = Unit { entry: None, methods: Vec::new(), classes: Vec::new() };
        assert(unit@.methods =~= seq![]);
        assert(unit@.classes =~= seq![]);
        while !p.is(Tok::Eof)
            invariant
                p.wf(),
                p.t() == t,
                t == self.t(),
                start == self.here(),
                start == (Place { pos: 0, exc: false, fun: false, depth: 0, err: None }),
                classes_rest(t, p.here(), unit@) == classes_rest(
                    t,
                    after_prologue(t, start),
                    no_unit(),
                ),
            decreases p.toks.len() - p.pos,
        {
            proof {
                reveal_with_fuel(classes_rest, 2);
            }
            if let Err(m) = p.parse_class(None, &mut unit) {
                return Err(m);
            }
        }
        match unit.entry {
            Some(e) => Ok(
                Program {
                    class_name: e.class_name,
                    main: e.body,
                    main_param: e.param,
                    methods: unit.methods,
                    classes: unit.classes,
                    uses_exceptions: p.uses_exceptions,
                    uses_functional: p.uses_functional,
                },
            ),
            None => Err(
                own("javars: no class declares `public static void main(String[] args)`"),
            ),
        }
    }
}

/// More statements behind others.
fn append_stmts(v: &mut Vec<Stmt>, more: Vec<Stmt>)
    ensures
        stmt_views(final(v)@) == stmt_views(old(v)@) + stmt_views(more@),
{
    let ghost was = v@;
    let ghost added = more@;
    let mut rest: Vec<Stmt> = more;
    v.append(&mut rest);
    assert(v@ == was + added);
    assert(stmt_views(v@) =~= stmt_views(was) + stmt_views(added));
}

/// The class made of a header, its constants and its members.
fn make_class(h: Header, constants: Vec<EnumConstant>, body: Body) -> (r: Class)
    requires
        body.wf(),
    ensures
        r@ == class_made(h@, constant_views(constants@), body@),
{
    proof {
        reveal(class_made);
    }
    let mut body: Body = body;
    if h.is_enum {
        enum_members(h.line, h.name.as_str(), &mut body.fields, &mut body.methods);
    }
    if h.is_record {
        record_members(
            h.line,
            h.name.as_str(),
            &h.components,
            body.compact,
            &mut body.fields,
            &mut body.ctors,
            &mut body.methods,
        );
    }
    Class {
        name: h.name,
        binary: h.binary,
        superclass: h.superclass,
        interfaces: h.interfaces,
        is_interface: h.is_interface,
        is_enum: h.is_enum,
        is_record: h.is_record,
        enum_constants: constants,
        fields: body.fields,
        static_fields: body.static_fields,
        static_init: body.static_init,
        inst_init: body.inst_init,
        ctors: body.ctors,
        methods: body.methods,
        line: h.line,
    }
}

/// The view of an optional text.
pub open spec fn str_view(o: Option<&str>) -> Option<Seq<char>> {
    match o {
        Some(s) => Some(s@),
        None => None,
    }
}

} // verus!
