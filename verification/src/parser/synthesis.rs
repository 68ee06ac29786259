//! The members a declaration has without writing them: the fields and accessors
//! of enums and records, and the initial values of fields as statements.
use vstd::prelude::*;

use crate::ast::{
    AssignOp, BinOp, Ctor, CtorV, Expr, ExprV, FieldDecl, FieldDeclV, Method, MethodV, Param,
    ParamV, Stmt, StmtKind, StmtKindV, StmtV, UnOp, ctor_views, enum_ordinal_field, expr_views,
    field_decl_views, method_views, opt_expr_view, param_views, stmt_views,
};
use crate::host::render::enum_name_field;
use crate::parser::probes::{is_primitive_name, names_primitive};
use crate::parser::stmts::{no_stmts, one_stmt, push_stmt};
use crate::text::{own, same};

verus! {

// ── Expressions and statements ──────────────────────────────────────────────

/// A field of the object itself.
pub open spec fn own_field(name: Seq<char>) -> ExprV {
    ExprV::Field { recv: Box::new(ExprV::This), name }
}

/// A field of what a variable holds.
pub open spec fn field_of(var: Seq<char>, name: Seq<char>) -> ExprV {
    ExprV::Field { recv: Box::new(ExprV::Var(var)), name }
}

/// Two operands and their operator.
pub open spec fn joined_by(op: BinOp, lhs: ExprV, rhs: ExprV) -> ExprV {
    ExprV::Binary { op, lhs: Box::new(lhs), rhs: Box::new(rhs) }
}

/// A statement that returns a value.
pub open spec fn returning(line: u32, e: ExprV) -> StmtV {
    StmtV { line, kind: StmtKindV::Return(Some(e)) }
}

/// A static method called with two arguments.
pub open spec fn static_call(
    class: Seq<char>,
    method: Seq<char>,
    a: ExprV,
    b: ExprV,
    line: u32,
) -> ExprV {
    ExprV::MethodCall { recv: Box::new(ExprV::Var(class)), method, args: seq![a, b], line }
}

fn own_field_expr(name: &str) -> (r: Expr)
    ensures
        r@ == own_field(name@),
{
    let this: Expr = Expr::This;
    assert(this@ == ExprV::This);
    Expr::Field { recv: Box::new(this), name: own(name) }
}

fn field_of_expr(var: &str, name: &str) -> (r: Expr)
    ensures
        r@ == field_of(var@, name@),
{
    let held: Expr = Expr::Var(own(var));
    assert(held@ == ExprV::Var(var@));
    Expr::Field { recv: Box::new(held), name: own(name) }
}

fn joined_expr(op: BinOp, lhs: Expr, rhs: Expr) -> (r: Expr)
    ensures
        r@ == joined_by(op, lhs@, rhs@),
{
    Expr::Binary { op, lhs: Box::new(lhs), rhs: Box::new(rhs) }
}

fn return_of(line: u32, e: Expr) -> (r: Stmt)
    ensures
        r@ == returning(line, e@),
{
    let ghost value = e@;
    let kept: Option<Expr> = Some(e);
    assert(opt_expr_view(kept) == Some(value));
    Stmt::new(line, StmtKind::Return(kept))
}

fn static_call_expr(class: &str, method: &str, a: Expr, b: Expr, line: u32) -> (r: Expr)
    ensures
        r@ == static_call(class@, method@, a@, b@, line),
{
    let recv: Expr = Expr::Var(own(class));
    assert(recv@ == ExprV::Var(class@));
    let ghost first = a@;
    let ghost second = b@;
    let mut args: Vec<Expr> = Vec::new();
    args.push(a);
    args.push(b);
    assert(expr_views(args@) =~= seq![first, second]);
    Expr::MethodCall { recv: Box::new(recv), method: own(method), args, line }
}

/// The concatenation of two texts.
fn concat(lhs: Expr, rhs: Expr) -> (r: Expr)
    ensures
        r@ == joined_by(BinOp::Add, lhs@, rhs@),
{
    joined_expr(BinOp::Add, lhs, rhs)
}

// ── Fields ──────────────────────────────────────────────────────────────────

/// The assignments of initial values, in the order of the declarations. That of
/// an instance goes through the object.
pub open spec fn initial_values(line: u32, decls: Seq<FieldDeclV>, instance: bool) -> Seq<StmtV>
    decreases decls.len(),
{
    if decls.len() == 0 {
        seq![]
    } else {
        let before = initial_values(line, decls.drop_last(), instance);
        let f = decls.last();
        match f.init {
            Some(value) => before.push(
                StmtV {
                    line,
                    kind: if instance {
                        StmtKindV::FieldAssign {
                            recv: ExprV::This,
                            name: f.name,
                            op: AssignOp::Assign,
                            value,
                        }
                    } else {
                        StmtKindV::Assign { name: f.name, op: AssignOp::Assign, value }
                    },
                },
            ),
            None => before,
        }
    }
}

/// The declarations without their initial values.
pub open spec fn bare_fields(decls: Seq<FieldDeclV>) -> Seq<FieldDeclV> {
    Seq::new(decls.len(), |i: int| FieldDeclV { init: None, ..decls[i] })
}

/// Split a declaration of fields into the fields and the statements that give
/// them their initial values.
fn declare_fields(
    line: u32,
    decls: Vec<FieldDecl>,
    instance: bool,
    fields: &mut Vec<FieldDecl>,
    init: &mut Vec<Stmt>,
)
    ensures
        field_decl_views(final(fields)@) == field_decl_views(old(fields)@) + bare_fields(
            field_decl_views(decls@),
        ),
        stmt_views(final(init)@) == stmt_views(old(init)@) + initial_values(
            line,
            field_decl_views(decls@),
            instance,
        ),
{
    let mut rest: Vec<FieldDecl> = decls;
    let ghost all = field_decl_views(rest@);
    let ghost were = stmt_views(init@);
    let mut i: usize = 0;
    assert(stmt_views(init@) =~= were + initial_values(line, all.take(0), instance));
    while i < rest.len()
        invariant
            i <= rest.len(),
            rest.len() == all.len(),
            all == field_decl_views(decls@),
            stmt_views(init@) == were + initial_values(line, all.take(i as int), instance),
            forall|k: int| i <= k < all.len() ==> (#[trigger] rest@[k])@ == all[k],
            forall|k: int|
                0 <= k < i ==> (#[trigger] rest@[k])@ == (FieldDeclV { init: None, ..all[k] }),
        decreases rest.len() - i,
    {
        let ghost at = all[i as int];
        let ghost before = rest@;
        assert(rest@[i as int]@ == at);
        let mut value: Option<Expr> = None;
        std::mem::swap(&mut value, &mut rest[i].init);
        assert(all.take(i + 1).drop_last() =~= all.take(i as int));
        assert(all.take(i + 1).last() == at);
        if let Some(value) = value {
            let name: String = own(rest[i].name.as_str());
            let ghost value_view = value@;
            let kind: StmtKind = if instance {
                let this: Expr = Expr::This;
                assert(this@ == ExprV::This);
                StmtKind::FieldAssign { recv: this, name, op: AssignOp::Assign, value }
            } else {
                StmtKind::Assign { name, op: AssignOp::Assign, value }
            };
            push_stmt(init, Stmt::new(line, kind));
        }
        assert(stmt_views(init@) =~= were + initial_values(line, all.take(i + 1), instance));
        i = i + 1;
    }
    assert(all.take(i as int) =~= all);
    let ghost fields_were = fields@;
    let ghost rest_seq = rest@;
    fields.append(&mut rest);
    assert(fields@ == fields_were + rest_seq);
    assert(field_decl_views(fields@) =~= field_decl_views(fields_were) + bare_fields(all));
}

/// A declaration of static fields.
pub(crate) fn static_declaration(
    line: u32,
    decls: Vec<FieldDecl>,
    fields: &mut Vec<FieldDecl>,
    init: &mut Vec<Stmt>,
)
    ensures
        field_decl_views(final(fields)@) == field_decl_views(old(fields)@) + bare_fields(
            field_decl_views(decls@),
        ),
        stmt_views(final(init)@) == stmt_views(old(init)@) + initial_values(
            line,
            field_decl_views(decls@),
            false,
        ),
{
    declare_fields(line, decls, false, fields, init)
}

/// A declaration of instance fields.
pub(crate) fn instance_declaration(
    line: u32,
    decls: Vec<FieldDecl>,
    fields: &mut Vec<FieldDecl>,
    init: &mut Vec<Stmt>,
)
    ensures
        field_decl_views(final(fields)@) == field_decl_views(old(fields)@) + bare_fields(
            field_decl_views(decls@),
        ),
        stmt_views(final(init)@) == stmt_views(old(init)@) + initial_values(
            line,
            field_decl_views(decls@),
            true,
        ),
{
    declare_fields(line, decls, true, fields, init)
}

// ── Methods ─────────────────────────────────────────────────────────────────

/// Whether a method of this name and number of parameters is declared.
pub open spec fn has_method(ms: Seq<MethodV>, name: Seq<char>, params: int) -> bool {
    exists|i: int|
        0 <= i < ms.len() && (#[trigger] ms[i]).name == name && ms[i].params.len() == params
}

/// The methods with one more, unless the body declares it itself.
pub open spec fn with_default(ms: Seq<MethodV>, m: MethodV) -> Seq<MethodV> {
    if has_method(ms, m.name, m.params.len() as int) {
        ms
    } else {
        ms.push(m)
    }
}

/// Add a method, unless the body declares it itself.
fn default_method(ms: &mut Vec<Method>, m: Method)
    ensures
        method_views(final(ms)@) == with_default(method_views(old(ms)@), m@),
{
    let ghost were = method_views(ms@);
    let mut i: usize = 0;
    while i < ms.len()
        invariant
            i <= ms.len(),
            ms@ == old(ms)@,
            were == method_views(ms@),
            forall|k: int|
                0 <= k < i ==> !((#[trigger] were[k]).name == m@.name && were[k].params.len()
                    == m@.params.len()),
        decreases ms.len() - i,
    {
        assert(were[i as int] == ms@[i as int]@);
        assert(param_views(ms@[i as int].params@).len() == ms@[i as int].params.len());
        assert(param_views(m.params@).len() == m.params.len());
        if same(ms[i].name.as_str(), m.name.as_str()) && ms[i].params.len() == m.params.len() {
            return;
        }
        i = i + 1;
    }
    let ghost one = m@;
    ms.push(m);
    assert(method_views(ms@) =~= were.push(one));
}

/// A method that returns a value.
pub open spec fn reader(
    owner: Seq<char>,
    name: Seq<char>,
    ret: Seq<char>,
    e: ExprV,
    line: u32,
) -> MethodV {
    MethodV {
        name,
        owner,
        params: seq![],
        ret,
        body: seq![returning(line, e)],
        is_abstract: false,
        line,
    }
}

/// A method that returns a value.
fn reader_method(owner: &str, name: &str, ret: &str, e: Expr, line: u32) -> (r: Method)
    ensures
        r@ == reader(owner@, name@, ret@, e@, line),
{
    let params: Vec<Param> = Vec::new();
    assert(param_views(params@) =~= seq![]);
    Method {
        name: own(name),
        owner: own(owner),
        params,
        ret: own(ret),
        body: one_stmt(return_of(line, e)),
        is_abstract: false,
        line,
    }
}

/// A method with one parameter.
pub open spec fn taking_one(
    owner: Seq<char>,
    name: Seq<char>,
    param: ParamV,
    ret: Seq<char>,
    body: Seq<StmtV>,
    line: u32,
) -> MethodV {
    MethodV { name, owner, params: seq![param], ret, body, is_abstract: false, line }
}

/// A method with one parameter.
fn one_param_method(
    owner: &str,
    name: &str,
    ty: &str,
    param: &str,
    ret: &str,
    body: Vec<Stmt>,
    line: u32,
) -> (r: Method)
    ensures
        r@ == taking_one(
            owner@,
            name@,
            (ParamV { ty: ty@, name: param@, varargs: false }),
            ret@,
            stmt_views(body@),
            line,
        ),
{
    let mut params: Vec<Param> = Vec::new();
    params.push(Param { ty: own(ty), name: own(param), varargs: false });
    assert(param_views(params@) =~= seq![ParamV { ty: ty@, name: param@, varargs: false }]);
    Method {
        name: own(name),
        owner: own(owner),
        params,
        ret: own(ret),
        body,
        is_abstract: false,
        line,
    }
}

// ── Enums ───────────────────────────────────────────────────────────────────

/// A field without an initial value.
pub open spec fn plain_field(ty: Seq<char>, name: Seq<char>, line: u32) -> FieldDeclV {
    FieldDeclV { ty, name, init: None, line }
}

/// The fields of an enum: its own, then its name and its ordinal.
pub open spec fn enum_fields(fields: Seq<FieldDeclV>, line: u32) -> Seq<FieldDeclV> {
    fields.push(plain_field("String"@, enum_name_field(), line)).push(
        plain_field("int"@, enum_ordinal_field(), line),
    )
}

/// The methods of an enum. Those that its body declares stand; the others read
/// the name and the ordinal, order by the ordinal, and compare by identity.
pub open spec fn enum_methods(ms: Seq<MethodV>, owner: Seq<char>, line: u32) -> Seq<MethodV> {
    let a = with_default(ms, reader(owner, "name"@, "String"@, own_field(enum_name_field()), line));
    let b = with_default(
        a,
        reader(owner, "ordinal"@, "int"@, own_field(enum_ordinal_field()), line),
    );
    let c = with_default(
        b,
        reader(owner, "toString"@, "String"@, own_field(enum_name_field()), line),
    );
    let d = with_default(
        c,
        taking_one(
            owner,
            "compareTo"@,
            (ParamV { ty: owner, name: "other"@, varargs: false }),
            "int"@,
            seq![
                returning(
                    line,
                    joined_by(
                        BinOp::Sub,
                        own_field(enum_ordinal_field()),
                        field_of("other"@, enum_ordinal_field()),
                    ),
                ),
            ],
            line,
        ),
    );
    with_default(
        d,
        taking_one(
            owner,
            "equals"@,
            (ParamV { ty: "Object"@, name: "other"@, varargs: false }),
            "boolean"@,
            seq![
                returning(line, joined_by(BinOp::Eq, ExprV::This, ExprV::Var("other"@))),
            ],
            line,
        ),
    )
}

/// One more field without an initial value.
fn push_plain_field(fields: &mut Vec<FieldDecl>, ty: &str, name: &str, line: u32)
    ensures
        field_decl_views(final(fields)@) == field_decl_views(old(fields)@).push(
            plain_field(ty@, name@, line),
        ),
{
    let ghost were = field_decl_views(fields@);
    let f: FieldDecl = FieldDecl { ty: own(ty), name: own(name), init: None, line };
    assert(opt_expr_view(f.init) is None);
    let ghost one = f@;
    fields.push(f);
    assert(field_decl_views(fields@) =~= were.push(one));
}

/// Give an enum its fields and methods.
pub(crate) fn enum_members(
    line: u32,
    owner: &str,
    fields: &mut Vec<FieldDecl>,
    methods: &mut Vec<Method>,
)
    ensures
        field_decl_views(final(fields)@) == enum_fields(field_decl_views(old(fields)@), line),
        method_views(final(methods)@) == enum_methods(method_views(old(methods)@), owner@, line),
{
    push_plain_field(fields, "String", "#name", line);
    push_plain_field(fields, "int", "#ordinal", line);
    default_method(
        methods,
        reader_method(owner, "name", "String", own_field_expr("#name"), line),
    );
    default_method(
        methods,
        reader_method(owner, "ordinal", "int", own_field_expr("#ordinal"), line),
    );
    default_method(
        methods,
        reader_method(owner, "toString", "String", own_field_expr("#name"), line),
    );
    let difference: Expr = joined_expr(
        BinOp::Sub,
        own_field_expr("#ordinal"),
        field_of_expr("other", "#ordinal"),
    );
    let order: Vec<Stmt> = one_stmt(return_of(line, difference));
    default_method(
        methods,
        one_param_method(owner, "compareTo", owner, "other", "int", order, line),
    );
    let this: Expr = Expr::This;
    assert(this@ == ExprV::This);
    let other: Expr = Expr::Var(own("other"));
    assert(other@ == ExprV::Var("other"@));
    let identity: Vec<Stmt> = one_stmt(
        return_of(line, joined_expr(BinOp::Eq, this, other)),
    );
    default_method(
        methods,
        one_param_method(owner, "equals", "Object", "other", "boolean", identity, line),
    );
}

// ── Records ─────────────────────────────────────────────────────────────────

/// The comparison of one component. Floating ones compare by their total order,
/// other primitives by value, and references by their `equals`.
pub open spec fn component_equal(
    ty: Seq<char>,
    mine: ExprV,
    theirs: ExprV,
    line: u32,
) -> ExprV {
    if ty == "float"@ {
        joined_by(
            BinOp::Eq,
            static_call("Float"@, "compare"@, mine, theirs, line),
            ExprV::Int(0),
        )
    } else if ty == "double"@ {
        joined_by(
            BinOp::Eq,
            static_call("Double"@, "compare"@, mine, theirs, line),
            ExprV::Int(0),
        )
    } else if names_primitive(ty) {
        joined_by(BinOp::Eq, mine, theirs)
    } else {
        static_call("Objects"@, "equals"@, mine, theirs, line)
    }
}

/// The comparison of one component.
fn component_eq(ty: &str, mine: Expr, theirs: Expr, line: u32) -> (r: Expr)
    ensures
        r@ == component_equal(ty@, mine@, theirs@, line),
{
    if same(ty, "float") || same(ty, "double") {
        let class: &str = if same(ty, "float") {
            "Float"
        } else {
            "Double"
        };
        let zero: Expr = Expr::Int(0);
        assert(zero@ == ExprV::Int(0));
        return joined_expr(
            BinOp::Eq,
            static_call_expr(class, "compare", mine, theirs, line),
            zero,
        );
    }
    if is_primitive_name(ty) {
        return joined_expr(BinOp::Eq, mine, theirs);
    }
    static_call_expr("Objects", "equals", mine, theirs, line)
}

/// The fields of a record: its own, then one for each component.
pub open spec fn record_fields(
    fields: Seq<FieldDeclV>,
    components: Seq<ParamV>,
    line: u32,
) -> Seq<FieldDeclV> {
    fields + Seq::new(
        components.len(),
        |i: int| plain_field(components[i].ty, components[i].name, line),
    )
}

/// The assignment of each component to its field.
pub open spec fn component_assigns(components: Seq<ParamV>, line: u32) -> Seq<StmtV> {
    Seq::new(
        components.len(),
        |i: int|
            StmtV {
                line,
                kind: StmtKindV::FieldAssign {
                    recv: ExprV::This,
                    name: components[i].name,
                    op: AssignOp::Assign,
                    value: ExprV::Var(components[i].name),
                },
            },
    )
}

/// Whether two parameter lists have the same types.
pub open spec fn same_types(a: Seq<ParamV>, b: Seq<ParamV>) -> bool {
    a.len() == b.len() && forall|i: int| 0 <= i < a.len() ==> (#[trigger] a[i]).ty == b[i].ty
}

/// Whether a constructor takes the components.
pub open spec fn has_canonical(ctors: Seq<CtorV>, components: Seq<ParamV>) -> bool {
    exists|i: int| 0 <= i < ctors.len() && same_types((#[trigger] ctors[i]).params, components)
}

/// The constructors of a record. The fields are assigned after the body of the
/// compact constructor, if it has one; a constructor that takes the components
/// and is written out stands as it is; else one is added that assigns them.
pub open spec fn record_ctors(
    ctors: Seq<CtorV>,
    components: Seq<ParamV>,
    compact: Option<int>,
    line: u32,
) -> Seq<CtorV> {
    let assigns = component_assigns(components, line);
    match compact {
        Some(i) => ctors.update(i, CtorV { body: ctors[i].body + assigns, ..ctors[i] }),
        None => if has_canonical(ctors, components) {
            ctors
        } else {
            ctors.push(CtorV { params: components, body: assigns, line })
        },
    }
}

/// The methods with an accessor for each component.
pub open spec fn with_accessors(
    ms: Seq<MethodV>,
    components: Seq<ParamV>,
    owner: Seq<char>,
    line: u32,
) -> Seq<MethodV>
    decreases components.len(),
{
    if components.len() == 0 {
        ms
    } else {
        let c = components.last();
        with_default(
            with_accessors(ms, components.drop_last(), owner, line),
            reader(owner, c.name, c.ty, own_field(c.name), line),
        )
    }
}

/// The name of a record and its components, as far as they are listed.
pub open spec fn record_text(name: Seq<char>, components: Seq<ParamV>) -> ExprV
    decreases components.len(),
{
    if components.len() == 0 {
        ExprV::Str(name + "["@)
    } else {
        let c = components.last();
        let label = if components.len() == 1 {
            c.name + "="@
        } else {
            ", "@ + c.name + "="@
        };
        joined_by(
            BinOp::Add,
            joined_by(BinOp::Add, record_text(name, components.drop_last()), ExprV::Str(label)),
            own_field(c.name),
        )
    }
}

/// The comparison of components with those of another record.
pub open spec fn all_equal(components: Seq<ParamV>, other: Seq<char>, line: u32) -> ExprV
    decreases components.len(),
{
    if components.len() == 0 {
        ExprV::Bool(true)
    } else {
        let c = components.last();
        joined_by(
            BinOp::And,
            all_equal(components.drop_last(), other, line),
            component_equal(c.ty, own_field(c.name), field_of(other, c.name), line),
        )
    }
}

/// The body of a record's `equals`: another class is not equal, and else every
/// component has to be.
pub open spec fn record_equals_body(
    name: Seq<char>,
    components: Seq<ParamV>,
    line: u32,
) -> Seq<StmtV> {
    seq![
        StmtV {
            line,
            kind: StmtKindV::If {
                cond: ExprV::Unary {
                    op: UnOp::Not,
                    rhs: Box::new(
                        ExprV::InstanceOf {
                            expr: Box::new(ExprV::Var("#other"@)),
                            class: name,
                        },
                    ),
                },
                body: seq![returning(line, ExprV::Bool(false))],
                els: seq![],
            },
        },
        returning(line, all_equal(components, "#other"@, line)),
    ]
}

/// The methods of a record. Those that its body declares stand.
pub open spec fn record_methods(
    ms: Seq<MethodV>,
    components: Seq<ParamV>,
    name: Seq<char>,
    line: u32,
) -> Seq<MethodV> {
    let a = with_accessors(ms, components, name, line);
    let b = with_default(
        a,
        reader(
            name,
            "toString"@,
            "String"@,
            joined_by(BinOp::Add, record_text(name, components), ExprV::Str("]"@)),
            line,
        ),
    );
    with_default(
        b,
        taking_one(
            name,
            "equals"@,
            (ParamV { ty: "Object"@, name: "#other"@, varargs: false }),
            "boolean"@,
            record_equals_body(name, components, line),
            line,
        ),
    )
}

/// Whether a constructor takes the components.
fn takes_components(ctor: &Ctor, components: &Vec<Param>) -> (r: bool)
    ensures
        r == same_types(ctor@.params, param_views(components@)),
{
    let ghost a = ctor@.params;
    let ghost b = param_views(components@);
    assert(a.len() == ctor.params.len());
    assert(b.len() == components.len());
    if ctor.params.len() != components.len() {
        return false;
    }
    let mut i: usize = 0;
    while i < components.len()
        invariant
            i <= components.len(),
            a == ctor@.params,
            a.len() == ctor.params.len(),
            b == param_views(components@),
            ctor.params.len() == components.len(),
            forall|k: int| 0 <= k < i ==> (#[trigger] a[k]).ty == b[k].ty,
        decreases components.len() - i,
    {
        assert(a[i as int] == ctor.params@[i as int]@);
        assert(b[i as int] == components@[i as int]@);
        if !same(ctor.params[i].ty.as_str(), components[i].ty.as_str()) {
            return false;
        }
        i = i + 1;
    }
    true
}

/// A copy of parameters.
pub(crate) fn copy_params(v: &Vec<Param>) -> (r: Vec<Param>)
    ensures
        param_views(r@) == param_views(v@),
{
    let mut r: Vec<Param> = Vec::new();
    let mut i: usize = 0;
    while i < v.len()
        invariant
            i <= v.len(),
            r.len() == i,
            forall|k: int| 0 <= k < i ==> (#[trigger] r@[k])@ == v@[k]@,
        decreases v.len() - i,
    {
        r.push(v[i].copy());
        i = i + 1;
    }
    assert(param_views(r@) =~= param_views(v@));
    r
}

/// The assignment of each component to its field.
fn assigns_of(components: &Vec<Param>, line: u32) -> (r: Vec<Stmt>)
    ensures
        stmt_views(r@) == component_assigns(param_views(components@), line),
{
    let ghost all = param_views(components@);
    let mut r: Vec<Stmt> = no_stmts();
    let mut i: usize = 0;
    while i < components.len()
        invariant
            i <= components.len(),
            all == param_views(components@),
            stmt_views(r@) =~= component_assigns(all, line).take(i as int),
        decreases components.len() - i,
    {
        assert(all[i as int] == components@[i as int]@);
        let this: Expr = Expr::This;
        assert(this@ == ExprV::This);
        let value: Expr = Expr::Var(own(components[i].name.as_str()));
        assert(value@ == ExprV::Var(all[i as int].name));
        let kind: StmtKind = StmtKind::FieldAssign {
            recv: this,
            name: own(components[i].name.as_str()),
            op: AssignOp::Assign,
            value,
        };
        push_stmt(&mut r, Stmt::new(line, kind));
        i = i + 1;
    }
    assert(component_assigns(all, line).take(i as int) =~= component_assigns(all, line));
    r
}

/// Complete the constructors of a record.
fn complete_ctors(
    ctors: &mut Vec<Ctor>,
    components: &Vec<Param>,
    compact: Option<usize>,
    line: u32,
)
    requires
        compact is Some ==> compact->0 < old(ctors).len(),
    ensures
        ctor_views(final(ctors)@) == record_ctors(
            ctor_views(old(ctors)@),
            param_views(components@),
            match compact {
                Some(i) => Some(i as int),
                None => None,
            },
            line,
        ),
{
    let ghost were = ctor_views(ctors@);
    let ghost all = param_views(components@);
    let mut assigns: Vec<Stmt> = assigns_of(components, line);
    let ghost assign_views = stmt_views(assigns@);
    if let Some(i) = compact {
        assert(were[i as int] == ctors@[i as int]@);
        let ghost body_was = ctors@[i as int].body@;
        let ghost assigns_seq = assigns@;
        ctors[i].body.append(&mut assigns);
        assert(ctors@[i as int].body@ == body_was + assigns_seq);
        assert(stmt_views(body_was + assigns_seq) =~= stmt_views(body_was) + assign_views);
        assert(ctor_views(ctors@) =~= record_ctors(were, all, Some(i as int), line));
        return;
    }
    let mut i: usize = 0;
    while i < ctors.len()
        invariant
            i <= ctors.len(),
            ctors@ == old(ctors)@,
            compact is None,
            were == ctor_views(ctors@),
            all == param_views(components@),
            forall|k: int| 0 <= k < i ==> !same_types((#[trigger] were[k]).params, all),
        decreases ctors.len() - i,
    {
        assert(were[i as int] == ctors@[i as int]@);
        if takes_components(&ctors[i], components) {
            assert(same_types(were[i as int].params, all));
            assert(has_canonical(were, all));
            return;
        }
        i = i + 1;
    }
    let made: Ctor = Ctor { params: copy_params(components), body: assigns, line };
    let ghost one = made@;
    ctors.push(made);
    assert(ctor_views(ctors@) =~= were.push(one));
}

/// Add an accessor for each component.
fn add_accessors(methods: &mut Vec<Method>, components: &Vec<Param>, owner: &str, line: u32)
    ensures
        method_views(final(methods)@) == with_accessors(
            method_views(old(methods)@),
            param_views(components@),
            owner@,
            line,
        ),
{
    let ghost were = method_views(methods@);
    let ghost all = param_views(components@);
    let mut i: usize = 0;
    assert(all.take(0) =~= seq![]);
    while i < components.len()
        invariant
            i <= components.len(),
            all == param_views(components@),
            method_views(methods@) == with_accessors(were, all.take(i as int), owner@, line),
        decreases components.len() - i,
    {
        assert(all[i as int] == components@[i as int]@);
        assert(all.take(i + 1).drop_last() =~= all.take(i as int));
        let c: &Param = &components[i];
        let e: Expr = own_field_expr(c.name.as_str());
        default_method(
            methods,
            reader_method(owner, c.name.as_str(), c.ty.as_str(), e, line),
        );
        i = i + 1;
    }
    assert(all.take(i as int) =~= all);
}

/// The text of a record, as an expression.
fn listing(name: &str, components: &Vec<Param>) -> (r: Expr)
    ensures
        r@ == record_text(name@, param_views(components@)),
{
    let ghost all = param_views(components@);
    let mut head: String = own(name);
    head.append("[");
    let mut r: Expr = Expr::Str(head);
    assert(r@ == ExprV::Str(name@ + "["@));
    let mut i: usize = 0;
    assert(all.take(0) =~= seq![]);
    while i < components.len()
        invariant
            i <= components.len(),
            all == param_views(components@),
            r@ == record_text(name@, all.take(i as int)),
        decreases components.len() - i,
    {
        assert(all[i as int] == components@[i as int]@);
        assert(all.take(i + 1).drop_last() =~= all.take(i as int));
        let c: &Param = &components[i];
        let mut label: String = own("");
        if i > 0 {
            label.append(", ");
        }
        label.append(c.name.as_str());
        label.append("=");
        proof {
            reveal_strlit("");
            if i == 0 {
                assert(label@ =~= all[i as int].name + "="@);
            } else {
                assert(label@ =~= ", "@ + all[i as int].name + "="@);
            }
        }
        let text: Expr = Expr::Str(label);
        assert(text@ == ExprV::Str(label@));
        r = concat(concat(r, text), own_field_expr(c.name.as_str()));
        i = i + 1;
    }
    assert(all.take(i as int) =~= all);
    r
}

/// The comparison of components with those of another record.
fn comparison(components: &Vec<Param>, other: &str, line: u32) -> (r: Expr)
    ensures
        r@ == all_equal(param_views(components@), other@, line),
{
    let ghost all = param_views(components@);
    let mut r: Expr = Expr::Bool(true);
    assert(r@ == ExprV::Bool(true));
    let mut i: usize = 0;
    assert(all.take(0) =~= seq![]);
    while i < components.len()
        invariant
            i <= components.len(),
            all == param_views(components@),
            r@ == all_equal(all.take(i as int), other@, line),
        decreases components.len() - i,
    {
        assert(all[i as int] == components@[i as int]@);
        assert(all.take(i + 1).drop_last() =~= all.take(i as int));
        let c: &Param = &components[i];
        let mine: Expr = own_field_expr(c.name.as_str());
        let theirs: Expr = field_of_expr(other, c.name.as_str());
        r = joined_expr(BinOp::And, r, component_eq(c.ty.as_str(), mine, theirs, line));
        i = i + 1;
    }
    assert(all.take(i as int) =~= all);
    r
}

/// The body of a record's `equals`.
fn equals_of(name: &str, components: &Vec<Param>, line: u32) -> (r: Vec<Stmt>)
    ensures
        stmt_views(r@) == record_equals_body(name@, param_views(components@), line),
{
    let other: Expr = Expr::Var(own("#other"));
    assert(other@ == ExprV::Var("#other"@));
    let test: Expr = Expr::InstanceOf { expr: Box::new(other), class: own(name) };
    let ghost tested = test@;
    assert(tested == ExprV::InstanceOf {
        expr: Box::new(ExprV::Var("#other"@)),
        class: name@,
    });
    let cond: Expr = Expr::Unary { op: UnOp::Not, rhs: Box::new(test) };
    let ghost guard = cond@;
    assert(guard == ExprV::Unary { op: UnOp::Not, rhs: Box::new(tested) });
    let no: Expr = Expr::Bool(false);
    assert(no@ == ExprV::Bool(false));
    let kind: StmtKind = StmtKind::If {
        cond,
        body: one_stmt(return_of(line, no)),
        els: no_stmts(),
    };
    let mut r: Vec<Stmt> = no_stmts();
    push_stmt(&mut r, Stmt::new(line, kind));
    push_stmt(&mut r, return_of(line, comparison(components, "#other", line)));
    assert(stmt_views(r@) =~= record_equals_body(name@, param_views(components@), line));
    r
}

/// Give a record its fields, constructor and methods.
pub(crate) fn record_members(
    line: u32,
    name: &str,
    components: &Vec<Param>,
    compact: Option<usize>,
    fields: &mut Vec<FieldDecl>,
    ctors: &mut Vec<Ctor>,
    methods: &mut Vec<Method>,
)
    requires
        compact is Some ==> compact->0 < old(ctors).len(),
    ensures
        field_decl_views(final(fields)@) == record_fields(
            field_decl_views(old(fields)@),
            param_views(components@),
            line,
        ),
        ctor_views(final(ctors)@) == record_ctors(
            ctor_views(old(ctors)@),
            param_views(components@),
            match compact {
                Some(i) => Some(i as int),
                None => None,
            },
            line,
        ),
        method_views(final(methods)@) == record_methods(
            method_views(old(methods)@),
            param_views(components@),
            name@,
            line,
        ),
{
    let ghost all = param_views(components@);
    let ghost were = field_decl_views(fields@);
    let mut i: usize = 0;
    assert(field_decl_views(fields@) =~= record_fields(were, all.take(0), line));
    while i < components.len()
        invariant
            i <= components.len(),
            all == param_views(components@),
            field_decl_views(fields@) == record_fields(were, all.take(i as int), line),
        decreases components.len() - i,
    {
        assert(all[i as int] == components@[i as int]@);
        push_plain_field(
            fields,
            components[i].ty.as_str(),
            components[i].name.as_str(),
            line,
        );
        assert(field_decl_views(fields@) =~= record_fields(were, all.take(i + 1), line));
        i = i + 1;
    }
    assert(all.take(i as int) =~= all);
    complete_ctors(ctors, components, compact, line);
    add_accessors(methods, components, name, line);
    let close: Expr = Expr::Str(own("]"));
    assert(close@ == ExprV::Str("]"@));
    let text: Expr = concat(listing(name, components), close);
    default_method(methods, reader_method(name, "toString", "String", text, line));
    let body: Vec<Stmt> = equals_of(name, components, line);
    default_method(
        methods,
        one_param_method(name, "equals", "Object", "#other", "boolean", body, line),
    );
}

// ── What holds of the members ───────────────────────────────────────────────

/// What a body declares stands first and unchanged among the methods, and
/// nothing is declared twice on account of a default.
pub proof fn declared_method_stands(ms: Seq<MethodV>, m: MethodV)
    ensures
        with_default(ms, m).len() >= ms.len(),
        with_default(ms, m).take(ms.len() as int) == ms,
        has_method(with_default(ms, m), m.name, m.params.len() as int),
        has_method(ms, m.name, m.params.len() as int) ==> with_default(ms, m) == ms,
{
    assert(with_default(ms, m).take(ms.len() as int) =~= ms);
    if !has_method(ms, m.name, m.params.len() as int) {
        assert(with_default(ms, m)[ms.len() as int] == m);
    }
}

/// A member that a record declares itself wins over the derived one, and every
/// record has its text, its equality and an accessor of each component.
pub proof fn record_declarations_win(
    ms: Seq<MethodV>,
    components: Seq<ParamV>,
    name: Seq<char>,
    line: u32,
)
    ensures
        record_methods(ms, components, name, line).len() >= ms.len(),
        record_methods(ms, components, name, line).take(ms.len() as int) == ms,
        has_method(record_methods(ms, components, name, line), "toString"@, 0),
        has_method(record_methods(ms, components, name, line), "equals"@, 1),
        forall|k: int|
            0 <= k < components.len() ==> has_method(
                record_methods(ms, components, name, line),
                (#[trigger] components[k]).name,
                0,
            ),
{
    lemma_accessors_follow(ms, components, name, line);
    let a = with_accessors(ms, components, name, line);
    let text = reader(
        name,
        "toString"@,
        "String"@,
        joined_by(BinOp::Add, record_text(name, components), ExprV::Str("]"@)),
        line,
    );
    let equality = taking_one(
        name,
        "equals"@,
        (ParamV { ty: "Object"@, name: "#other"@, varargs: false }),
        "boolean"@,
        record_equals_body(name, components, line),
        line,
    );
    let b = with_default(a, text);
    let c = with_default(b, equality);
    declared_method_stands(a, text);
    declared_method_stands(b, equality);
    assert(c.take(ms.len() as int) =~= ms) by {
        assert forall|i: int| 0 <= i < ms.len() implies c[i] == ms[i] by {
            assert(c.take(b.len() as int)[i] == b[i]);
            assert(b.take(a.len() as int)[i] == a[i]);
            assert(a.take(ms.len() as int)[i] == ms[i]);
        }
    }
    let i = choose|i: int|
        0 <= i < b.len() && (#[trigger] b[i]).name == "toString"@ && b[i].params.len() == 0;
    assert(c.take(b.len() as int)[i] == c[i]);
    assert forall|k: int| 0 <= k < components.len() implies has_method(
        c,
        (#[trigger] components[k]).name,
        0,
    ) by {
        lemma_component_read(ms, components, name, line, k);
        lemma_default_keeps(a, text, components[k].name, 0);
        lemma_default_keeps(b, equality, components[k].name, 0);
    }
}

/// Every component has its accessor, declared or derived.
proof fn lemma_component_read(
    ms: Seq<MethodV>,
    components: Seq<ParamV>,
    owner: Seq<char>,
    line: u32,
    k: int,
)
    requires
        0 <= k < components.len(),
    ensures
        has_method(with_accessors(ms, components, owner, line), components[k].name, 0),
    decreases components.len(),
{
    let c = components.last();
    let before = with_accessors(ms, components.drop_last(), owner, line);
    let made = reader(owner, c.name, c.ty, own_field(c.name), line);
    declared_method_stands(before, made);
    if k < components.len() - 1 {
        assert(components.drop_last()[k] == components[k]);
        lemma_component_read(ms, components.drop_last(), owner, line, k);
        lemma_default_keeps(before, made, components[k].name, 0);
    }
}

/// Accessors come after what is declared.
proof fn lemma_accessors_follow(
    ms: Seq<MethodV>,
    components: Seq<ParamV>,
    owner: Seq<char>,
    line: u32,
)
    ensures
        with_accessors(ms, components, owner, line).len() >= ms.len(),
        with_accessors(ms, components, owner, line).take(ms.len() as int) == ms,
    decreases components.len(),
{
    if components.len() == 0 {
        assert(ms.take(ms.len() as int) =~= ms);
    } else {
        lemma_accessors_follow(ms, components.drop_last(), owner, line);
        let a = with_accessors(ms, components.drop_last(), owner, line);
        let b = with_accessors(ms, components, owner, line);
        assert(b.take(ms.len() as int) =~= a.take(ms.len() as int));
    }
}

/// A default takes nothing away.
proof fn lemma_default_keeps(ms: Seq<MethodV>, m: MethodV, name: Seq<char>, params: int)
    ensures
        has_method(ms, name, params) ==> has_method(with_default(ms, m), name, params),
{
    if has_method(ms, name, params) {
        let i = choose|i: int|
            0 <= i < ms.len() && (#[trigger] ms[i]).name == name && ms[i].params.len() == params;
        assert(with_default(ms, m)[i] == ms[i]);
    }
}

/// An enum has a name, an ordinal, a text, an order and an equality, and what it
/// declares itself wins over the derived one.
pub proof fn enum_declarations_win(ms: Seq<MethodV>, owner: Seq<char>, line: u32)
    ensures
        enum_methods(ms, owner, line).len() >= ms.len(),
        enum_methods(ms, owner, line).take(ms.len() as int) == ms,
        has_method(enum_methods(ms, owner, line), "name"@, 0),
        has_method(enum_methods(ms, owner, line), "ordinal"@, 0),
        has_method(enum_methods(ms, owner, line), "toString"@, 0),
        has_method(enum_methods(ms, owner, line), "compareTo"@, 1),
        has_method(enum_methods(ms, owner, line), "equals"@, 1),
{
    let named = reader(owner, "name"@, "String"@, own_field(enum_name_field()), line);
    let placed = reader(owner, "ordinal"@, "int"@, own_field(enum_ordinal_field()), line);
    let shown = reader(owner, "toString"@, "String"@, own_field(enum_name_field()), line);
    let difference = joined_by(
        BinOp::Sub,
        own_field(enum_ordinal_field()),
        field_of("other"@, enum_ordinal_field()),
    );
    let ordered = taking_one(
        owner,
        "compareTo"@,
        (ParamV { ty: owner, name: "other"@, varargs: false }),
        "int"@,
        seq![returning(line, difference)],
        line,
    );
    let identity = joined_by(BinOp::Eq, ExprV::This, ExprV::Var("other"@));
    let equal = taking_one(
        owner,
        "equals"@,
        (ParamV { ty: "Object"@, name: "other"@, varargs: false }),
        "boolean"@,
        seq![returning(line, identity)],
        line,
    );
    let a = with_default(ms, named);
    let b = with_default(a, placed);
    let c = with_default(b, shown);
    let d = with_default(c, ordered);
    let e = with_default(d, equal);
    assert(enum_methods(ms, owner, line) == e);
    declared_method_stands(ms, named);
    declared_method_stands(a, placed);
    declared_method_stands(b, shown);
    declared_method_stands(c, ordered);
    declared_method_stands(d, equal);
    lemma_default_keeps(a, placed, "name"@, 0);
    lemma_default_keeps(b, shown, "name"@, 0);
    lemma_default_keeps(c, ordered, "name"@, 0);
    lemma_default_keeps(d, equal, "name"@, 0);
    lemma_default_keeps(b, shown, "ordinal"@, 0);
    lemma_default_keeps(c, ordered, "ordinal"@, 0);
    lemma_default_keeps(d, equal, "ordinal"@, 0);
    lemma_default_keeps(c, ordered, "toString"@, 0);
    lemma_default_keeps(d, equal, "toString"@, 0);
    lemma_default_keeps(d, equal, "compareTo"@, 1);
    assert(e.take(ms.len() as int) =~= ms);
}

/// A declaration without initial values has no statements, and every field of a
/// declaration is kept without one.
pub proof fn fields_keep_their_places(line: u32, decls: Seq<FieldDeclV>, instance: bool)
    ensures
        bare_fields(decls).len() == decls.len(),
        initial_values(line, decls, instance).len() <= decls.len(),
        (forall|i: int| 0 <= i < decls.len() ==> (#[trigger] decls[i]).init is None)
            ==> initial_values(line, decls, instance).len() == 0,
    decreases decls.len(),
{
    if decls.len() > 0 {
        fields_keep_their_places(line, decls.drop_last(), instance);
        assert(decls.last() == decls[decls.len() - 1]);
        assert forall|i: int| 0 <= i < decls.len() - 1 implies decls.drop_last()[i] == decls[i] by {}
    }
}

} // verus!
