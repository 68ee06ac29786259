//! The syntax tree of a program.
//!
//! A floating literal keeps its text; everything else is as the language has it.
use vstd::prelude::*;

use crate::prelude::opt_view;
use crate::text::{own, views};

verus! {

/// A prefix operator.
#[derive(Clone, Copy, PartialEq, Eq, Structural, Debug)]
pub enum UnOp {
    Neg,
    Not,
    BitNot,
}

/// A binary operator.
#[derive(Clone, Copy, PartialEq, Eq, Structural, Debug)]
pub enum BinOp {
    Add,
    Sub,
    Mul,
    Div,
    Mod,
    Eq,
    Ne,
    Lt,
    Gt,
    Le,
    Ge,
    And,
    Or,
    BitAnd,
    BitOr,
    BitXor,
    Shl,
    Shr,
    Ushr,
}

/// An assignment, plain or compound.
#[derive(Clone, Copy, PartialEq, Eq, Structural, Debug)]
pub enum AssignOp {
    Assign,
    Add,
    Sub,
    Mul,
    Div,
    Mod,
    BitAnd,
    BitOr,
    BitXor,
    Shl,
    Shr,
    Ushr,
}

/// An expression.
#[allow(inconsistent_fields)]
pub enum Expr {
    /// An `int` literal.
    Int(i64),
    Long(i64),
    /// A `double` literal, as it was written without separators.
    Float(String),
    /// A `float` literal, as it was written without separators and suffix.
    Float32(String),
    Str(String),
    /// A `char` literal, by its code point.
    Char(i64),
    Bool(bool),
    Var(String),
    This,
    Unary { op: UnOp, rhs: Box<Expr> },
    Binary { op: BinOp, lhs: Box<Expr>, rhs: Box<Expr> },
    Ternary { cond: Box<Expr>, yes: Box<Expr>, no: Box<Expr> },
    Index { array: Box<Expr>, index: Box<Expr> },
    Field { recv: Box<Expr>, name: String },
    MethodCall { recv: Box<Expr>, method: String, args: Vec<Expr>, line: u32 },
    Call { name: String, args: Vec<Expr>, line: u32 },
    NewObject { class: String, args: Vec<Expr>, line: u32 },
    NewArray { elem_ty: String, sizes: Vec<Expr>, extra_dims: u64 },
    ArrayLit { elems: Vec<Expr>, elem_ty: Option<String> },
    InstanceOf { expr: Box<Expr>, class: String },
    Cast { ty: String, expr: Box<Expr>, line: u32 },
    Lambda { params: Vec<String>, body: LambdaBody, line: u32 },
    MethodRef { recv: Box<Expr>, method: String, line: u32 },
    SwitchExpr { disc: Box<Expr>, arms: Vec<SwitchArm>, line: u32 },
    /// `System.out` and `System.err`.
    Println { newline: bool, err: bool, arg: Option<Box<Expr>> },
    PostIncDec { name: String, inc: bool },
    PreIncDec { name: String, inc: bool },
}

#[allow(inconsistent_fields)]
pub enum ExprV {
    Int(i64),
    Long(i64),
    Float(Seq<char>),
    Float32(Seq<char>),
    Str(Seq<char>),
    Char(i64),
    Bool(bool),
    Var(Seq<char>),
    This,
    Unary { op: UnOp, rhs: Box<ExprV> },
    Binary { op: BinOp, lhs: Box<ExprV>, rhs: Box<ExprV> },
    Ternary { cond: Box<ExprV>, yes: Box<ExprV>, no: Box<ExprV> },
    Index { array: Box<ExprV>, index: Box<ExprV> },
    Field { recv: Box<ExprV>, name: Seq<char> },
    MethodCall { recv: Box<ExprV>, method: Seq<char>, args: Seq<ExprV>, line: u32 },
    Call { name: Seq<char>, args: Seq<ExprV>, line: u32 },
    NewObject { class: Seq<char>, args: Seq<ExprV>, line: u32 },
    NewArray { elem_ty: Seq<char>, sizes: Seq<ExprV>, extra_dims: u64 },
    ArrayLit { elems: Seq<ExprV>, elem_ty: Option<Seq<char>> },
    InstanceOf { expr: Box<ExprV>, class: Seq<char> },
    Cast { ty: Seq<char>, expr: Box<ExprV>, line: u32 },
    Lambda { params: Seq<Seq<char>>, body: LambdaBodyV, line: u32 },
    MethodRef { recv: Box<ExprV>, method: Seq<char>, line: u32 },
    SwitchExpr { disc: Box<ExprV>, arms: Seq<SwitchArmV>, line: u32 },
    Println { newline: bool, err: bool, arg: Option<Box<ExprV>> },
    PostIncDec { name: Seq<char>, inc: bool },
    PreIncDec { name: Seq<char>, inc: bool },
}

/// The body of a lambda.
pub enum LambdaBody {
    Expr(Box<Expr>),
    Block(Vec<Stmt>),
}

pub enum LambdaBodyV {
    Expr(Box<ExprV>),
    Block(Seq<StmtV>),
}

/// What an arm of a `switch` expression does.
pub enum SwitchArmBody {
    Block(Vec<Stmt>),
    Expr(Box<Expr>),
}

pub enum SwitchArmBodyV {
    Block(Seq<StmtV>),
    Expr(Box<ExprV>),
}

/// What a statement is.
#[allow(inconsistent_fields)]
pub enum StmtKind {
    Local { ty: String, name: String, init: Option<Expr> },
    /// Several declarators of one declaration.
    Locals(Vec<Stmt>),
    Assign { name: String, op: AssignOp, value: Expr },
    IndexAssign { array: Expr, index: Expr, op: AssignOp, value: Expr },
    FieldAssign { recv: Expr, name: String, op: AssignOp, value: Expr },
    Expr(Expr),
    If { cond: Expr, body: Vec<Stmt>, els: Vec<Stmt> },
    While { cond: Expr, body: Vec<Stmt> },
    DoWhile { body: Vec<Stmt>, cond: Expr },
    For { init: Vec<Stmt>, cond: Option<Expr>, update: Vec<Stmt>, body: Vec<Stmt> },
    ForEach { ty: String, name: String, iter: Expr, body: Vec<Stmt> },
    Switch { disc: Expr, groups: Vec<SwitchGroup> },
    Labeled { label: String, body: Box<Stmt> },
    Break(Option<String>),
    Continue(Option<String>),
    Return(Option<Expr>),
    Try { body: Vec<Stmt>, catches: Vec<CatchArm>, finally_body: Vec<Stmt> },
    Throw(Expr),
    Yield(Expr),
}

#[allow(inconsistent_fields)]
pub enum StmtKindV {
    Local { ty: Seq<char>, name: Seq<char>, init: Option<ExprV> },
    Locals(Seq<StmtV>),
    Assign { name: Seq<char>, op: AssignOp, value: ExprV },
    IndexAssign { array: ExprV, index: ExprV, op: AssignOp, value: ExprV },
    FieldAssign { recv: ExprV, name: Seq<char>, op: AssignOp, value: ExprV },
    Expr(ExprV),
    If { cond: ExprV, body: Seq<StmtV>, els: Seq<StmtV> },
    While { cond: ExprV, body: Seq<StmtV> },
    DoWhile { body: Seq<StmtV>, cond: ExprV },
    For { init: Seq<StmtV>, cond: Option<ExprV>, update: Seq<StmtV>, body: Seq<StmtV> },
    ForEach { ty: Seq<char>, name: Seq<char>, iter: ExprV, body: Seq<StmtV> },
    Switch { disc: ExprV, groups: Seq<SwitchGroupV> },
    Labeled { label: Seq<char>, body: Box<StmtV> },
    Break(Option<Seq<char>>),
    Continue(Option<Seq<char>>),
    Return(Option<ExprV>),
    Try { body: Seq<StmtV>, catches: Seq<CatchArmV>, finally_body: Seq<StmtV> },
    Throw(ExprV),
    Yield(ExprV),
}

/// A statement and the line it starts on.
pub struct Stmt {
    pub line: u32,
    pub kind: StmtKind,
}

pub struct StmtV {
    pub line: u32,
    pub kind: StmtKindV,
}

/// An arm of a `switch` expression.
pub struct SwitchArm {
    pub labels: Vec<Expr>,
    pub is_default: bool,
    pub body: SwitchArmBody,
}

pub struct SwitchArmV {
    pub labels: Seq<ExprV>,
    pub is_default: bool,
    pub body: SwitchArmBodyV,
}

/// Labels of a `switch` statement and what follows them.
pub struct SwitchGroup {
    pub labels: Vec<Expr>,
    pub is_default: bool,
    pub body: Vec<Stmt>,
}

pub struct SwitchGroupV {
    pub labels: Seq<ExprV>,
    pub is_default: bool,
    pub body: Seq<StmtV>,
}

pub struct CatchArm {
    pub types: Vec<String>,
    pub name: String,
    pub body: Vec<Stmt>,
}

pub struct CatchArmV {
    pub types: Seq<Seq<char>>,
    pub name: Seq<char>,
    pub body: Seq<StmtV>,
}

/// A parameter; one of variable arity is an array.
pub struct Param {
    pub ty: String,
    pub name: String,
    pub varargs: bool,
}

pub struct ParamV {
    pub ty: Seq<char>,
    pub name: Seq<char>,
    pub varargs: bool,
}

pub struct FieldDecl {
    pub ty: String,
    pub name: String,
    pub init: Option<Expr>,
    pub line: u32,
}

pub struct FieldDeclV {
    pub ty: Seq<char>,
    pub name: Seq<char>,
    pub init: Option<ExprV>,
    pub line: u32,
}

/// A constructor.
pub struct Ctor {
    pub params: Vec<Param>,
    pub body: Vec<Stmt>,
    pub line: u32,
}

pub struct CtorV {
    pub params: Seq<ParamV>,
    pub body: Seq<StmtV>,
    pub line: u32,
}

pub struct Method {
    pub name: String,
    pub owner: String,
    pub params: Vec<Param>,
    pub ret: String,
    pub body: Vec<Stmt>,
    pub is_abstract: bool,
    pub line: u32,
}

pub struct MethodV {
    pub name: Seq<char>,
    pub owner: Seq<char>,
    pub params: Seq<ParamV>,
    pub ret: Seq<char>,
    pub body: Seq<StmtV>,
    pub is_abstract: bool,
    pub line: u32,
}

/// A constant of an enum, and the class of its body where it has one.
pub struct EnumConstant {
    pub name: String,
    pub line: u32,
    pub args: Vec<Expr>,
    pub body_class: Option<String>,
}

pub struct EnumConstantV {
    pub name: Seq<char>,
    pub line: u32,
    pub args: Seq<ExprV>,
    pub body_class: Option<Seq<char>>,
}

/// A class, interface, enum or record.
pub struct Class {
    pub name: String,
    pub binary: String,
    pub superclass: Option<String>,
    pub interfaces: Vec<String>,
    pub is_interface: bool,
    pub is_enum: bool,
    pub is_record: bool,
    pub enum_constants: Vec<EnumConstant>,
    pub fields: Vec<FieldDecl>,
    pub static_fields: Vec<FieldDecl>,
    pub static_init: Vec<Stmt>,
    pub inst_init: Vec<Stmt>,
    pub ctors: Vec<Ctor>,
    pub methods: Vec<Method>,
    pub line: u32,
}

pub struct ClassV {
    pub name: Seq<char>,
    pub binary: Seq<char>,
    pub superclass: Option<Seq<char>>,
    pub interfaces: Seq<Seq<char>>,
    pub is_interface: bool,
    pub is_enum: bool,
    pub is_record: bool,
    pub enum_constants: Seq<EnumConstantV>,
    pub fields: Seq<FieldDeclV>,
    pub static_fields: Seq<FieldDeclV>,
    pub static_init: Seq<StmtV>,
    pub inst_init: Seq<StmtV>,
    pub ctors: Seq<CtorV>,
    pub methods: Seq<MethodV>,
    pub line: u32,
}

/// A compilation unit: the entry point, the static methods of all its classes, and the classes.
pub struct Program {
    pub class_name: String,
    pub main: Vec<Stmt>,
    pub main_param: Option<String>,
    pub methods: Vec<Method>,
    pub classes: Vec<Class>,
    pub uses_exceptions: bool,
    pub uses_functional: bool,
}

pub struct ProgramV {
    pub class_name: Seq<char>,
    pub main: Seq<StmtV>,
    pub main_param: Option<Seq<char>>,
    pub methods: Seq<MethodV>,
    pub classes: Seq<ClassV>,
    pub uses_exceptions: bool,
    pub uses_functional: bool,
}

// ── Views ───────────────────────────────────────────────────────────────────

/// What an expression stands for.
pub open spec fn expr_view(e: Expr) -> ExprV
    decreases e,
{
    match e {
        Expr::Int(x) => ExprV::Int(x),
        Expr::Long(x) => ExprV::Long(x),
        Expr::Float(x) => ExprV::Float(x@),
        Expr::Float32(x) => ExprV::Float32(x@),
        Expr::Str(x) => ExprV::Str(x@),
        Expr::Char(x) => ExprV::Char(x),
        Expr::Bool(x) => ExprV::Bool(x),
        Expr::Var(x) => ExprV::Var(x@),
        Expr::This => ExprV::This,
        Expr::Unary { op, rhs } => ExprV::Unary {
            op,
            rhs: Box::new(expr_view(*rhs)),
        },
        Expr::Binary { op, lhs, rhs } => ExprV::Binary {
            op,
            lhs: Box::new(expr_view(*lhs)),
            rhs: Box::new(expr_view(*rhs)),
        },
        Expr::Ternary { cond, yes, no } => ExprV::Ternary {
            cond: Box::new(expr_view(*cond)),
            yes: Box::new(expr_view(*yes)),
            no: Box::new(expr_view(*no)),
        },
        Expr::Index { array, index } => ExprV::Index {
            array: Box::new(expr_view(*array)),
            index: Box::new(expr_view(*index)),
        },
        Expr::Field { recv, name } => ExprV::Field {
            recv: Box::new(expr_view(*recv)),
            name: name@,
        },
        Expr::MethodCall { recv, method, args, line } => ExprV::MethodCall {
            recv: Box::new(expr_view(*recv)),
            method: method@,
            args: expr_views(args@),
            line,
        },
        Expr::Call { name, args, line } => ExprV::Call {
            name: name@,
            args: expr_views(args@),
            line,
        },
        Expr::NewObject { class, args, line } => ExprV::NewObject {
            class: class@,
            args: expr_views(args@),
            line,
        },
        Expr::NewArray { elem_ty, sizes, extra_dims } => ExprV::NewArray {
            elem_ty: elem_ty@,
            sizes: expr_views(sizes@),
            extra_dims,
        },
        Expr::ArrayLit { elems, elem_ty } => ExprV::ArrayLit {
            elems: expr_views(elems@),
            elem_ty: opt_view(elem_ty),
        },
        Expr::InstanceOf { expr, class } => ExprV::InstanceOf {
            expr: Box::new(expr_view(*expr)),
            class: class@,
        },
        Expr::Cast { ty, expr, line } => ExprV::Cast {
            ty: ty@,
            expr: Box::new(expr_view(*expr)),
            line,
        },
        Expr::Lambda { params, body, line } => ExprV::Lambda {
            params: views(params@),
            body: lambda_view(body),
            line,
        },
        Expr::MethodRef { recv, method, line } => ExprV::MethodRef {
            recv: Box::new(expr_view(*recv)),
            method: method@,
            line,
        },
        Expr::SwitchExpr { disc, arms, line } => ExprV::SwitchExpr {
            disc: Box::new(expr_view(*disc)),
            arms: arm_views(arms@),
            line,
        },
        Expr::Println { newline, err, arg } => ExprV::Println {
            newline,
            err,
            arg: opt_box_view(arg),
        },
        Expr::PostIncDec { name, inc } => ExprV::PostIncDec {
            name: name@,
            inc,
        },
        Expr::PreIncDec { name, inc } => ExprV::PreIncDec {
            name: name@,
            inc,
        },
    }
}

/// What the body of a lambda stands for.
pub open spec fn lambda_view(e: LambdaBody) -> LambdaBodyV
    decreases e,
{
    match e {
        LambdaBody::Expr(x) => LambdaBodyV::Expr(Box::new(expr_view(*x))),
        LambdaBody::Block(x) => LambdaBodyV::Block(stmt_views(x@)),
    }
}

/// What the body of an arm stands for.
pub open spec fn arm_body_view(e: SwitchArmBody) -> SwitchArmBodyV
    decreases e,
{
    match e {
        SwitchArmBody::Block(x) => SwitchArmBodyV::Block(stmt_views(x@)),
        SwitchArmBody::Expr(x) => SwitchArmBodyV::Expr(Box::new(expr_view(*x))),
    }
}

/// What a kind of statement stands for.
pub open spec fn kind_view(e: StmtKind) -> StmtKindV
    decreases e,
{
    match e {
        StmtKind::Local { ty, name, init } => StmtKindV::Local {
            ty: ty@,
            name: name@,
            init: opt_expr_view(init),
        },
        StmtKind::Locals(x) => StmtKindV::Locals(stmt_views(x@)),
        StmtKind::Assign { name, op, value } => StmtKindV::Assign {
            name: name@,
            op,
            value: expr_view(value),
        },
        StmtKind::IndexAssign { array, index, op, value } => StmtKindV::IndexAssign {
            array: expr_view(array),
            index: expr_view(index),
            op,
            value: expr_view(value),
        },
        StmtKind::FieldAssign { recv, name, op, value } => StmtKindV::FieldAssign {
            recv: expr_view(recv),
            name: name@,
            op,
            value: expr_view(value),
        },
        StmtKind::Expr(x) => StmtKindV::Expr(expr_view(x)),
        StmtKind::If { cond, body, els } => StmtKindV::If {
            cond: expr_view(cond),
            body: stmt_views(body@),
            els: stmt_views(els@),
        },
        StmtKind::While { cond, body } => StmtKindV::While {
            cond: expr_view(cond),
            body: stmt_views(body@),
        },
        StmtKind::DoWhile { body, cond } => StmtKindV::DoWhile {
            body: stmt_views(body@),
            cond: expr_view(cond),
        },
        StmtKind::For { init, cond, update, body } => StmtKindV::For {
            init: stmt_views(init@),
            cond: opt_expr_view(cond),
            update: stmt_views(update@),
            body: stmt_views(body@),
        },
        StmtKind::ForEach { ty, name, iter, body } => StmtKindV::ForEach {
            ty: ty@,
            name: name@,
            iter: expr_view(iter),
            body: stmt_views(body@),
        },
        StmtKind::Switch { disc, groups } => StmtKindV::Switch {
            disc: expr_view(disc),
            groups: group_views(groups@),
        },
        StmtKind::Labeled { label, body } => StmtKindV::Labeled {
            label: label@,
            body: Box::new(stmt_view(*body)),
        },
        StmtKind::Break(x) => StmtKindV::Break(opt_view(x)),
        StmtKind::Continue(x) => StmtKindV::Continue(opt_view(x)),
        StmtKind::Return(x) => StmtKindV::Return(opt_expr_view(x)),
        StmtKind::Try { body, catches, finally_body } => StmtKindV::Try {
            body: stmt_views(body@),
            catches: catch_views(catches@),
            finally_body: stmt_views(finally_body@),
        },
        StmtKind::Throw(x) => StmtKindV::Throw(expr_view(x)),
        StmtKind::Yield(x) => StmtKindV::Yield(expr_view(x)),
    }
}

/// What a [`Stmt`] stands for.
pub open spec fn stmt_view(s: Stmt) -> StmtV
    decreases s,
{
    StmtV {
        line: s.line,
        kind: kind_view(s.kind),
    }
}

/// What a [`SwitchArm`] stands for.
pub open spec fn arm_view(s: SwitchArm) -> SwitchArmV
    decreases s,
{
    SwitchArmV {
        labels: expr_views(s.labels@),
        is_default: s.is_default,
        body: arm_body_view(s.body),
    }
}

/// What a [`SwitchGroup`] stands for.
pub open spec fn group_view(s: SwitchGroup) -> SwitchGroupV
    decreases s,
{
    SwitchGroupV {
        labels: expr_views(s.labels@),
        is_default: s.is_default,
        body: stmt_views(s.body@),
    }
}

/// What a [`CatchArm`] stands for.
pub open spec fn catch_view(s: CatchArm) -> CatchArmV
    decreases s,
{
    CatchArmV {
        types: views(s.types@),
        name: s.name@,
        body: stmt_views(s.body@),
    }
}

/// What a sequence of [`Expr`] stands for.
pub open spec fn expr_views(s: Seq<Expr>) -> Seq<ExprV>
    decreases s,
{
    Seq::new(
        s.len(),
        |i: int|
            if 0 <= i < s.len() {
                expr_view(s[i])
            } else {
                arbitrary()
            },
    )
}

/// What a sequence of [`Stmt`] stands for.
pub open spec fn stmt_views(s: Seq<Stmt>) -> Seq<StmtV>
    decreases s,
{
    Seq::new(
        s.len(),
        |i: int|
            if 0 <= i < s.len() {
                stmt_view(s[i])
            } else {
                arbitrary()
            },
    )
}

/// What a sequence of [`SwitchArm`] stands for.
pub open spec fn arm_views(s: Seq<SwitchArm>) -> Seq<SwitchArmV>
    decreases s,
{
    Seq::new(
        s.len(),
        |i: int|
            if 0 <= i < s.len() {
                arm_view(s[i])
            } else {
                arbitrary()
            },
    )
}

/// What a sequence of [`SwitchGroup`] stands for.
pub open spec fn group_views(s: Seq<SwitchGroup>) -> Seq<SwitchGroupV>
    decreases s,
{
    Seq::new(
        s.len(),
        |i: int|
            if 0 <= i < s.len() {
                group_view(s[i])
            } else {
                arbitrary()
            },
    )
}

/// What a sequence of [`CatchArm`] stands for.
pub open spec fn catch_views(s: Seq<CatchArm>) -> Seq<CatchArmV>
    decreases s,
{
    Seq::new(
        s.len(),
        |i: int|
            if 0 <= i < s.len() {
                catch_view(s[i])
            } else {
                arbitrary()
            },
    )
}

/// The view of an optional expression.
pub open spec fn opt_expr_view(e: Option<Expr>) -> Option<ExprV>
    decreases e,
{
    match e {
        Some(x) => Some(expr_view(x)),
        None => None,
    }
}

/// The view of an optional expression.
pub open spec fn opt_box_view(e: Option<Box<Expr>>) -> Option<Box<ExprV>>
    decreases e,
{
    match e {
        Some(x) => Some(Box::new(expr_view(*x))),
        None => None,
    }
}

/// What a [`Param`] stands for.
pub open spec fn param_view(s: Param) -> ParamV
{
    ParamV {
        ty: s.ty@,
        name: s.name@,
        varargs: s.varargs,
    }
}

/// What a [`FieldDecl`] stands for.
pub open spec fn field_decl_view(s: FieldDecl) -> FieldDeclV
{
    FieldDeclV {
        ty: s.ty@,
        name: s.name@,
        init: opt_expr_view(s.init),
        line: s.line,
    }
}

/// What a [`Ctor`] stands for.
pub open spec fn ctor_view(s: Ctor) -> CtorV
{
    CtorV {
        params: param_views(s.params@),
        body: stmt_views(s.body@),
        line: s.line,
    }
}

/// What a [`Method`] stands for.
pub open spec fn method_view(s: Method) -> MethodV
{
    MethodV {
        name: s.name@,
        owner: s.owner@,
        params: param_views(s.params@),
        ret: s.ret@,
        body: stmt_views(s.body@),
        is_abstract: s.is_abstract,
        line: s.line,
    }
}

/// What a [`EnumConstant`] stands for.
pub open spec fn constant_view(s: EnumConstant) -> EnumConstantV
{
    EnumConstantV {
        name: s.name@,
        line: s.line,
        args: expr_views(s.args@),
        body_class: opt_view(s.body_class),
    }
}

/// What a [`Class`] stands for.
pub open spec fn class_view(s: Class) -> ClassV
{
    ClassV {
        name: s.name@,
        binary: s.binary@,
        superclass: opt_view(s.superclass),
        interfaces: views(s.interfaces@),
        is_interface: s.is_interface,
        is_enum: s.is_enum,
        is_record: s.is_record,
        enum_constants: constant_views(s.enum_constants@),
        fields: field_decl_views(s.fields@),
        static_fields: field_decl_views(s.static_fields@),
        static_init: stmt_views(s.static_init@),
        inst_init: stmt_views(s.inst_init@),
        ctors: ctor_views(s.ctors@),
        methods: method_views(s.methods@),
        line: s.line,
    }
}

/// What a [`Program`] stands for.
pub open spec fn program_view(s: Program) -> ProgramV
{
    ProgramV {
        class_name: s.class_name@,
        main: stmt_views(s.main@),
        main_param: opt_view(s.main_param),
        methods: method_views(s.methods@),
        classes: class_views(s.classes@),
        uses_exceptions: s.uses_exceptions,
        uses_functional: s.uses_functional,
    }
}

/// What a sequence of [`Param`] stands for.
pub open spec fn param_views(s: Seq<Param>) -> Seq<ParamV> {
    Seq::new(s.len(), |i: int| param_view(s[i]))
}

/// What a sequence of [`FieldDecl`] stands for.
pub open spec fn field_decl_views(s: Seq<FieldDecl>) -> Seq<FieldDeclV> {
    Seq::new(s.len(), |i: int| field_decl_view(s[i]))
}

/// What a sequence of [`Ctor`] stands for.
pub open spec fn ctor_views(s: Seq<Ctor>) -> Seq<CtorV> {
    Seq::new(s.len(), |i: int| ctor_view(s[i]))
}

/// What a sequence of [`Method`] stands for.
pub open spec fn method_views(s: Seq<Method>) -> Seq<MethodV> {
    Seq::new(s.len(), |i: int| method_view(s[i]))
}

/// What a sequence of [`EnumConstant`] stands for.
pub open spec fn constant_views(s: Seq<EnumConstant>) -> Seq<EnumConstantV> {
    Seq::new(s.len(), |i: int| constant_view(s[i]))
}

/// What a sequence of [`Class`] stands for.
pub open spec fn class_views(s: Seq<Class>) -> Seq<ClassV> {
    Seq::new(s.len(), |i: int| class_view(s[i]))
}

impl View for Expr {
    type V = ExprV;

    open spec fn view(&self) -> ExprV {
        expr_view(*self)
    }
}

impl View for StmtKind {
    type V = StmtKindV;

    open spec fn view(&self) -> StmtKindV {
        kind_view(*self)
    }
}

impl View for Stmt {
    type V = StmtV;

    open spec fn view(&self) -> StmtV {
        stmt_view(*self)
    }
}

impl View for LambdaBody {
    type V = LambdaBodyV;

    open spec fn view(&self) -> LambdaBodyV {
        lambda_view(*self)
    }
}

impl View for Param {
    type V = ParamV;

    open spec fn view(&self) -> ParamV {
        param_view(*self)
    }
}

impl View for FieldDecl {
    type V = FieldDeclV;

    open spec fn view(&self) -> FieldDeclV {
        field_decl_view(*self)
    }
}

impl View for Ctor {
    type V = CtorV;

    open spec fn view(&self) -> CtorV {
        ctor_view(*self)
    }
}

impl View for Method {
    type V = MethodV;

    open spec fn view(&self) -> MethodV {
        method_view(*self)
    }
}

impl View for EnumConstant {
    type V = EnumConstantV;

    open spec fn view(&self) -> EnumConstantV {
        constant_view(*self)
    }
}

impl View for Class {
    type V = ClassV;

    open spec fn view(&self) -> ClassV {
        class_view(*self)
    }
}

impl View for Program {
    type V = ProgramV;

    open spec fn view(&self) -> ProgramV {
        program_view(*self)
    }
}
/// The field an enum constant keeps its ordinal in.
pub open spec fn enum_ordinal_field() -> Seq<char> {
    "#ordinal"@
}

/// The class of an enum constant's body.
pub open spec fn body_class_name(owner: Seq<char>, constant: Seq<char>) -> Seq<char> {
    owner + "$"@ + constant
}

/// The class of an enum constant's body.
pub fn enum_body_class(owner: &str, constant: &str) -> (r: String)
    ensures
        r@ == body_class_name(owner@, constant@),
{
    let mut r: String = own(owner);
    r.append("$");
    r.append(constant);
    r
}

impl Stmt {
    /// A statement on a line.
    pub fn new(line: u32, kind: StmtKind) -> (r: Stmt)
        ensures
            r@ == (StmtV { line, kind: kind@ }),
    {
        Stmt { line, kind }
    }
}

impl Param {
    pub fn copy(&self) -> (r: Param)
        ensures
            r@ == self@,
    {
        Param { ty: own(self.ty.as_str()), name: own(self.name.as_str()), varargs: self.varargs }
    }
}

} // verus!
