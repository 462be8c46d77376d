//! The syntax tree consumed by the renderer: an already-parsed module,
//! immutable, inspected read-only. Numeric and float literals carry their
//! source text verbatim.

use vstd::prelude::*;

verus! {

/// How one function-argument name was written.
pub enum ArgNames {
    Discard,
    LabelledDiscard { label: String },
    Named { name: String },
    NamedLabelled { name: String, label: String },
}

/// A type annotation.
pub enum TypeAst {
    Constructor { name: String, args: Vec<TypeAst> },
    Fn { args: Vec<TypeAst>, retrn: Box<TypeAst> },
    Var { name: String },
    Tuple { elems: Vec<TypeAst> },
}

/// A function-definition argument: its name(s) and optional annotation.
pub struct Arg {
    pub names: ArgNames,
    pub annotation: Option<TypeAst>,
}

/// One constructor of a custom type; each argument is an optional label with
/// its type.
pub struct RecordConstructor {
    pub name: String,
    pub args: Vec<(Option<String>, TypeAst)>,
}

/// One selectively imported name, with an optional rename.
pub struct UnqualifiedImport {
    pub name: String,
    pub as_name: Option<String>,
}

/// An argument of an external function declaration.
pub struct ExternalFnArg {
    pub label: Option<String>,
    pub typ: TypeAst,
}

/// Binary operators, each with a fixed rendering.
pub enum BinOp {
    And,
    Or,
    LtInt,
    LtEqInt,
    LtFloat,
    LtEqFloat,
    Eq,
    NotEq,
    GtEqInt,
    GtInt,
    GtEqFloat,
    GtFloat,
    AddInt,
    AddFloat,
    SubInt,
    SubFloat,
    MultInt,
    MultFloat,
    DivInt,
    DivFloat,
    ModuloInt,
}

/// A pattern, mirroring a subset of expressions.
pub enum Pattern {
    Int { value: String },
    Float { value: String },
    Str { value: String },
    Var { name: String },
    Let { name: String, pattern: Box<Pattern> },
    Discard,
    Nil,
    Cons { head: Box<Pattern>, tail: Box<Pattern> },
    Constructor { module: Option<String>, name: String, args: Vec<PatternCallArg> },
    Tuple { elems: Vec<Pattern> },
}

/// A labelled argument in a constructor pattern.
pub struct PatternCallArg {
    pub label: Option<String>,
    pub value: Pattern,
}

/// A labelled argument at a call site.
pub struct CallArg {
    pub label: Option<String>,
    pub value: Expr,
}

/// A guard on a case clause: comparisons and boolean combinators over
/// variables and literals.
pub enum ClauseGuard {
    Var { name: String },
    Int { value: String },
    Float { value: String },
    Str { value: String },
    And { left: Box<ClauseGuard>, right: Box<ClauseGuard> },
    Or { left: Box<ClauseGuard>, right: Box<ClauseGuard> },
    Eq { left: Box<ClauseGuard>, right: Box<ClauseGuard> },
    NotEq { left: Box<ClauseGuard>, right: Box<ClauseGuard> },
}

/// One clause of a case expression: patterns (one per subject), an optional
/// guard, and the clause body.
pub struct Clause {
    pub patterns: Vec<Pattern>,
    pub guard: Option<ClauseGuard>,
    pub body: Expr,
}

/// An expression.
pub enum Expr {
    Int { value: String },
    Float { value: String },
    Str { value: String },
    Var { name: String },
    Todo,
    Pipe { left: Box<Expr>, right: Box<Expr> },
    Sequence { first: Box<Expr>, rest: Box<Expr> },
    TupleIndex { tuple: Box<Expr>, index: u64 },
    Fn { args: Vec<Arg>, body: Box<Expr> },
    Nil,
    Cons { head: Box<Expr>, tail: Box<Expr> },
    Call { fun: Box<Expr>, args: Vec<CallArg> },
    BinOp { name: BinOp, left: Box<Expr>, right: Box<Expr> },
    Let { pattern: Pattern, value: Box<Expr>, rest: Box<Expr> },
    Case { subjects: Vec<Expr>, clauses: Vec<Clause> },
    FieldAccess { container: Box<Expr>, label: String },
    Tuple { elems: Vec<Expr> },
}

/// A top-level statement.
pub enum Statement {
    Fn {
        public: bool,
        name: String,
        args: Vec<Arg>,
        body: Expr,
        return_annotation: Option<TypeAst>,
    },
    TypeAlias { public: bool, alias: String, args: Vec<String>, resolved_type: TypeAst },
    CustomType {
        public: bool,
        name: String,
        args: Vec<String>,
        constructors: Vec<RecordConstructor>,
    },
    ExternalFn {
        public: bool,
        name: String,
        args: Vec<ExternalFnArg>,
        retrn: TypeAst,
        module: String,
        fun: String,
    },
    ExternalType { public: bool, name: String, args: Vec<String> },
    Import { module: Vec<String>, unqualified: Vec<UnqualifiedImport>, as_name: Option<String> },
}

/// A module: an ordered sequence of statements.
pub struct Module {
    pub statements: Vec<Statement>,
}

} // verus!
