//! The parts of an L# program that metadata checks read: expressions,
//! patterns, metadata forms and declarations.
//!
//! Parsing L# source into this form is the front end's job; the checks of
//! this library work on the parsed tree.

use vstd::prelude::*;

verus! {

/// A span in source text: byte offsets `start..end`.
#[derive(Debug, Clone, Copy, PartialEq, Eq, Hash)]
pub struct Span {
    pub start: usize,
    pub end: usize,
}

impl Span {
    /// The span `start..end`.
    pub fn new(start: usize, end: usize) -> (s: Span)
        ensures
            s.start == start,
            s.end == end,
    {
        Span { start, end }
    }
}

/// A literal value.
#[derive(Debug, PartialEq, Eq)]
pub enum Literal {
    Int(i64),
    Bool(bool),
    Str(String),
}

/// Whether two literals are equal.
pub open spec fn literal_eq(a: Literal, b: Literal) -> bool {
    match (a, b) {
        (Literal::Int(x), Literal::Int(y)) => x == y,
        (Literal::Bool(x), Literal::Bool(y)) => x == y,
        (Literal::Str(x), Literal::Str(y)) => x@ == y@,
        _ => false,
    }
}

/// A type annotation.
#[derive(Debug, PartialEq, Eq)]
pub enum TypeExpr {
    /// A type written as a plain name, such as `Int`.
    Named(Span, String),
    /// Any other type expression.
    Compound(Span),
}

/// A pattern of a `let` binding or a `match` arm.
#[derive(Debug, PartialEq, Eq)]
pub enum Pattern {
    Wildcard(Span),
    Lit(Span, Literal),
    Var(Span, String),
    Constructor(Span, String, Vec<Pattern>),
    RecordPat(Span, String, Vec<(String, Pattern)>),
}

/// One arm of a `match`.
#[derive(Debug, PartialEq, Eq)]
pub struct MatchArm {
    pub pattern: Pattern,
    pub body: Expr,
}

/// An expression.
#[derive(Debug, PartialEq, Eq)]
pub enum Expr {
    Lit(Span, Literal),
    Var(Span, String),
    /// A call: callee and arguments.
    App(Span, Box<Expr>, Vec<Expr>),
    /// `(if condition then else)`
    If(Span, Box<Expr>, Box<Expr>, Box<Expr>),
    /// `(let [pattern value ...] body)`
    Let(Span, Vec<(Pattern, Expr)>, Box<Expr>),
    /// `(do e1 ... en)`
    Do(Span, Vec<Expr>),
    /// `(match scrutinee [pattern body] ...)`
    Match(Span, Box<Expr>, Vec<MatchArm>),
    /// A type-annotated expression.
    Ann(Span, Box<Expr>, TypeExpr),
    /// Any other expression form; static evaluation does not look inside it.
    Other(Span),
}

/// The span of an expression.
pub open spec fn expr_span(e: Expr) -> Span {
    match e {
        Expr::Lit(s, _) => s,
        Expr::Var(s, _) => s,
        Expr::App(s, _, _) => s,
        Expr::If(s, _, _, _) => s,
        Expr::Let(s, _, _) => s,
        Expr::Do(s, _) => s,
        Expr::Match(s, _, _) => s,
        Expr::Ann(s, _, _) => s,
        Expr::Other(s) => s,
    }
}

impl Expr {
    /// The span of the expression.
    pub fn span(&self) -> (s: Span)
        ensures
            s == expr_span(*self),
    {
        match self {
            Expr::Lit(s, _) => *s,
            Expr::Var(s, _) => *s,
            Expr::App(s, _, _) => *s,
            Expr::If(s, _, _, _) => *s,
            Expr::Let(s, _, _) => *s,
            Expr::Do(s, _) => *s,
            Expr::Match(s, _, _) => *s,
            Expr::Ann(s, _, _) => *s,
            Expr::Other(s) => *s,
        }
    }
}

/// One expectation of a `:case`: an expression and its expected value.
#[derive(Debug, PartialEq, Eq)]
pub struct CaseExpectation {
    pub actual: Expr,
    pub expected: Expr,
}

impl CaseExpectation {
    pub fn actual(&self) -> (r: &Expr)
        ensures
            *r == self.actual,
    {
        &self.actual
    }

    pub fn expected(&self) -> (r: &Expr)
        ensures
            *r == self.expected,
    {
        &self.expected
    }
}

/// A typed binder of a `:property` `for-all`.
#[derive(Debug, PartialEq, Eq)]
pub struct PropertyBinder {
    pub name: String,
    pub ty: TypeExpr,
    pub span: Span,
}

impl PropertyBinder {
    pub fn name(&self) -> (r: &str)
        ensures
            r@ == self.name@,
    {
        self.name.as_str()
    }

    pub fn ty(&self) -> (r: &TypeExpr)
        ensures
            *r == self.ty,
    {
        &self.ty
    }

    pub fn source_span(&self) -> (r: Span)
        ensures
            r == self.span,
    {
        self.span
    }
}

/// One `for-all` of a `:property`.
#[derive(Debug, PartialEq, Eq)]
pub struct PropertyForm {
    pub binders: Vec<PropertyBinder>,
    pub cases: Option<usize>,
    pub seed: Option<u64>,
    pub shrink: Option<bool>,
    pub preconditions: Vec<Expr>,
    pub postcondition: Expr,
    pub span: Span,
}

impl PropertyForm {
    pub fn binders(&self) -> (r: &[PropertyBinder])
        ensures
            r@ == self.binders@,
    {
        self.binders.as_slice()
    }

    pub fn cases(&self) -> (r: Option<usize>)
        ensures
            r == self.cases,
    {
        self.cases
    }

    pub fn seed(&self) -> (r: Option<u64>)
        ensures
            r == self.seed,
    {
        self.seed
    }

    pub fn shrink(&self) -> (r: Option<bool>)
        ensures
            r == self.shrink,
    {
        self.shrink
    }

    pub fn preconditions(&self) -> (r: &[Expr])
        ensures
            r@ == self.preconditions@,
    {
        self.preconditions.as_slice()
    }

    pub fn postcondition(&self) -> (r: &Expr)
        ensures
            *r == self.postcondition,
    {
        &self.postcondition
    }

    pub fn source_span(&self) -> (r: Span)
        ensures
            r == self.span,
    {
        self.span
    }
}

/// The kind of a canonical metadata form.
#[derive(Debug, PartialEq, Eq)]
pub enum MetadataFormKind {
    Case { expectations: Vec<CaseExpectation> },
    Assertion { predicates: Vec<Expr> },
    Property { properties: Vec<PropertyForm> },
    /// Any other metadata form.
    Other,
}

/// A canonical metadata form with its span.
#[derive(Debug, PartialEq, Eq)]
pub struct MetadataForm {
    pub kind: MetadataFormKind,
    pub span: Span,
}

impl MetadataForm {
    pub fn span(&self) -> (r: Span)
        ensures
            r == self.span,
    {
        self.span
    }
}

/// The metadata of a function definition.
#[derive(Debug, PartialEq, Eq)]
pub struct Metadata {
    /// `:doc`
    pub doc: Option<String>,
    /// `:params`: parameter names with their descriptions.
    pub params: Vec<(String, String)>,
    /// `:returns`
    pub returns: Option<String>,
    /// `:see-also`: the names of related declarations.
    pub see_also: Vec<String>,
    /// The canonical forms `:case`, `:assert`, `:property` and others.
    pub forms: Vec<MetadataForm>,
    /// `:invariant`
    pub invariant: Option<Expr>,
    /// `:example`
    pub example: Vec<Expr>,
    /// The source rendering of each `:example`, in the same order.
    pub example_text: Vec<String>,
}

/// A top-level or nested declaration.
#[derive(Debug, PartialEq, Eq)]
pub enum Decl {
    /// `(defn name [params] metadata... body)`, with the rendering of its
    /// declared return type, if it declares one.
    Defn {
        name: String,
        params: Vec<String>,
        return_ty: Option<String>,
        metadata: Option<Metadata>,
        span: Span,
    },
    /// A private declaration.
    Private { inner: Box<Decl>, span: Span },
    /// A module with its nested declarations.
    ModuleDecl { name: String, body: Vec<Decl>, span: Span },
    /// A record type definition.
    RecordDef { name: String, span: Span },
    /// An algebraic data type definition: its type parameters, the names of
    /// its variants, and its `:doc`.
    TypeDef {
        name: String,
        type_params: Vec<String>,
        variants: Vec<String>,
        doc: Option<String>,
        span: Span,
    },
    /// A type alias.
    TypeAlias { name: String, span: Span },
    /// A trait definition.
    TraitDef { name: String, span: Span },
    /// Any other declaration.
    Other(Span),
}

/// A parsed program.
#[derive(Debug, PartialEq, Eq)]
pub struct Program {
    pub decls: Vec<Decl>,
}

} // verus!
