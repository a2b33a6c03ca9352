//! The abstract syntax tree. Names are kept as strings; a float literal keeps
//! its decimal text, with a leading `-` when a pattern negates it.
use vstd::prelude::*;
use crate::syntax::span::Span;

verus! {

#[derive(Debug, PartialEq)]
pub struct Expr {
    pub kind: ExprKind,
    pub span: Span,
}

#[derive(Debug, PartialEq)]
pub enum ExprKind {
    IntLit(i64),
    FloatLit(String),
    StringLit(String),
    CharLit(char),
    BoolLit(bool),
    Unit,
    Var(String),
    Constructor(String),
    Tuple(Vec<Expr>),
    List(Vec<Expr>),
    Cons(Box<Expr>, Box<Expr>),
    BinOp(BinOp, Box<Expr>, Box<Expr>),
    UnaryNeg(Box<Expr>),
    Not(Box<Expr>),
    App(Box<Expr>, Box<Expr>),
    Fn(Pat, Box<Expr>),
    If(Box<Expr>, Box<Expr>, Box<Expr>),
    Let(Vec<Decl>, Box<Expr>),
    Case(Box<Expr>, Vec<(Pat, Expr)>),
    Ann(Box<Expr>, TypeExpr),
    Paren(Box<Expr>),
    Perform(String, Box<Expr>),
    Handle {
        body: Box<Expr>,
        return_var: String,
        return_body: Box<Expr>,
        handlers: Vec<EffectHandler>,
    },
    Resume(Box<Expr>, Box<Expr>),
}

#[derive(Debug, Clone, Copy, PartialEq, Eq, Structural)]
pub enum BinOp {
    AddInt,
    SubInt,
    MulInt,
    DivInt,
    ModInt,
    AddFloat,
    SubFloat,
    MulFloat,
    DivFloat,
    ConcatStr,
    LtInt,
    GtInt,
    LeInt,
    GeInt,
    LtFloat,
    GtFloat,
    LeFloat,
    GeFloat,
    Eq,
    Ne,
    Andalso,
    Orelse,
}

#[derive(Debug, PartialEq)]
pub struct Decl {
    pub kind: DeclKind,
    pub span: Span,
}

#[derive(Debug, PartialEq)]
pub enum DeclKind {
    Val(Pat, Expr),
    ValRec(String, Expr),
    Fun(Vec<FunBinding>),
    Datatype(DatatypeDecl),
    TypeAlias(TypeAliasDecl),
    Local(Vec<Decl>, Vec<Decl>),
    Use(String),
    Signature(SignatureDecl),
    Structure { name: String, signature: Option<String>, opaque: bool, decls: Vec<Decl> },
    Effect(String, Option<TypeExpr>),
}

#[derive(Debug, PartialEq)]
pub struct FunBinding {
    pub name: String,
    pub clauses: Vec<FunClause>,
    pub span: Span,
}

#[derive(Debug, PartialEq)]
pub struct FunClause {
    pub pats: Vec<Pat>,
    pub body: Expr,
    pub span: Span,
}

#[derive(Debug, PartialEq)]
pub struct DatatypeDecl {
    pub tyvars: Vec<String>,
    pub name: String,
    pub constructors: Vec<ConDecl>,
    pub span: Span,
}

#[derive(Debug, PartialEq)]
pub struct ConDecl {
    pub name: String,
    pub payload: Option<TypeExpr>,
    pub span: Span,
}

#[derive(Debug, PartialEq)]
pub struct TypeAliasDecl {
    pub tyvars: Vec<String>,
    pub name: String,
    pub ty: TypeExpr,
    pub span: Span,
}

#[derive(Debug, PartialEq)]
pub struct SignatureDecl {
    pub name: String,
    pub specs: Vec<SignatureSpec>,
    pub span: Span,
}

#[derive(Debug, PartialEq)]
pub enum SignatureSpec {
    Val { name: String, ty: TypeExpr, span: Span },
}

#[derive(Debug, PartialEq)]
pub struct EffectHandler {
    pub effect_name: String,
    pub payload_var: String,
    pub cont_var: String,
    pub body: Expr,
    pub span: Span,
}

#[derive(Debug, PartialEq)]
pub struct Pat {
    pub kind: PatKind,
    pub span: Span,
}

#[derive(Debug, PartialEq)]
pub enum PatKind {
    Wildcard,
    Var(String),
    IntLit(i64),
    FloatLit(String),
    StringLit(String),
    CharLit(char),
    BoolLit(bool),
    Unit,
    Tuple(Vec<Pat>),
    Constructor(String, Option<Box<Pat>>),
    Cons(Box<Pat>, Box<Pat>),
    List(Vec<Pat>),
    Ann(Box<Pat>, TypeExpr),
    As(String, Box<Pat>),
    Paren(Box<Pat>),
}

#[derive(Debug, PartialEq)]
pub struct TypeExpr {
    pub kind: TypeExprKind,
    pub span: Span,
}

#[derive(Debug, PartialEq)]
pub enum TypeExprKind {
    Named(String),
    Var(String),
    App(String, Vec<TypeExpr>),
    Arrow(Box<TypeExpr>, Box<TypeExpr>),
    Tuple(Vec<TypeExpr>),
    Paren(Box<TypeExpr>),
}

/// A parsed source file.
#[derive(Debug, PartialEq)]
pub struct Program {
    pub decls: Vec<Decl>,
}

} // verus!
