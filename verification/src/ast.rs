//! The abstract syntax tree of one module, as the engine consumes it.
//!
//! The parser is an external collaborator: the surrounding program parses
//! the source and hands the tree in as plain values. Only the forms the
//! analysis reads are represented.

use vstd::prelude::*;
use crate::value::JsConst;
use crate::graph::Span;

verus! {

/// A property key in a member expression.
#[derive(Debug)]
pub enum MemberProp {
    /// A fixed name, as in `o.k`.
    Ident(String),
    /// A computed key, as in `o[e]`.
    Computed(Box<Expr>),
}

/// What a call invokes.
#[derive(Debug)]
pub enum Callee {
    /// An ordinary callee expression.
    Expr(Box<Expr>),
    /// The dynamic `import(..)` form.
    Import,
}

/// An expression.
#[derive(Debug)]
pub enum Expr {
    /// A literal.
    Lit(JsConst),
    /// An identifier read.
    Ident(String),
    /// The `+` operator.
    Bin { left: Box<Expr>, right: Box<Expr> },
    /// A property access.
    Member { obj: Box<Expr>, prop: MemberProp },
    /// A call, with its source span.
    Call { callee: Box<Callee>, args: Vec<Expr>, span: Span },
    /// An array literal.
    Array { elems: Vec<Expr> },
    /// A conditional expression; the analysis joins both branches.
    Cond { test: Box<Expr>, cons: Box<Expr>, alt: Box<Expr> },
}

/// One declarator of a `var`, `let` or `const` statement.
#[derive(Debug)]
pub struct VarDeclarator {
    /// The bound name, where the target is a plain identifier.
    pub name: Option<String>,
    /// The initializer.
    pub init: Option<Expr>,
}

/// A statement.
#[derive(Debug)]
pub enum Stmt {
    /// A declaration list.
    VarDecl(Vec<VarDeclarator>),
    /// An expression statement.
    Expr(Expr),
    /// A function declaration; its parameters become arguments of unknown
    /// call sites.
    FnDecl { name: String, params: Vec<String>, body: Vec<Stmt> },
}

/// One specifier of an import declaration.
#[derive(Debug)]
pub enum ImportSpecifier {
    Named { local: String, imported: Option<String>, is_type_only: bool },
    Default { local: String },
    Namespace { local: String },
}

/// An `import` declaration.
#[derive(Debug)]
pub struct ImportDecl {
    pub src: String,
    pub type_only: bool,
    pub specifiers: Vec<ImportSpecifier>,
}

/// A top-level item of the module.
#[derive(Debug)]
pub enum ModuleItem {
    Import(ImportDecl),
    /// `export .. from src` or a plain named export.
    ExportNamed { src: Option<String> },
    /// `export * from src`.
    ExportAll { src: String },
    Stmt(Stmt),
}

/// The kind of a comment.
#[derive(Debug, Clone, Copy, PartialEq, Eq, Structural)]
pub enum CommentKind {
    Line,
    Block,
}

/// A comment, with the text after its opening marker.
#[derive(Debug)]
pub struct Comment {
    pub kind: CommentKind,
    pub text: String,
}

/// A parsed module.
#[derive(Debug)]
pub struct Module {
    pub items: Vec<ModuleItem>,
    /// The comments before the first item, in source order.
    pub leading_comments: Vec<Comment>,
}

/// The outcome of parsing, as handed in by the host.
#[derive(Debug)]
pub enum ParseResult {
    Parsed(Module),
    Unparseable,
    NotFound,
}

} // verus!
