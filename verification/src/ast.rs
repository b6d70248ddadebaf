//! Abstract syntax of the specification language: types, expressions,
//! patterns, statements, items and the diagnostics the checker can emit.
//!
//! Every node carries a source location (`Span`) so that a diagnostic can
//! point back into the source text.

use vstd::prelude::*;

verus! {

/// A half-open range of positions in the source text.
#[derive(Clone, Copy, Debug, PartialEq, Eq, Structural)]
pub struct Span {
    pub lo: usize,
    pub hi: usize,
}

/// How a value is held: `Consumed` values are owned and linearly tracked,
/// `Borrowed` values are read-only aliases that never affect their owner.
#[derive(Clone, Copy, Debug, PartialEq, Eq, Structural)]
pub enum Borrowing {
    Consumed,
    Borrowed,
}

/// A source identifier.
pub type Ident = String;

/// A syntax node together with its source location.
pub type Spanned<T> = (T, Span);

/// A possibly qualified name, such as `crypto::Word`, with an optional
/// single type argument, as in `Option<Bool>`.
#[derive(Debug, PartialEq, Eq)]
pub struct TypePath {
    pub location: Vec<Spanned<Ident>>,
    pub arg: Option<Box<BaseTyp>>,
}

/// The base types of the language: nominal, with no subtyping or widening.
#[derive(Debug, PartialEq, Eq)]
pub enum BaseTyp {
    Unit,
    Bool,
    UInt128,
    Int128,
    UInt64,
    Int64,
    UInt32,
    Int32,
    UInt16,
    Int16,
    UInt8,
    Int8,
    Usize,
    Isize,
    Sequence(Box<Spanned<BaseTyp>>),
    Named(TypePath),
    Tuple(Vec<Spanned<BaseTyp>>),
}

/// A full type: a borrowing mode paired with a base type, each part keeping
/// the location it was written at.
pub type Typ = (Spanned<Borrowing>, Spanned<BaseTyp>);

/// Literals; each kind has exactly one base type.
#[derive(Debug, PartialEq, Eq)]
pub enum Literal {
    Bool(bool),
    Int128(i128),
    UInt128(u128),
    Int64(i64),
    UInt64(u64),
    Int32(i32),
    UInt32(u32),
    Int16(i16),
    UInt16(u16),
    Int8(i8),
    UInt8(u8),
    Usize(usize),
    Isize(isize),
}

/// Binary operators. The checker only demands that both operands have equal
/// types; the operator itself does not influence the result type.
#[derive(Clone, Copy, Debug, PartialEq, Eq, Structural)]
pub enum BinOpKind {
    Plus,
    Minus,
    Times,
    Divide,
    Modulo,
    And,
    Or,
    Equal,
    NotEqual,
    Less,
    LessOrEqual,
    Greater,
    GreaterOrEqual,
}

/// Unary operators; they propagate the operand's type unchanged.
#[derive(Clone, Copy, Debug, PartialEq, Eq, Structural)]
pub enum UnOpKind {
    Not,
    Negate,
}

/// Expressions.
#[derive(Debug, PartialEq, Eq)]
pub enum Expression {
    Tuple(Vec<Spanned<Expression>>),
    Named(TypePath),
    Binary(BinOpKind, Box<Spanned<Expression>>, Box<Spanned<Expression>>),
    Unary(UnOpKind, Box<Spanned<Expression>>),
    Lit(Literal),
    ArrayIndex(Box<Spanned<Expression>>, Box<Spanned<Expression>>),
    FuncCall(Spanned<TypePath>, Vec<Spanned<Expression>>),
    MethodCall(Box<Spanned<Expression>>, Spanned<Ident>, Vec<Spanned<Expression>>),
}

/// Let-patterns.
#[derive(Debug, PartialEq, Eq)]
pub enum Pattern {
    IdentPat(Ident),
    WildCard,
    Tuple(Vec<Spanned<Pattern>>),
}

/// Statements. Only let-bindings are in scope for now.
#[derive(Debug, PartialEq, Eq)]
pub enum Statement {
    LetBinding(Spanned<Pattern>, Option<Spanned<Typ>>, Spanned<Expression>),
}

/// A block of statements. After checking, `return_typ` holds the type of the
/// final statement (`None` for an empty block) and `mutated_vars` the set of
/// variables the block mutates.
#[derive(Debug)]
pub struct Block {
    pub stmts: Vec<Spanned<Statement>>,
    pub mutated_vars: Option<crate::context::VarSet>,
    pub return_typ: Option<Typ>,
}

/// A function signature: the ordered parameter list and the return type.
#[derive(Debug)]
pub struct FuncSig {
    pub args: Vec<(Spanned<Ident>, Typ)>,
    pub ret: Typ,
}

/// The identity of a callable: a free function by name, or a method keyed by
/// its receiver's base type and its name.
#[derive(Debug, PartialEq, Eq)]
pub enum FnKey {
    Static(Ident),
    Method(BaseTyp, Ident),
}

/// Top-level items.
#[derive(Debug)]
pub enum Item {
    FnDecl(Spanned<Ident>, FuncSig, Spanned<Block>),
    Use(Spanned<TypePath>),
}

/// A program: an ordered sequence of items.
pub type Program = Vec<Spanned<Item>>;

/// Everything that can go wrong during checking. Each diagnostic carries the
/// location it should be reported at; a `TypeMismatch` whose expected side is
/// `None` stands for "a tuple of some arity was expected". An
/// `ArityMismatch` carries the expected count and the found count: at a call
/// site these are the declared parameter count (the receiver's slot
/// included, for a method) and the number of written arguments; at a
/// let-pattern, the tuple type's component count and the pattern's.
#[derive(Debug, PartialEq, Eq)]
pub enum Diagnostic {
    UnknownIdentifier(Span, TypePath),
    UnknownFunctionOrMethod(Span, FnKey),
    TypeMismatch(Span, Option<Typ>, Typ),
    BorrowModeMismatch(Span, Borrowing, Borrowing),
    ArityMismatch(Span, usize, usize),
    IllegalBorrowedInTuple(Span),
    NonIntegerIndex(Span, Typ),
    BorrowedIndex(Span),
    NonSequenceIndexed(Span, Typ),
    UnsupportedQualifiedCall(Span),
}

/// The outcome of a checking pass.
pub type TypecheckingResult<T> = Result<T, Diagnostic>;

} // verus!
