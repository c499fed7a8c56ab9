use vstd::prelude::*;
use crate::position::TextRange;

verus! {

/// The shape of a decorator expression.
#[derive(Debug)]
pub enum Decorator {
    /// `@name`
    Name(String),
    /// `@value.attr`; `base` is the name of `value` where that is a plain name.
    Attribute { base: Option<String>, attr: String },
    /// `@name(...)`
    CallName(String),
    /// `@value.attr(...)`
    CallAttribute(String),
    /// Any other expression.
    Other,
}

/// A parameter: its name, and the span of its declaration, which starts with the name.
#[derive(Debug)]
pub struct Param {
    pub name: String,
    pub range: TextRange,
}

/// The parameters of a function, by group, in the order written.
#[derive(Debug)]
pub struct Params {
    pub posonlyargs: Vec<Param>,
    pub args: Vec<Param>,
    pub vararg: Option<Param>,
    pub kwonlyargs: Vec<Param>,
    pub kwarg: Option<Param>,
}

/// The head of a function or method definition.
#[derive(Debug)]
pub struct FunctionDef {
    pub name: String,
    pub params: Params,
    pub decorators: Vec<Decorator>,
    pub range: TextRange,
    pub is_async: bool,
}

/// The head of a class definition.
#[derive(Debug)]
pub struct ClassDef {
    pub name: String,
    pub range: TextRange,
}

/// A statement made of a string literal alone.
#[derive(Debug)]
pub struct StringLiteral {
    pub value: String,
    pub range: TextRange,
}

/// A name that ends an expression (`Exc`, or `module.Exc`), with the span of that expression.
#[derive(Debug)]
pub struct ExcName {
    pub name: String,
    pub range: TextRange,
}

/// What the callee of a raised call is.
#[derive(Debug)]
pub enum Callee {
    Name(ExcName),
    Attribute(ExcName),
    Other,
}

/// The shape of the expression after `raise`.
#[derive(Debug)]
pub enum ExcExpr {
    /// `raise Name`
    Name(ExcName),
    /// `raise value.attr`: the attribute's name.
    Attribute(ExcName),
    /// `raise callee(...)`
    Call(Callee),
    /// `raise (target := value)`: the bound name.
    Named(ExcName),
    /// Any other expression.
    Other,
}

/// A `return` statement.
#[derive(Clone, Copy, Debug)]
pub struct ReturnStmt {
    pub range: TextRange,
    pub has_value: bool,
}

/// A `raise` statement; `exc` is `None` for a bare re-raise.
#[derive(Debug)]
pub struct RaiseStmt {
    pub range: TextRange,
    pub exc: Option<ExcExpr>,
}

/// A `yield` or `yield from` expression.
#[derive(Clone, Copy, Debug)]
pub struct YieldExpr {
    pub range: TextRange,
    pub is_from: bool,
}

/// One step of a walk over a module's syntax tree, in source order. Each statement gives one
/// event where it starts; a function or class body lies between its start event and the
/// matching `End`.
#[derive(Debug)]
pub enum Event {
    FunctionStart(FunctionDef),
    ClassStart(ClassDef),
    End,
    StringStatement(StringLiteral),
    Statement,
    Return(ReturnStmt),
    Raise(RaiseStmt),
    Yield(YieldExpr),
}

} // verus!
