//! The typed syntax tree that the refactorings read. The tree is immutable:
//! every function here borrows it and allocates fresh results.

use vstd::prelude::*;
use crate::span::SrcSpan;

verus! {

/// Where the value behind a variable reference was introduced.
#[derive(Clone, Debug)]
pub enum ValueConstructorVariant {
    /// A local binding, identified by the span of its declaring pattern.
    LocalVariable { location: SrcSpan },
    /// A function or constant defined at module level.
    ModuleValue { location: SrcSpan },
}

#[derive(Clone, Debug)]
pub struct ValueConstructor {
    pub variant: ValueConstructorVariant,
}

/// The operators of binary expressions.
#[derive(Clone, Copy, Debug, PartialEq, Eq, Structural)]
pub enum BinOp {
    And,
    Or,
    Eq,
    NotEq,
    Lt,
    LtEq,
    Gt,
    GtEq,
    Add,
    Sub,
    Mult,
    Div,
    Remainder,
    Concatenate,
}

/// The pattern on the left of an assignment.
#[derive(Debug)]
pub enum Pattern {
    Variable { location: SrcSpan, name: String },
    Discard { location: SrcSpan, name: String },
    Tuple { location: SrcSpan, elems: Vec<Pattern> },
}

/// One argument of a call, with its optional label.
#[derive(Debug)]
pub struct CallArg {
    pub label: Option<String>,
    pub location: SrcSpan,
    pub value: TypedExpr,
}

/// `let pattern = value`.
#[derive(Debug)]
pub struct Assignment {
    pub location: SrcSpan,
    pub pattern: Pattern,
    pub value: Box<TypedExpr>,
}

/// A `use` statement; the refactorings never look inside one.
#[derive(Clone, Debug)]
pub struct Use {
    pub location: SrcSpan,
}

#[derive(Debug)]
pub enum Statement {
    Expression(TypedExpr),
    Assignment(Assignment),
    Use(Use),
}

#[derive(Debug)]
pub enum TypedExpr {
    Int { location: SrcSpan, value: String },
    Str { location: SrcSpan, value: String },
    Var { location: SrcSpan, constructor: ValueConstructor, name: String },
    ModuleSelect { location: SrcSpan, module_alias: String, label: String },
    Fn { location: SrcSpan, params: Vec<String>, body: Vec<Statement> },
    List { location: SrcSpan, elements: Vec<TypedExpr>, tail: Option<Box<TypedExpr>> },
    Call { location: SrcSpan, fun: Box<TypedExpr>, args: Vec<CallArg> },
    BinOp { location: SrcSpan, name: BinOp, left: Box<TypedExpr>, right: Box<TypedExpr> },
    Tuple { location: SrcSpan, elems: Vec<TypedExpr> },
    Block { location: SrcSpan, statements: Vec<Statement> },
    Pipeline { location: SrcSpan, assignments: Vec<Assignment>, finally: Box<TypedExpr> },
    NegateBool { location: SrcSpan, value: Box<TypedExpr> },
}

/// A top-level function definition.
#[derive(Debug)]
pub struct Function {
    pub location: SrcSpan,
    pub name: String,
    pub body: Vec<Statement>,
}

/// An `import` at module level.
#[derive(Clone, Debug)]
pub struct Import {
    pub location: SrcSpan,
    pub module: String,
}

#[derive(Debug)]
pub enum Definition {
    Function(Function),
    Import(Import),
}

/// One compiled module: its source text and its definitions.
#[derive(Debug)]
pub struct Module {
    pub name: String,
    pub code: String,
    pub definitions: Vec<Definition>,
}

/// A node found under the cursor.
#[derive(Clone, Copy, Debug)]
pub enum Located<'a> {
    Expression(&'a TypedExpr),
    Statement(&'a Statement),
}

impl Pattern {
    pub open spec fn spec_location(&self) -> SrcSpan {
        match self {
            Pattern::Variable { location, .. } => *location,
            Pattern::Discard { location, .. } => *location,
            Pattern::Tuple { location, .. } => *location,
        }
    }

    #[verifier::when_used_as_spec(spec_location)]
    pub fn location(&self) -> (span: SrcSpan)
        ensures
            span == self.spec_location(),
    {
        match self {
            Pattern::Variable { location, .. } => *location,
            Pattern::Discard { location, .. } => *location,
            Pattern::Tuple { location, .. } => *location,
        }
    }
}

impl TypedExpr {
    pub open spec fn spec_location(&self) -> SrcSpan {
        match self {
            TypedExpr::Int { location, .. } => *location,
            TypedExpr::Str { location, .. } => *location,
            TypedExpr::Var { location, .. } => *location,
            TypedExpr::ModuleSelect { location, .. } => *location,
            TypedExpr::Fn { location, .. } => *location,
            TypedExpr::List { location, .. } => *location,
            TypedExpr::Call { location, .. } => *location,
            TypedExpr::BinOp { location, .. } => *location,
            TypedExpr::Tuple { location, .. } => *location,
            TypedExpr::Block { location, .. } => *location,
            TypedExpr::Pipeline { location, .. } => *location,
            TypedExpr::NegateBool { location, .. } => *location,
        }
    }

    #[verifier::when_used_as_spec(spec_location)]
    pub fn location(&self) -> (span: SrcSpan)
        ensures
            span == self.spec_location(),
    {
        match self {
            TypedExpr::Int { location, .. } => *location,
            TypedExpr::Str { location, .. } => *location,
            TypedExpr::Var { location, .. } => *location,
            TypedExpr::ModuleSelect { location, .. } => *location,
            TypedExpr::Fn { location, .. } => *location,
            TypedExpr::List { location, .. } => *location,
            TypedExpr::Call { location, .. } => *location,
            TypedExpr::BinOp { location, .. } => *location,
            TypedExpr::Tuple { location, .. } => *location,
            TypedExpr::Block { location, .. } => *location,
            TypedExpr::Pipeline { location, .. } => *location,
            TypedExpr::NegateBool { location, .. } => *location,
        }
    }

    /// The span of the pattern that declared the local variable this
    /// expression refers to, if it is a reference to one.
    pub open spec fn spec_definition_location(&self) -> Option<SrcSpan> {
        match self {
            TypedExpr::Var {
                constructor: ValueConstructor {
                    variant: ValueConstructorVariant::LocalVariable { location },
                },
                ..
            } => Some(*location),
            _ => None,
        }
    }

    #[verifier::when_used_as_spec(spec_definition_location)]
    pub fn definition_location(&self) -> (span: Option<SrcSpan>)
        ensures
            span == self.spec_definition_location(),
    {
        match self {
            TypedExpr::Var { constructor, .. } => match &constructor.variant {
                ValueConstructorVariant::LocalVariable { location } => Some(*location),
                ValueConstructorVariant::ModuleValue { .. } => None,
            },
            _ => None,
        }
    }
}

impl Statement {
    pub open spec fn spec_location(&self) -> SrcSpan {
        match self {
            Statement::Expression(e) => e.spec_location(),
            Statement::Assignment(a) => a.location,
            Statement::Use(u) => u.location,
        }
    }

    #[verifier::when_used_as_spec(spec_location)]
    pub fn location(&self) -> (span: SrcSpan)
        ensures
            span == self.spec_location(),
    {
        match self {
            Statement::Expression(e) => e.location(),
            Statement::Assignment(a) => a.location,
            Statement::Use(u) => u.location,
        }
    }
}

} // verus!
