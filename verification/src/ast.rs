//! The syntax tree that the code generator takes: a resolved program whose
//! imports are gone and whose module bodies stand in module blocks.

use vstd::prelude::*;
use crate::number::Number;
use crate::span::Span;

verus! {

#[derive(Debug)]
pub enum AstNode {
    Program(Program),
    Statement(Statement),
    Expression(Expression),
}

#[derive(Debug)]
pub struct Program {
    pub statements: Vec<Statement>,
}

#[derive(Debug)]
pub enum Statement {
    VarDecl(VarDecl),
    FuncDecl(FuncDecl),
    ClassDecl(ClassDecl),
    InterfaceDecl(InterfaceDecl),
    AnnotationDecl(AnnotationDecl),
    Import(ImportStatement),
    ModuleBlock(ModuleBlock),
    If(IfStatement),
    While(WhileStatement),
    Return(ReturnStatement),
    Assignment(AssignmentStatement),
    Expression(Expression),
    Try(Box<TryStatement>),
    Throw(Box<ThrowStatement>),
}

#[derive(Debug)]
pub struct VarDecl {
    pub name: String,
    pub type_annotation: Option<String>,
    pub initializer: Option<Expression>,
    pub is_exported: bool,
    pub span: Span,
}

#[derive(Debug)]
pub struct FuncDecl {
    pub name: String,
    pub params: Vec<Parameter>,
    pub body: Vec<Statement>,
    pub annotations: Vec<Annotation>,
    pub is_exported: bool,
    pub span: Span,
}

#[derive(Debug, Clone)]
pub struct Parameter {
    pub name: String,
    pub type_annotation: Option<String>,
    pub span: Span,
}

#[derive(Debug)]
pub struct Annotation {
    pub name: String,
    pub args: Vec<AnnotationArgument>,
    pub span: Span,
}

#[derive(Debug)]
pub enum AnnotationArgument {
    Positional(Expression),
    Named { name: String, value: Expression },
}

#[derive(Debug)]
pub struct IfStatement {
    pub condition: Expression,
    pub then_branch: Vec<Statement>,
    pub else_branch: Option<Vec<Statement>>,
    pub span: Span,
}

#[derive(Debug)]
pub struct WhileStatement {
    pub condition: Expression,
    pub body: Vec<Statement>,
    pub span: Span,
}

#[derive(Debug)]
pub struct ReturnStatement {
    pub value: Option<Expression>,
    pub span: Span,
}

#[derive(Debug)]
pub enum AssignmentTarget {
    Identifier(String),
    FieldAccess(Box<Expression>, String),
    Index(Box<Expression>, Box<Expression>),
}

#[derive(Debug)]
pub struct AssignmentStatement {
    pub target: AssignmentTarget,
    pub value: Expression,
    pub span: Span,
}

#[derive(Debug)]
pub struct TryStatement {
    pub try_body: Vec<Statement>,
    pub catch_var: Option<String>,
    pub catch_body: Vec<Statement>,
    pub span: Span,
}

#[derive(Debug)]
pub struct ThrowStatement {
    pub expression: Expression,
    pub span: Span,
}

#[derive(Debug)]
pub struct ClassDecl {
    pub name: String,
    pub extends: Option<String>,
    pub implements: Vec<String>,
    pub members: Vec<ClassMember>,
    pub annotations: Vec<Annotation>,
    pub is_exported: bool,
    pub span: Span,
}

#[derive(Debug)]
pub enum ClassMember {
    Field { name: String, type_annotation: Option<String> },
    Method(FuncDecl),
    Constructor(ConstructorDecl),
}

#[derive(Debug)]
pub struct ConstructorDecl {
    pub params: Vec<Parameter>,
    pub body: Vec<Statement>,
    pub span: Span,
}

#[derive(Debug, Clone)]
pub struct InterfaceDecl {
    pub name: String,
    pub methods: Vec<MethodSignature>,
    pub is_exported: bool,
    pub span: Span,
}

#[derive(Debug, Clone)]
pub struct MethodSignature {
    pub name: String,
    pub params: Vec<Parameter>,
    pub span: Span,
}

#[derive(Debug)]
pub struct AnnotationDecl {
    pub name: String,
    pub body: Vec<Statement>,
    pub is_exported: bool,
    pub span: Span,
}

#[derive(Debug, Clone)]
pub struct ImportStatement {
    pub path: String,
    pub alias: Option<String>,
    pub span: Span,
}

/// The statements of one module, to be compiled under its namespace.
#[derive(Debug)]
pub struct ModuleBlock {
    pub namespace: String,
    pub statements: Vec<Statement>,
    pub span: Span,
}

#[derive(Debug)]
pub enum Expression {
    Number(Number, Span),
    String(String, Span),
    Boolean(bool, Span),
    Identifier(String, Span),
    Binary(Box<BinaryExpr>),
    Unary(Box<UnaryExpr>),
    Call(Box<CallExpr>),
    FieldAccess(Box<FieldAccessExpr>),
    ModuleAccess(Box<ModuleAccessExpr>),
    Lambda(Box<LambdaExpr>),
    Index(Box<IndexExpr>),
    Range(Box<RangeExpr>),
    ArrayLiteral(Box<ArrayLiteralExpr>),
    DictLiteral(Box<DictLiteralExpr>),
    This(Span),
    Super(String, Span),
}

impl Expression {
    /// The span of source text that the expression was read from.
    pub open spec fn span_of(&self) -> Span {
        match self {
            Expression::Number(_, s) => *s,
            Expression::String(_, s) => *s,
            Expression::Boolean(_, s) => *s,
            Expression::Identifier(_, s) => *s,
            Expression::Binary(e) => e.span,
            Expression::Unary(e) => e.span,
            Expression::Call(e) => e.span,
            Expression::FieldAccess(e) => e.span,
            Expression::ModuleAccess(e) => e.span,
            Expression::Lambda(e) => e.span,
            Expression::Index(e) => e.span,
            Expression::Range(e) => e.span,
            Expression::ArrayLiteral(e) => e.span,
            Expression::DictLiteral(e) => e.span,
            Expression::This(s) => *s,
            Expression::Super(_, s) => *s,
        }
    }

    pub fn span(&self) -> (r: Span)
        ensures
            r == self.span_of(),
    {
        match self {
            Expression::Number(_, s) => *s,
            Expression::String(_, s) => *s,
            Expression::Boolean(_, s) => *s,
            Expression::Identifier(_, s) => *s,
            Expression::Binary(e) => e.span,
            Expression::Unary(e) => e.span,
            Expression::Call(e) => e.span,
            Expression::FieldAccess(e) => e.span,
            Expression::ModuleAccess(e) => e.span,
            Expression::Lambda(e) => e.span,
            Expression::Index(e) => e.span,
            Expression::Range(e) => e.span,
            Expression::ArrayLiteral(e) => e.span,
            Expression::DictLiteral(e) => e.span,
            Expression::This(s) => *s,
            Expression::Super(_, s) => *s,
        }
    }
}

#[derive(Debug)]
pub struct BinaryExpr {
    pub left: Expression,
    pub operator: BinaryOperator,
    pub right: Expression,
    pub span: Span,
}

#[derive(Debug, Clone, Copy, PartialEq, Eq, Structural)]
pub enum BinaryOperator {
    Add,
    Subtract,
    Multiply,
    Divide,
    Modulo,
    Equal,
    NotEqual,
    Less,
    LessEqual,
    Greater,
    GreaterEqual,
    And,
    Or,
}

impl BinaryOperator {
    /// How tightly the operator binds; a larger number binds tighter.
    pub open spec fn binding(&self) -> u8 {
        match self {
            BinaryOperator::Or => 1,
            BinaryOperator::And => 2,
            BinaryOperator::Equal | BinaryOperator::NotEqual => 3,
            BinaryOperator::Less
            | BinaryOperator::LessEqual
            | BinaryOperator::Greater
            | BinaryOperator::GreaterEqual => 4,
            BinaryOperator::Add | BinaryOperator::Subtract => 5,
            BinaryOperator::Multiply | BinaryOperator::Divide | BinaryOperator::Modulo => 6,
        }
    }

    pub fn precedence(&self) -> (r: u8)
        ensures
            r == self.binding(),
            1 <= r <= 6,
    {
        match self {
            BinaryOperator::Or => 1,
            BinaryOperator::And => 2,
            BinaryOperator::Equal | BinaryOperator::NotEqual => 3,
            BinaryOperator::Less
            | BinaryOperator::LessEqual
            | BinaryOperator::Greater
            | BinaryOperator::GreaterEqual => 4,
            BinaryOperator::Add | BinaryOperator::Subtract => 5,
            BinaryOperator::Multiply | BinaryOperator::Divide | BinaryOperator::Modulo => 6,
        }
    }

    /// Every binary operator groups to the left.
    pub fn is_left_associative(&self) -> (r: bool)
        ensures
            r,
    {
        true
    }
}

#[derive(Debug)]
pub struct UnaryExpr {
    pub operator: UnaryOperator,
    pub operand: Expression,
    pub span: Span,
}

#[derive(Debug, Clone, Copy, PartialEq, Eq, Structural)]
pub enum UnaryOperator {
    Negate,
    Not,
}

#[derive(Debug)]
pub struct CallExpr {
    pub callee: Expression,
    pub arguments: Vec<Expression>,
    pub span: Span,
}

#[derive(Debug)]
pub struct FieldAccessExpr {
    pub object: Expression,
    pub field: String,
    pub span: Span,
}

#[derive(Debug, Clone)]
pub struct ModuleAccessExpr {
    pub namespace: String,
    pub symbol: String,
    pub span: Span,
}

#[derive(Debug)]
pub struct LambdaExpr {
    pub params: Vec<Parameter>,
    pub body: Vec<Statement>,
    pub span: Span,
}

#[derive(Debug)]
pub struct IndexExpr {
    pub object: Expression,
    pub index: Expression,
    pub span: Span,
}

/// The two optional ends of a slice.
#[derive(Debug)]
pub struct RangeExpr {
    pub start: Option<Box<Expression>>,
    pub end: Option<Box<Expression>>,
    pub span: Span,
}

#[derive(Debug)]
pub struct ArrayLiteralExpr {
    pub elements: Vec<Expression>,
    pub span: Span,
}

#[derive(Debug)]
pub struct DictLiteralExpr {
    pub pairs: Vec<(Expression, Expression)>,
    pub span: Span,
}

} // verus!
