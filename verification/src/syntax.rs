//! The syntax tree as mathematics: every node with its texts as
//! sequences of characters and its lists as sequences.

use vstd::prelude::*;
use crate::ast::{
    Annotation, AnnotationArgument, AssignmentTarget, BinaryOperator, ClassMember, Expression, FuncDecl,
    MethodSignature, Parameter, Program, Statement, UnaryOperator,
};
use crate::heap::text_views;
use crate::number::Number;
use crate::span::Span;

verus! {

pub struct ParamView {
    pub name: Seq<char>,
    pub type_annotation: Option<Seq<char>>,
    pub span: Span,
}

pub enum ExprView {
    Number(Number, Span),
    String(Seq<char>, Span),
    Boolean(bool, Span),
    Identifier(Seq<char>, Span),
    Binary { left: Box<ExprView>, operator: BinaryOperator, right: Box<ExprView>, span: Span },
    Unary { operator: UnaryOperator, operand: Box<ExprView>, span: Span },
    Call { callee: Box<ExprView>, arguments: Seq<ExprView>, span: Span },
    FieldAccess { object: Box<ExprView>, field: Seq<char>, span: Span },
    ModuleAccess { namespace: Seq<char>, symbol: Seq<char>, span: Span },
    Lambda { params: Seq<ParamView>, body: Seq<StmtView>, span: Span },
    Index { object: Box<ExprView>, index: Box<ExprView>, span: Span },
    Range { start: Option<Box<ExprView>>, end: Option<Box<ExprView>>, span: Span },
    ArrayLiteral { elements: Seq<ExprView>, span: Span },
    DictLiteral { pairs: Seq<(ExprView, ExprView)>, span: Span },
    This(Span),
    Super(Seq<char>, Span),
}

/// An argument of an annotation.
pub enum ArgumentView {
    Positional(ExprView),
    Named { name: Seq<char>, value: ExprView },
}

/// An annotation on a declaration.
pub struct AnnotationView {
    pub name: Seq<char>,
    pub args: Seq<ArgumentView>,
    pub span: Span,
}

pub enum TargetView {
    Identifier(Seq<char>),
    FieldAccess(Box<ExprView>, Seq<char>),
    Index(Box<ExprView>, Box<ExprView>),
}

pub struct FuncView {
    pub name: Seq<char>,
    pub params: Seq<ParamView>,
    pub body: Seq<StmtView>,
    pub annotations: Seq<AnnotationView>,
    pub is_exported: bool,
    pub span: Span,
}

pub enum MemberView {
    Field { name: Seq<char>, type_annotation: Option<Seq<char>> },
    Method(FuncView),
    Constructor { params: Seq<ParamView>, body: Seq<StmtView>, span: Span },
}

pub struct SignatureView {
    pub name: Seq<char>,
    pub params: Seq<ParamView>,
    pub span: Span,
}

pub enum StmtView {
    VarDecl {
        name: Seq<char>,
        type_annotation: Option<Seq<char>>,
        initializer: Option<ExprView>,
        is_exported: bool,
        span: Span,
    },
    FuncDecl(FuncView),
    ClassDecl {
        name: Seq<char>,
        extends: Option<Seq<char>>,
        implements: Seq<Seq<char>>,
        members: Seq<MemberView>,
        annotations: Seq<AnnotationView>,
        is_exported: bool,
        span: Span,
    },
    InterfaceDecl { name: Seq<char>, methods: Seq<SignatureView>, is_exported: bool, span: Span },
    AnnotationDecl { name: Seq<char>, body: Seq<StmtView>, is_exported: bool, span: Span },
    Import { path: Seq<char>, alias: Option<Seq<char>>, span: Span },
    ModuleBlock { namespace: Seq<char>, statements: Seq<StmtView>, span: Span },
    If { condition: ExprView, then_branch: Seq<StmtView>, else_branch: Option<Seq<StmtView>>, span: Span },
    While { condition: ExprView, body: Seq<StmtView>, span: Span },
    Return { value: Option<ExprView>, span: Span },
    Assignment { target: TargetView, value: ExprView, span: Span },
    Expression(ExprView),
    Try { try_body: Seq<StmtView>, catch_var: Option<Seq<char>>, catch_body: Seq<StmtView>, span: Span },
    Throw { expression: ExprView, span: Span },
}

pub open spec fn optional_text(text: Option<String>) -> Option<Seq<char>> {
    match text {
        Some(t) => Some(t@),
        None => None,
    }
}

impl View for Parameter {
    type V = ParamView;

    open spec fn view(&self) -> ParamView {
        ParamView { name: self.name@, type_annotation: optional_text(self.type_annotation), span: self.span }
    }
}

pub open spec fn param_views(params: Seq<Parameter>) -> Seq<ParamView> {
    params.map_values(|p: Parameter| p@)
}

impl View for MethodSignature {
    type V = SignatureView;

    open spec fn view(&self) -> SignatureView {
        SignatureView { name: self.name@, params: param_views(self.params@), span: self.span }
    }
}

pub open spec fn signature_views(methods: Seq<MethodSignature>) -> Seq<SignatureView> {
    methods.map_values(|m: MethodSignature| m@)
}

/// The views of a list of expressions.
pub open spec fn expr_views(items: Vec<Expression>) -> Seq<ExprView>
    decreases items,
{
    Seq::new(
        items@.len(),
        |i: int|
            if 0 <= i < items@.len() {
                expr_view(items@[i])
            } else {
                ExprView::Boolean(false, Span { start: 0, end: 0 })
            },
    )
}

/// The views of the pairs of a dictionary literal.
pub open spec fn pair_views(pairs: Vec<(Expression, Expression)>) -> Seq<(ExprView, ExprView)>
    decreases pairs,
{
    Seq::new(
        pairs@.len(),
        |i: int|
            if 0 <= i < pairs@.len() {
                (expr_view(pairs@[i].0), expr_view(pairs@[i].1))
            } else {
                (
                    ExprView::Boolean(false, Span { start: 0, end: 0 }),
                    ExprView::Boolean(false, Span { start: 0, end: 0 }),
                )
            },
    )
}

/// The views of a list of statements.
pub open spec fn stmt_views(items: Vec<Statement>) -> Seq<StmtView>
    decreases items,
{
    Seq::new(
        items@.len(),
        |i: int|
            if 0 <= i < items@.len() {
                stmt_view(items@[i])
            } else {
                StmtView::Return { value: None, span: Span { start: 0, end: 0 } }
            },
    )
}

pub open spec fn optional_stmt_views(items: Option<Vec<Statement>>) -> Option<Seq<StmtView>>
    decreases items,
{
    match items {
        Some(v) => Some(stmt_views(v)),
        None => None,
    }
}

pub open spec fn optional_expr_view(e: Option<Expression>) -> Option<ExprView>
    decreases e,
{
    match e {
        Some(v) => Some(expr_view(v)),
        None => None,
    }
}

pub open spec fn optional_boxed_view(e: Option<Box<Expression>>) -> Option<Box<ExprView>>
    decreases e,
{
    match e {
        Some(v) => Some(Box::new(expr_view(*v))),
        None => None,
    }
}

/// The view of an expression.
pub open spec fn expr_view(e: Expression) -> ExprView
    decreases e,
{
    match e {
        Expression::Number(n, span) => ExprView::Number(n, span),
        Expression::String(s, span) => ExprView::String(s@, span),
        Expression::Boolean(b, span) => ExprView::Boolean(b, span),
        Expression::Identifier(name, span) => ExprView::Identifier(name@, span),
        Expression::Binary(b) => ExprView::Binary {
            left: Box::new(expr_view(b.left)),
            operator: b.operator,
            right: Box::new(expr_view(b.right)),
            span: b.span,
        },
        Expression::Unary(u) => ExprView::Unary {
            operator: u.operator,
            operand: Box::new(expr_view(u.operand)),
            span: u.span,
        },
        Expression::Call(c) => ExprView::Call {
            callee: Box::new(expr_view(c.callee)),
            arguments: expr_views(c.arguments),
            span: c.span,
        },
        Expression::FieldAccess(f) => ExprView::FieldAccess {
            object: Box::new(expr_view(f.object)),
            field: f.field@,
            span: f.span,
        },
        Expression::ModuleAccess(m) => ExprView::ModuleAccess {
            namespace: m.namespace@,
            symbol: m.symbol@,
            span: m.span,
        },
        Expression::Lambda(l) => ExprView::Lambda {
            params: param_views(l.params@),
            body: stmt_views(l.body),
            span: l.span,
        },
        Expression::Index(x) => ExprView::Index {
            object: Box::new(expr_view(x.object)),
            index: Box::new(expr_view(x.index)),
            span: x.span,
        },
        Expression::Range(r) => ExprView::Range {
            start: match r.start {
                Some(v) => Some(Box::new(expr_view(*v))),
                None => None,
            },
            end: match r.end {
                Some(v) => Some(Box::new(expr_view(*v))),
                None => None,
            },
            span: r.span,
        },
        Expression::ArrayLiteral(a) => ExprView::ArrayLiteral { elements: expr_views(a.elements), span: a.span },
        Expression::DictLiteral(d) => ExprView::DictLiteral { pairs: pair_views(d.pairs), span: d.span },
        Expression::This(span) => ExprView::This(span),
        Expression::Super(method, span) => ExprView::Super(method@, span),
    }
}

pub open spec fn target_view(t: AssignmentTarget) -> TargetView
    decreases t,
{
    match t {
        AssignmentTarget::Identifier(name) => TargetView::Identifier(name@),
        AssignmentTarget::FieldAccess(object, field) => TargetView::FieldAccess(
            Box::new(expr_view(*object)),
            field@,
        ),
        AssignmentTarget::Index(object, index) => TargetView::Index(
            Box::new(expr_view(*object)),
            Box::new(expr_view(*index)),
        ),
    }
}

pub open spec fn argument_view(a: AnnotationArgument) -> ArgumentView
    decreases a,
{
    match a {
        AnnotationArgument::Positional(e) => ArgumentView::Positional(expr_view(e)),
        AnnotationArgument::Named { name, value } => ArgumentView::Named { name: name@, value: expr_view(value) },
    }
}

pub open spec fn argument_views(args: Vec<AnnotationArgument>) -> Seq<ArgumentView>
    decreases args,
{
    Seq::new(
        args@.len(),
        |i: int|
            if 0 <= i < args@.len() {
                argument_view(args@[i])
            } else {
                ArgumentView::Positional(ExprView::Boolean(false, Span { start: 0, end: 0 }))
            },
    )
}

pub open spec fn annotation_view(a: Annotation) -> AnnotationView
    decreases a,
{
    AnnotationView { name: a.name@, args: argument_views(a.args), span: a.span }
}

/// The views of the annotations of a declaration.
pub open spec fn annotation_views(annotations: Vec<Annotation>) -> Seq<AnnotationView>
    decreases annotations,
{
    Seq::new(
        annotations@.len(),
        |i: int|
            if 0 <= i < annotations@.len() {
                annotation_view(annotations@[i])
            } else {
                AnnotationView { name: Seq::empty(), args: Seq::empty(), span: Span { start: 0, end: 0 } }
            },
    )
}

pub open spec fn func_view(f: FuncDecl) -> FuncView
    decreases f,
{
    FuncView {
        name: f.name@,
        params: param_views(f.params@),
        body: stmt_views(f.body),
        annotations: annotation_views(f.annotations),
        is_exported: f.is_exported,
        span: f.span,
    }
}

pub open spec fn member_view(m: ClassMember) -> MemberView
    decreases m,
{
    match m {
        ClassMember::Field { name, type_annotation } => MemberView::Field {
            name: name@,
            type_annotation: optional_text(type_annotation),
        },
        ClassMember::Method(f) => MemberView::Method(func_view(f)),
        ClassMember::Constructor(c) => MemberView::Constructor {
            params: param_views(c.params@),
            body: stmt_views(c.body),
            span: c.span,
        },
    }
}

pub open spec fn member_views(members: Vec<ClassMember>) -> Seq<MemberView>
    decreases members,
{
    Seq::new(
        members@.len(),
        |i: int|
            if 0 <= i < members@.len() {
                member_view(members@[i])
            } else {
                MemberView::Field { name: Seq::empty(), type_annotation: None }
            },
    )
}

/// The view of a statement.
pub open spec fn stmt_view(s: Statement) -> StmtView
    decreases s,
{
    match s {
        Statement::VarDecl(d) => StmtView::VarDecl {
            name: d.name@,
            type_annotation: optional_text(d.type_annotation),
            initializer: optional_expr_view(d.initializer),
            is_exported: d.is_exported,
            span: d.span,
        },
        Statement::FuncDecl(f) => StmtView::FuncDecl(func_view(f)),
        Statement::ClassDecl(c) => StmtView::ClassDecl {
            name: c.name@,
            extends: optional_text(c.extends),
            implements: text_views(c.implements@),
            members: member_views(c.members),
            annotations: annotation_views(c.annotations),
            is_exported: c.is_exported,
            span: c.span,
        },
        Statement::InterfaceDecl(i) => StmtView::InterfaceDecl {
            name: i.name@,
            methods: signature_views(i.methods@),
            is_exported: i.is_exported,
            span: i.span,
        },
        Statement::AnnotationDecl(a) => StmtView::AnnotationDecl {
            name: a.name@,
            body: stmt_views(a.body),
            is_exported: a.is_exported,
            span: a.span,
        },
        Statement::Import(i) => StmtView::Import { path: i.path@, alias: optional_text(i.alias), span: i.span },
        Statement::ModuleBlock(m) => StmtView::ModuleBlock {
            namespace: m.namespace@,
            statements: stmt_views(m.statements),
            span: m.span,
        },
        Statement::If(i) => StmtView::If {
            condition: expr_view(i.condition),
            then_branch: stmt_views(i.then_branch),
            else_branch: optional_stmt_views(i.else_branch),
            span: i.span,
        },
        Statement::While(w) => StmtView::While {
            condition: expr_view(w.condition),
            body: stmt_views(w.body),
            span: w.span,
        },
        Statement::Return(r) => StmtView::Return { value: optional_expr_view(r.value), span: r.span },
        Statement::Assignment(a) => StmtView::Assignment {
            target: target_view(a.target),
            value: expr_view(a.value),
            span: a.span,
        },
        Statement::Expression(e) => StmtView::Expression(expr_view(e)),
        Statement::Try(t) => StmtView::Try {
            try_body: stmt_views(t.try_body),
            catch_var: optional_text(t.catch_var),
            catch_body: stmt_views(t.catch_body),
            span: t.span,
        },
        Statement::Throw(t) => StmtView::Throw { expression: expr_view(t.expression), span: t.span },
    }
}

impl View for Program {
    type V = Seq<StmtView>;

    open spec fn view(&self) -> Seq<StmtView> {
        stmt_views(self.statements)
    }
}

} // verus!
