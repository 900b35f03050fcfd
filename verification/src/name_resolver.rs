//! Telling apart access to a module's symbol from access to a field.

use vstd::prelude::*;
use vstd::string::StringExecFns;
use crate::ast::{
    AssignmentStatement, AssignmentTarget, BinaryExpr, CallExpr, Expression, FieldAccessExpr, FuncDecl,
    IfStatement, LambdaExpr, ModuleAccessExpr, ModuleBlock, Program, ReturnStatement, Statement,
    UnaryExpr, VarDecl, WhileStatement,
};
use crate::symbol_table::{found_from, has_name, is_first_named, SymbolKind, SymbolTable};

verus! {

pub const NO_SCOPE_BEFORE: &'static str = "Модуль '";
pub const NO_SCOPE_AFTER: &'static str = "' не имеет scope_id";
pub const SYMBOL_BEFORE: &'static str = "Символ '";
pub const NOT_EXPORTED: &'static str = "' не экспортирован из модуля '";
pub const NOT_FOUND: &'static str = "' не найден в модуле '";
pub const QUOTE: &'static str = "'";

/// What `object.field` is.
pub enum Access {
    /// A field of an object.
    Field,
    /// An exported symbol of the module that `object` names.
    Module,
    /// A symbol that the module does not export.
    Failed(Seq<char>),
}

/// What `object.field` is: where `object` is the name of a module, an
/// exported symbol of that module, and an error where the module exports
/// no such symbol; a field in every other case.
pub open spec fn access(table: SymbolTable, object: Expression, field: Seq<char>) -> Access {
    match object {
        Expression::Identifier(name, _) => match found_from(
            table.scopes@,
            table.current_scope.0,
            name@,
            table.scopes@.len(),
        ) {
            Some((scope, place)) => {
                let symbol = table.scopes@[scope].symbols@[place];
                if symbol.kind == SymbolKind::Module {
                    match symbol.module_scope_id {
                        Some(id) => if id.0 < table.scopes@.len() {
                            let exports = table.scopes@[id.0 as int].symbols@;
                            if has_name(exports, field) {
                                if exports[choose|i: int| is_first_named(exports, field, i)].is_exported {
                                    Access::Module
                                } else {
                                    Access::Failed(SYMBOL_BEFORE@ + field + NOT_EXPORTED@ + name@ + QUOTE@)
                                }
                            } else {
                                Access::Failed(SYMBOL_BEFORE@ + field + NOT_FOUND@ + name@ + QUOTE@)
                            }
                        } else {
                            Access::Failed(NO_SCOPE_BEFORE@ + name@ + NO_SCOPE_AFTER@)
                        },
                        None => Access::Failed(NO_SCOPE_BEFORE@ + name@ + NO_SCOPE_AFTER@),
                    }
                } else {
                    Access::Field
                }
            },
            None => Access::Field,
        },
        _ => Access::Field,
    }
}

/// The first error among the first `n` expressions.
pub open spec fn expressions_failure(table: SymbolTable, items: Vec<Expression>, n: nat) -> Option<Seq<char>>
    decreases items, 0nat, n,
{
    if n == 0 || n > items.len() {
        None
    } else {
        match expressions_failure(table, items, (n - 1) as nat) {
            Some(reason) => Some(reason),
            None => failure(table, items[n - 1]),
        }
    }
}

/// The first error among the first `n` statements.
pub open spec fn block_failure(table: SymbolTable, statements: Vec<Statement>, n: nat) -> Option<Seq<char>>
    decreases statements, 0nat, n,
{
    if n == 0 || n > statements.len() {
        None
    } else {
        match block_failure(table, statements, (n - 1) as nat) {
            Some(reason) => Some(reason),
            None => statement_failure(table, statements[n - 1]),
        }
    }
}

/// The first error in an expression, its parts gone through in order.
pub open spec fn failure(table: SymbolTable, e: Expression) -> Option<Seq<char>>
    decreases e, 0nat, 0nat,
{
    match e {
        Expression::Binary(binary) => match failure(table, binary.left) {
            Some(reason) => Some(reason),
            None => failure(table, binary.right),
        },
        Expression::Unary(unary) => failure(table, unary.operand),
        Expression::Call(call) => match failure(table, call.callee) {
            Some(reason) => Some(reason),
            None => expressions_failure(table, call.arguments, call.arguments.len() as nat),
        },
        Expression::FieldAccess(field) => match failure(table, field.object) {
            Some(reason) => Some(reason),
            None => match access(table, field.object, field.field@) {
                Access::Failed(reason) => Some(reason),
                _ => None,
            },
        },
        Expression::Lambda(lambda) => block_failure(table, lambda.body, lambda.body.len() as nat),
        _ => None,
    }
}

/// The first error in an optional expression.
pub open spec fn optional_failure(table: SymbolTable, e: Option<Expression>) -> Option<Seq<char>>
    decreases e, 1nat, 0nat,
{
    match e {
        Some(value) => failure(table, value),
        None => None,
    }
}

/// The first error in a statement. Declarations of classes, interfaces
/// and annotations, imports, and `try` and `throw` are not gone into.
pub open spec fn statement_failure(table: SymbolTable, statement: Statement) -> Option<Seq<char>>
    decreases statement, 0nat, 0nat,
{
    match statement {
        Statement::VarDecl(decl) => optional_failure(table, decl.initializer),
        Statement::FuncDecl(decl) => block_failure(table, decl.body, decl.body.len() as nat),
        Statement::Assignment(assignment) => match failure(table, assignment.value) {
            Some(reason) => Some(reason),
            None => match assignment.target {
                AssignmentTarget::FieldAccess(object, _) => failure(table, *object),
                _ => None,
            },
        },
        Statement::If(branch) => match failure(table, branch.condition) {
            Some(reason) => Some(reason),
            None => match block_failure(table, branch.then_branch, branch.then_branch.len() as nat) {
                Some(reason) => Some(reason),
                None => match branch.else_branch {
                    Some(block) => block_failure(table, block, block.len() as nat),
                    None => None,
                },
            },
        },
        Statement::While(repeat) => match failure(table, repeat.condition) {
            Some(reason) => Some(reason),
            None => block_failure(table, repeat.body, repeat.body.len() as nat),
        },
        Statement::Return(ret) => optional_failure(table, ret.value),
        Statement::Expression(e) => failure(table, e),
        Statement::ModuleBlock(block) => block_failure(table, block.statements, block.statements.len() as nat),
        _ => None,
    }
}

/// Whether `after` is `before` with every access to a module's symbol
/// made one, one for one.
pub open spec fn expressions_resolved(table: SymbolTable, before: Vec<Expression>, after: Vec<Expression>) -> bool
    decreases before, 1nat,
{
    &&& after.len() == before.len()
    &&& forall|i: int| 0 <= i < before.len() ==> resolved(table, #[trigger] before[i], after[i])
}

pub open spec fn block_resolved(table: SymbolTable, before: Vec<Statement>, after: Vec<Statement>) -> bool
    decreases before, 1nat,
{
    &&& after.len() == before.len()
    &&& forall|i: int| 0 <= i < before.len() ==> statement_resolved(table, #[trigger] before[i], after[i])
}

/// Whether `after` is `before` with every access to a module's symbol
/// made one: `namespace.symbol` is a module access where `namespace` names
/// a module that exports `symbol`, and everything else is as it was.
pub open spec fn resolved(table: SymbolTable, before: Expression, after: Expression) -> bool
    decreases before, 0nat,
{
    match before {
        Expression::Binary(b) => {
            &&& after matches Expression::Binary(a)
            &&& a.operator == b.operator
            &&& a.span == b.span
            &&& resolved(table, b.left, a.left)
            &&& resolved(table, b.right, a.right)
        },
        Expression::Unary(b) => {
            &&& after matches Expression::Unary(a)
            &&& a.operator == b.operator
            &&& a.span == b.span
            &&& resolved(table, b.operand, a.operand)
        },
        Expression::Call(b) => {
            &&& after matches Expression::Call(a)
            &&& a.span == b.span
            &&& resolved(table, b.callee, a.callee)
            &&& expressions_resolved(table, b.arguments, a.arguments)
        },
        Expression::FieldAccess(b) => match access(table, b.object, b.field@) {
            Access::Module => {
                &&& after matches Expression::ModuleAccess(a)
                &&& b.object matches Expression::Identifier(name, _)
                &&& a.namespace@ == name@
                &&& a.symbol@ == b.field@
                &&& a.span == b.span
            },
            _ => {
                &&& after matches Expression::FieldAccess(a)
                &&& a.field == b.field
                &&& a.span == b.span
                &&& resolved(table, b.object, a.object)
            },
        },
        Expression::Lambda(b) => {
            &&& after matches Expression::Lambda(a)
            &&& a.params == b.params
            &&& a.span == b.span
            &&& block_resolved(table, b.body, a.body)
        },
        _ => after == before,
    }
}

pub open spec fn optional_resolved(table: SymbolTable, before: Option<Expression>, after: Option<Expression>) -> bool
    decreases before, 1nat,
{
    match before {
        Some(b) => after matches Some(a) && resolved(table, b, a),
        None => after is None,
    }
}

pub open spec fn statement_resolved(table: SymbolTable, before: Statement, after: Statement) -> bool
    decreases before, 0nat,
{
    match before {
        Statement::VarDecl(b) => {
            &&& after matches Statement::VarDecl(a)
            &&& a.name == b.name
            &&& a.type_annotation == b.type_annotation
            &&& a.is_exported == b.is_exported
            &&& a.span == b.span
            &&& optional_resolved(table, b.initializer, a.initializer)
        },
        Statement::FuncDecl(b) => {
            &&& after matches Statement::FuncDecl(a)
            &&& a.name == b.name
            &&& a.params == b.params
            &&& a.annotations == b.annotations
            &&& a.is_exported == b.is_exported
            &&& a.span == b.span
            &&& block_resolved(table, b.body, a.body)
        },
        Statement::Assignment(b) => {
            &&& after matches Statement::Assignment(a)
            &&& a.span == b.span
            &&& resolved(table, b.value, a.value)
            &&& match b.target {
                AssignmentTarget::FieldAccess(object, field) => {
                    &&& a.target matches AssignmentTarget::FieldAccess(other, same)
                    &&& same == field
                    &&& resolved(table, *object, *other)
                },
                _ => a.target == b.target,
            }
        },
        Statement::If(b) => {
            &&& after matches Statement::If(a)
            &&& a.span == b.span
            &&& resolved(table, b.condition, a.condition)
            &&& block_resolved(table, b.then_branch, a.then_branch)
            &&& match b.else_branch {
                Some(block) => a.else_branch matches Some(other) && block_resolved(table, block, other),
                None => a.else_branch is None,
            }
        },
        Statement::While(b) => {
            &&& after matches Statement::While(a)
            &&& a.span == b.span
            &&& resolved(table, b.condition, a.condition)
            &&& block_resolved(table, b.body, a.body)
        },
        Statement::Return(b) => {
            &&& after matches Statement::Return(a)
            &&& a.span == b.span
            &&& optional_resolved(table, b.value, a.value)
        },
        Statement::Expression(b) => after matches Statement::Expression(a) && resolved(table, b, a),
        Statement::ModuleBlock(b) => {
            &&& after matches Statement::ModuleBlock(a)
            &&& a.namespace == b.namespace
            &&& a.span == b.span
            &&& block_resolved(table, b.statements, a.statements)
        },
        _ => after == before,
    }
}

/// An error among the first expressions is the error of all.
proof fn lemma_expressions_fail(table: SymbolTable, items: Vec<Expression>, k: nat, n: nat)
    requires
        k <= n <= items.len(),
        expressions_failure(table, items, k) is Some,
    ensures
        expressions_failure(table, items, n) == expressions_failure(table, items, k),
    decreases n,
{
    if k < n {
        lemma_expressions_fail(table, items, k, (n - 1) as nat);
    }
}

proof fn lemma_block_fails(table: SymbolTable, statements: Vec<Statement>, k: nat, n: nat)
    requires
        k <= n <= statements.len(),
        block_failure(table, statements, k) is Some,
    ensures
        block_failure(table, statements, n) == block_failure(table, statements, k),
    decreases n,
{
    if k < n {
        lemma_block_fails(table, statements, k, (n - 1) as nat);
    }
}

/// What an access is, worked out from the table.
enum Found {
    Field,
    Module(String),
    Failed(String),
}

fn find_access(table: &SymbolTable, object: &Expression, field: &String) -> (r: Found)
    ensures
        match r {
            Found::Field => access(*table, *object, field@) is Field,
            Found::Module(name) => access(*table, *object, field@) is Module && (*object matches Expression::Identifier(
                n,
                _,
            ) && n@ == name@),
            Found::Failed(reason) => access(*table, *object, field@) == Access::Failed(reason@),
        },
{
    match object {
        Expression::Identifier(name, _) => match table.lookup(name.as_str()) {
            Some(symbol) => {
                match symbol.kind {
                    SymbolKind::Module => {},
                    _ => {
                        return Found::Field;
                    },
                }
                let id = match symbol.module_scope_id {
                    Some(id) => id,
                    None => {
                        return Found::Failed(
                            NO_SCOPE_BEFORE.to_string().concat(name.as_str()).concat(NO_SCOPE_AFTER),
                        );
                    },
                };
                if id.0 >= table.scopes.len() {
                    return Found::Failed(NO_SCOPE_BEFORE.to_string().concat(name.as_str()).concat(NO_SCOPE_AFTER));
                }
                match table.lookup_in_scope(id, field.as_str()) {
                    Some(export) => {
                        proof {
                            let exports = table.scopes@[id.0 as int].symbols@;
                            let i = choose|i: int| is_first_named(exports, field@, i) && *export == exports[i];
                            let chosen = choose|i: int| is_first_named(exports, field@, i);
                            assert(is_first_named(exports, field@, i));
                            assert(has_name(exports, field@));
                            if chosen < i {
                                assert(exports[chosen].name@ != field@);
                            }
                            if i < chosen {
                                assert(exports[i].name@ != field@);
                            }
                        }
                        if export.is_exported {
                            Found::Module(name.clone())
                        } else {
                            Found::Failed(
                                SYMBOL_BEFORE.to_string().concat(field.as_str()).concat(NOT_EXPORTED).concat(
                                    name.as_str(),
                                ).concat(QUOTE),
                            )
                        }
                    },
                    None => Found::Failed(
                        SYMBOL_BEFORE.to_string().concat(field.as_str()).concat(NOT_FOUND).concat(
                            name.as_str(),
                        ).concat(QUOTE),
                    ),
                }
            },
            None => Found::Field,
        },
        _ => Found::Field,
    }
}

/// Rewrites `namespace.symbol` into an access to the module's symbol where
/// `namespace` is the name of an imported module.
#[derive(Debug)]
pub struct NameResolver {}

impl NameResolver {
    pub fn new() -> (r: Self) {
        NameResolver {  }
    }

    fn resolve_expressions(table: &SymbolTable, items: Vec<Expression>) -> (r: Result<Vec<Expression>, String>)
        ensures
            match r {
                Ok(after) => expressions_failure(*table, items, items.len() as nat) is None
                    && expressions_resolved(*table, items, after),
                Err(reason) => expressions_failure(*table, items, items.len() as nat) == Some(reason@),
            },
        decreases items, 0nat, items.len(),
    {
        let ghost all = items@;
        let mut rest = items;
        let mut after: Vec<Expression> = Vec::new();
        let mut i: usize = 0;
        let n: usize = rest.len();
        while i < n
            invariant
                i <= n,
                n == all.len(),
                all == items@,
                rest@ == all.skip(i as int),
                after@.len() == i,
                expressions_failure(*table, items, i as nat) is None,
                forall|k: int| 0 <= k < i ==> resolved(*table, #[trigger] all[k], after@[k]),
            decreases n - i,
        {
            let e = rest.remove(0);
            proof {
                assert(e == all[i as int]);
                assert(rest@ =~= all.skip(i + 1));
                assert(decreases_to!(items => items[i as int]));
            }
            match NameResolver::resolve_expression(table, e) {
                Ok(done) => {
                    after.push(done);
                },
                Err(reason) => {
                    proof {
                        lemma_expressions_fail(*table, items, (i + 1) as nat, n as nat);
                    }
                    return Err(reason);
                },
            }
            i = i + 1;
        }
        Ok(after)
    }

    fn resolve_block(table: &SymbolTable, statements: Vec<Statement>) -> (r: Result<Vec<Statement>, String>)
        ensures
            match r {
                Ok(after) => block_failure(*table, statements, statements.len() as nat) is None && block_resolved(
                    *table,
                    statements,
                    after,
                ),
                Err(reason) => block_failure(*table, statements, statements.len() as nat) == Some(reason@),
            },
        decreases statements, 0nat, statements.len(),
    {
        let ghost all = statements@;
        let mut rest = statements;
        let mut after: Vec<Statement> = Vec::new();
        let mut i: usize = 0;
        let n: usize = rest.len();
        while i < n
            invariant
                i <= n,
                n == all.len(),
                all == statements@,
                rest@ == all.skip(i as int),
                after@.len() == i,
                block_failure(*table, statements, i as nat) is None,
                forall|k: int| 0 <= k < i ==> statement_resolved(*table, #[trigger] all[k], after@[k]),
            decreases n - i,
        {
            let s = rest.remove(0);
            proof {
                assert(s == all[i as int]);
                assert(rest@ =~= all.skip(i + 1));
                assert(decreases_to!(statements => statements[i as int]));
            }
            match NameResolver::resolve_statement(table, s) {
                Ok(done) => {
                    after.push(done);
                },
                Err(reason) => {
                    proof {
                        lemma_block_fails(*table, statements, (i + 1) as nat, n as nat);
                    }
                    return Err(reason);
                },
            }
            i = i + 1;
        }
        Ok(after)
    }

    fn resolve_optional(table: &SymbolTable, e: Option<Expression>) -> (r: Result<Option<Expression>, String>)
        ensures
            match r {
                Ok(after) => optional_failure(*table, e) is None && optional_resolved(*table, e, after),
                Err(reason) => optional_failure(*table, e) == Some(reason@),
            },
        decreases e, 1nat, 0nat,
    {
        match e {
            Some(value) => match NameResolver::resolve_expression(table, value) {
                Ok(done) => Ok(Some(done)),
                Err(reason) => Err(reason),
            },
            None => Ok(None),
        }
    }

    /// An expression with its accesses to modules' symbols made such.
    pub fn resolve_expression(table: &SymbolTable, e: Expression) -> (r: Result<Expression, String>)
        ensures
            match r {
                Ok(after) => failure(*table, e) is None && resolved(*table, e, after),
                Err(reason) => failure(*table, e) == Some(reason@),
            },
        decreases e, 0nat, 0nat,
    {
        match e {
            Expression::Binary(binary) => {
                let BinaryExpr { left, operator, right, span } = *binary;
                let left = match NameResolver::resolve_expression(table, left) {
                    Ok(done) => done,
                    Err(reason) => {
                        return Err(reason);
                    },
                };
                let right = match NameResolver::resolve_expression(table, right) {
                    Ok(done) => done,
                    Err(reason) => {
                        return Err(reason);
                    },
                };
                Ok(Expression::Binary(Box::new(BinaryExpr { left, operator, right, span })))
            },
            Expression::Unary(unary) => {
                let UnaryExpr { operator, operand, span } = *unary;
                match NameResolver::resolve_expression(table, operand) {
                    Ok(operand) => Ok(Expression::Unary(Box::new(UnaryExpr { operator, operand, span }))),
                    Err(reason) => Err(reason),
                }
            },
            Expression::Call(call) => {
                let CallExpr { callee, arguments, span } = *call;
                let callee = match NameResolver::resolve_expression(table, callee) {
                    Ok(done) => done,
                    Err(reason) => {
                        return Err(reason);
                    },
                };
                match NameResolver::resolve_expressions(table, arguments) {
                    Ok(arguments) => Ok(Expression::Call(Box::new(CallExpr { callee, arguments, span }))),
                    Err(reason) => Err(reason),
                }
            },
            Expression::FieldAccess(access) => {
                let FieldAccessExpr { object, field, span } = *access;
                let found = find_access(table, &object, &field);
                let object = match NameResolver::resolve_expression(table, object) {
                    Ok(done) => done,
                    Err(reason) => {
                        return Err(reason);
                    },
                };
                match found {
                    Found::Field => Ok(Expression::FieldAccess(Box::new(FieldAccessExpr { object, field, span }))),
                    Found::Module(namespace) => Ok(
                        Expression::ModuleAccess(Box::new(ModuleAccessExpr { namespace, symbol: field, span })),
                    ),
                    Found::Failed(reason) => Err(reason),
                }
            },
            Expression::Lambda(lambda) => {
                let LambdaExpr { params, body, span } = *lambda;
                match NameResolver::resolve_block(table, body) {
                    Ok(body) => Ok(Expression::Lambda(Box::new(LambdaExpr { params, body, span }))),
                    Err(reason) => Err(reason),
                }
            },
            other => Ok(other),
        }
    }

    /// A statement with its accesses to modules' symbols made such.
    pub fn resolve_statement(table: &SymbolTable, statement: Statement) -> (r: Result<Statement, String>)
        ensures
            match r {
                Ok(after) => statement_failure(*table, statement) is None && statement_resolved(
                    *table,
                    statement,
                    after,
                ),
                Err(reason) => statement_failure(*table, statement) == Some(reason@),
            },
        decreases statement, 0nat, 0nat,
    {
        match statement {
            Statement::VarDecl(decl) => {
                let VarDecl { name, type_annotation, initializer, is_exported, span } = decl;
                match NameResolver::resolve_optional(table, initializer) {
                    Ok(initializer) => Ok(
                        Statement::VarDecl(VarDecl { name, type_annotation, initializer, is_exported, span }),
                    ),
                    Err(reason) => Err(reason),
                }
            },
            Statement::FuncDecl(decl) => {
                let FuncDecl { name, params, body, annotations, is_exported, span } = decl;
                match NameResolver::resolve_block(table, body) {
                    Ok(body) => Ok(
                        Statement::FuncDecl(FuncDecl { name, params, body, annotations, is_exported, span }),
                    ),
                    Err(reason) => Err(reason),
                }
            },
            Statement::Assignment(assignment) => {
                let AssignmentStatement { target, value, span } = assignment;
                let value = match NameResolver::resolve_expression(table, value) {
                    Ok(done) => done,
                    Err(reason) => {
                        return Err(reason);
                    },
                };
                let target = match target {
                    AssignmentTarget::FieldAccess(object, field) => {
                        match NameResolver::resolve_expression(table, *object) {
                            Ok(done) => AssignmentTarget::FieldAccess(Box::new(done), field),
                            Err(reason) => {
                                return Err(reason);
                            },
                        }
                    },
                    other => other,
                };
                Ok(Statement::Assignment(AssignmentStatement { target, value, span }))
            },
            Statement::If(branch) => {
                let IfStatement { condition, then_branch, else_branch, span } = branch;
                let condition = match NameResolver::resolve_expression(table, condition) {
                    Ok(done) => done,
                    Err(reason) => {
                        return Err(reason);
                    },
                };
                let then_branch = match NameResolver::resolve_block(table, then_branch) {
                    Ok(done) => done,
                    Err(reason) => {
                        return Err(reason);
                    },
                };
                let else_branch = match else_branch {
                    Some(block) => match NameResolver::resolve_block(table, block) {
                        Ok(done) => Some(done),
                        Err(reason) => {
                            return Err(reason);
                        },
                    },
                    None => None,
                };
                Ok(Statement::If(IfStatement { condition, then_branch, else_branch, span }))
            },
            Statement::While(repeat) => {
                let WhileStatement { condition, body, span } = repeat;
                let condition = match NameResolver::resolve_expression(table, condition) {
                    Ok(done) => done,
                    Err(reason) => {
                        return Err(reason);
                    },
                };
                match NameResolver::resolve_block(table, body) {
                    Ok(body) => Ok(Statement::While(WhileStatement { condition, body, span })),
                    Err(reason) => Err(reason),
                }
            },
            Statement::Return(ret) => {
                let ReturnStatement { value, span } = ret;
                match NameResolver::resolve_optional(table, value) {
                    Ok(value) => Ok(Statement::Return(ReturnStatement { value, span })),
                    Err(reason) => Err(reason),
                }
            },
            Statement::Expression(e) => match NameResolver::resolve_expression(table, e) {
                Ok(done) => Ok(Statement::Expression(done)),
                Err(reason) => Err(reason),
            },
            Statement::ModuleBlock(block) => {
                let ModuleBlock { namespace, statements, span } = block;
                match NameResolver::resolve_block(table, statements) {
                    Ok(statements) => Ok(Statement::ModuleBlock(ModuleBlock { namespace, statements, span })),
                    Err(reason) => Err(reason),
                }
            },
            other => Ok(other),
        }
    }

    /// Resolves the names of a program in place. On an error the program
    /// is left without statements.
    pub fn resolve(&mut self, ast: &mut Program, symbol_table: &SymbolTable) -> (r: Result<(), String>)
        ensures
            match r {
                Ok(_) => block_failure(*symbol_table, old(ast).statements, old(ast).statements.len() as nat) is None
                    && block_resolved(*symbol_table, old(ast).statements, final(ast).statements),
                Err(reason) => block_failure(*symbol_table, old(ast).statements, old(ast).statements.len() as nat)
                    == Some(reason@) && final(ast).statements@.len() == 0,
            },
    {
        let mut statements: Vec<Statement> = Vec::new();
        std::mem::swap(&mut ast.statements, &mut statements);
        match NameResolver::resolve_block(symbol_table, statements) {
            Ok(done) => {
                ast.statements = done;
                Ok(())
            },
            Err(reason) => Err(reason),
        }
    }
}

} // verus!
