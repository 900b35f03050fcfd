//! What the generator emits, as mathematics: the state of a compilation as
//! sequences of plain values, and each piece of syntax as a function from
//! state to state.

use vstd::prelude::*;
use crate::ast::{
    AssignmentStatement, AssignmentTarget, BinaryExpr, BinaryOperator, CallExpr, ClassDecl,
    ClassMember, Expression, FieldAccessExpr, FuncDecl, IfStatement, IndexExpr, ModuleBlock,
    Parameter, RangeExpr, Statement, TryStatement, UnaryOperator, VarDecl, WhileStatement,
};
use crate::heap::{lookup, with_entry};
use crate::model::CONSTRUCTOR;
use crate::opcode::OpCode;
use crate::value::{FunctionView, UpvalueDescriptor, ValueView};

verus! {

/// What stops a compilation.
#[derive(Debug, Clone, Copy, PartialEq, Eq, Structural)]
pub enum CompileError {
    /// The node handed to the generator is not a program.
    NotAProgram,
    /// `export` on a variable or function inside a function.
    ExportInFunction,
    /// `return` outside any function.
    ReturnOutsideFunction,
    /// `this` outside any function.
    ThisOutsideMethod,
    /// An end of a slice that is not a number literal.
    RangeNotConstant,
    /// More local slots than can be numbered.
    TooManyLocals,
}

/// What separates a namespace from a name in a mangled name.
pub const SEPARATOR: &'static str = "::";

/// The name that a lambda carries.
pub const LAMBDA_NAME: &'static str = "<lambda>";

/// The word that stands for the parent class in a field access.
pub const SUPER: &'static str = "super";

/// One compilation unit: the top level or one function body.
pub struct ContextView {
    pub constants: Seq<ValueView>,
    pub opcodes: Seq<OpCode>,
    pub namespace: Option<Seq<char>>,
    pub in_function: bool,
    pub functions: Seq<FunctionView>,
    pub locals: Seq<(Seq<char>, usize)>,
    pub next_slot: usize,
    pub upvalues: Seq<(Seq<char>, UpvalueDescriptor)>,
}

/// A compilation in progress: the units that are open, the innermost
/// last, and the functions compiled so far.
pub struct GenView {
    pub scopes: Seq<ContextView>,
    pub functions: Seq<FunctionView>,
}

pub open spec fn cur(st: GenView) -> ContextView {
    st.scopes.last()
}

pub open spec fn with_cur(st: GenView, ctx: ContextView) -> GenView {
    GenView { scopes: st.scopes.update(st.scopes.len() - 1, ctx), ..st }
}

/// The position of the next instruction of the current unit.
pub open spec fn here(st: GenView) -> usize {
    cur(st).opcodes.len() as usize
}

pub open spec fn emit(st: GenView, op: OpCode) -> GenView {
    with_cur(st, ContextView { opcodes: cur(st).opcodes.push(op), ..cur(st) })
}

/// The instruction at `at` replaced.
pub open spec fn patch(st: GenView, at: usize, op: OpCode) -> GenView {
    with_cur(st, ContextView { opcodes: cur(st).opcodes.update(at as int, op), ..cur(st) })
}

/// Whether two constants are one for the pool: only `Nil`, numbers,
/// strings and booleans ever are, and only with the same content.
pub open spec fn same_constant(a: ValueView, b: ValueView) -> bool {
    match (a, b) {
        (ValueView::Number(x), ValueView::Number(y)) => x == y,
        (ValueView::String(x), ValueView::String(y)) => x == y,
        (ValueView::Boolean(x), ValueView::Boolean(y)) => x == y,
        (ValueView::Nil, ValueView::Nil) => true,
        _ => false,
    }
}

/// Whether `i` is the first place of the pool that holds `v`.
pub open spec fn interned_at(constants: Seq<ValueView>, v: ValueView, i: int) -> bool {
    &&& 0 <= i < constants.len()
    &&& same_constant(v, constants[i])
    &&& forall|j: int| 0 <= j < i ==> !same_constant(v, #[trigger] constants[j])
}

/// The pool with `v` in it, and the place of `v`: the first place that
/// holds it already, or a new one at the end.
#[verifier::opaque]
pub open spec fn intern(st: GenView, v: ValueView) -> (GenView, usize) {
    if exists|i: int| interned_at(cur(st).constants, v, i) {
        (st, (choose|i: int| interned_at(cur(st).constants, v, i)) as usize)
    } else {
        (
            with_cur(st, ContextView { constants: cur(st).constants.push(v), ..cur(st) }),
            cur(st).constants.len() as usize,
        )
    }
}

/// Interning `v` and pushing it.
#[verifier::opaque]
pub open spec fn emit_constant(st: GenView, v: ValueView) -> GenView {
    let (s1, k) = intern(st, v);
    emit(s1, OpCode::Constant(k))
}

/// The name under which the current unit files a global.
pub open spec fn mangle(st: GenView, name: Seq<char>) -> Seq<char> {
    match cur(st).namespace {
        Some(namespace) => namespace + SEPARATOR@ + name,
        None => name,
    }
}

/// The three instructions that name a global.
pub enum GlobalOp {
    Define,
    Assign,
    Read,
}

pub open spec fn global_op(op: GlobalOp, k: usize) -> OpCode {
    match op {
        GlobalOp::Define => OpCode::DefineGlobal(k),
        GlobalOp::Assign => OpCode::SetGlobal(k),
        GlobalOp::Read => OpCode::GetGlobal(k),
    }
}

/// An instruction on the global that `name` mangles to.
#[verifier::opaque]
pub open spec fn emit_global(st: GenView, op: GlobalOp, name: Seq<char>) -> GenView {
    let (s1, k) = intern(st, ValueView::String(mangle(st, name)));
    emit(s1, global_op(op, k))
}

/// An instruction followed by the name it works on.
#[verifier::opaque]
pub open spec fn emit_named(st: GenView, op: OpCode, name: Seq<char>) -> GenView {
    let (s1, k) = intern(st, ValueView::String(name));
    emit(emit(s1, op), OpCode::Constant(k))
}

/// The unit at `level` with an upvalue for `name`, and its index: the one
/// it has under that name, or a new one.
#[verifier::opaque]
pub open spec fn add_upvalue(st: GenView, level: int, name: Seq<char>, is_local: bool, index: usize) -> (
    GenView,
    Option<usize>,
) {
    let ctx = st.scopes[level];
    match lookup(ctx.upvalues, name) {
        Some(i) => (st, Some(i as usize)),
        None => (
            GenView {
                scopes: st.scopes.update(
                    level,
                    ContextView {
                        upvalues: ctx.upvalues.push((name, UpvalueDescriptor { is_local, index })),
                        ..ctx
                    },
                ),
                ..st
            },
            Some(ctx.upvalues.len() as usize),
        ),
    }
}

/// Finding `name` outside the unit at `level`: a local of the unit around
/// it is captured directly, and a variable further out is handed inward
/// through an upvalue of every unit between.
pub open spec fn resolve_upvalue(st: GenView, level: nat, name: Seq<char>) -> (GenView, Option<usize>)
    decreases level,
{
    if level == 0 || level >= st.scopes.len() {
        (st, None)
    } else {
        let parent = st.scopes[level - 1];
        match lookup(parent.locals, name) {
            Some(i) => add_upvalue(st, level as int, name, true, parent.locals[i].1),
            None => {
                let (s1, found) = resolve_upvalue(st, (level - 1) as nat, name);
                match found {
                    Some(u) => add_upvalue(s1, level as int, name, false, u),
                    None => (s1, None),
                }
            },
        }
    }
}

/// Reading or writing the variable `name`: a local, else a captured
/// variable, else a global.
#[verifier::opaque]
pub open spec fn emit_variable(st: GenView, name: Seq<char>, write: bool) -> GenView {
    match lookup(cur(st).locals, name) {
        Some(i) => emit(
            st,
            if write {
                OpCode::SetLocal(cur(st).locals[i].1)
            } else {
                OpCode::GetLocal(cur(st).locals[i].1)
            },
        ),
        None => {
            let (s1, found) = if cur(st).in_function {
                resolve_upvalue(st, (st.scopes.len() - 1) as nat, name)
            } else {
                (st, None)
            };
            match found {
                Some(u) => emit(
                    s1,
                    if write {
                        OpCode::SetUpvalue(u)
                    } else {
                        OpCode::GetUpvalue(u)
                    },
                ),
                None => emit_global(
                    s1,
                    if write {
                        GlobalOp::Assign
                    } else {
                        GlobalOp::Read
                    },
                    name,
                ),
            }
        },
    }
}

/// The slot of the local `name`, a new one where it has none yet. `None`
/// when the slots have run out.
#[verifier::opaque]
pub open spec fn declare_local(st: GenView, name: Seq<char>) -> Option<(GenView, usize)> {
    match lookup(cur(st).locals, name) {
        Some(i) => Some((st, cur(st).locals[i].1)),
        None => fresh_local(st, name),
    }
}

/// A new slot for `name`, whatever slot it had.
#[verifier::opaque]
pub open spec fn fresh_local(st: GenView, name: Seq<char>) -> Option<(GenView, usize)> {
    let slot = cur(st).next_slot;
    if slot == usize::MAX {
        None
    } else {
        Some(
            (
                with_cur(
                    st,
                    ContextView {
                        locals: with_entry(cur(st).locals, name, slot),
                        next_slot: (slot + 1) as usize,
                        ..cur(st)
                    },
                ),
                slot,
            ),
        )
    }
}

/// The instructions of a binary operator other than `and` and `or`.
#[verifier::opaque]
pub open spec fn emit_operator(st: GenView, operator: BinaryOperator) -> GenView {
    match operator {
        BinaryOperator::Add => emit(st, OpCode::Add),
        BinaryOperator::Subtract => emit(st, OpCode::Sub),
        BinaryOperator::Multiply => emit(st, OpCode::Mul),
        BinaryOperator::Divide => emit(st, OpCode::Div),
        BinaryOperator::Modulo => emit(st, OpCode::Mod),
        BinaryOperator::Equal => emit(st, OpCode::Eql),
        BinaryOperator::NotEqual => emit(emit(st, OpCode::Eql), OpCode::Not),
        BinaryOperator::Less => emit(st, OpCode::Less),
        BinaryOperator::LessEqual => emit(emit(st, OpCode::Greater), OpCode::Not),
        BinaryOperator::Greater => emit(st, OpCode::Greater),
        BinaryOperator::GreaterEqual => emit(emit(st, OpCode::Less), OpCode::Not),
        BinaryOperator::And => st,
        BinaryOperator::Or => st,
    }
}

/// The number that an end of a slice stands for.
pub open spec fn range_end(e: Option<Box<Expression>>) -> Result<Option<crate::number::Number>, CompileError> {
    match e {
        None => Ok(None),
        Some(end) => match *end {
            Expression::Number(n, _) => Ok(Some(n)),
            _ => Err(CompileError::RangeNotConstant),
        },
    }
}

/// The slots of the first `n` parameters, the first of them in `start`.
pub open spec fn parameter_slots(params: Seq<Parameter>, start: int, n: nat) -> Seq<(Seq<char>, usize)>
    decreases n,
{
    if n == 0 {
        Seq::empty()
    } else {
        with_entry(
            parameter_slots(params, start, (n - 1) as nat),
            params[n - 1].name@,
            (start + n - 1) as usize,
        )
    }
}

/// The function that a finished unit is.
pub open spec fn function_of(ctx: ContextView, name: Seq<char>, arity: usize) -> FunctionView {
    FunctionView {
        arity,
        opcodes: ctx.opcodes,
        constants: ctx.constants,
        name,
        upvalue_count: ctx.upvalues.len() as usize,
        upvalue_descriptors: ctx.upvalues.map_values(|u: (Seq<char>, UpvalueDescriptor)| u.1),
    }
}

/// The unit that a function body is compiled in.
pub open spec fn function_context(st: GenView, params: Seq<Parameter>, is_method: bool) -> ContextView {
    let start: int = if is_method {
        1
    } else {
        0
    };
    ContextView {
        constants: Seq::empty(),
        opcodes: Seq::empty(),
        namespace: cur(st).namespace,
        in_function: true,
        functions: Seq::empty(),
        locals: parameter_slots(params, start, params.len()),
        next_slot: (start + params.len()) as usize,
        upvalues: Seq::empty(),
    }
}

/// Compiling a function: its body in a unit of its own, then the implicit
/// return (the receiver for a constructor, `Nil` for anything else). Gives
/// the state with the function in the table, and its number.
pub open spec fn compile_function(
    st: GenView,
    name: Seq<char>,
    params: Vec<Parameter>,
    body: Vec<Statement>,
    is_method: bool,
) -> Result<(GenView, usize), CompileError>
    decreases body, 1nat, 0nat,
{
    if is_method && params.len() == usize::MAX {
        Err(CompileError::TooManyLocals)
    } else {
        let s0 = GenView { scopes: st.scopes.push(function_context(st, params@, is_method)), ..st };
        match emit_block(s0, body, body.len() as nat) {
            Err(e) => Err(e),
            Ok(s1) => {
                let s2 = if name == CONSTRUCTOR@ {
                    emit(s1, OpCode::GetLocal(0))
                } else {
                    emit_constant(s1, ValueView::Nil)
                };
                let s3 = emit(s2, OpCode::Return_);
                Ok(
                    (
                        GenView {
                            scopes: s3.scopes.drop_last(),
                            functions: s3.functions.push(function_of(cur(s3), name, params.len())),
                        },
                        s3.functions.len() as usize,
                    ),
                )
            },
        }
    }
}

/// Compiling a function and pushing a closure of it.
pub open spec fn emit_closure(
    st: GenView,
    name: Seq<char>,
    params: Vec<Parameter>,
    body: Vec<Statement>,
) -> Result<GenView, CompileError>
    decreases body, 1nat, 1nat,
{
    match compile_function(st, name, params, body, false) {
        Err(e) => Err(e),
        Ok((s1, f)) => {
            let count = s1.functions[f as int].upvalue_count;
            let s2 = with_cur(s1, ContextView { constants: cur(s1).constants.push(ValueView::Function(f)), ..cur(s1) });
            Ok(emit(s2, OpCode::Closure(cur(s1).constants.len() as usize, count)))
        },
    }
}

/// Compiling a method and filing it in the class on top of the stack.
pub open spec fn emit_method(
    st: GenView,
    name: Seq<char>,
    params: Vec<Parameter>,
    body: Vec<Statement>,
) -> Result<GenView, CompileError>
    decreases body, 1nat, 1nat,
{
    match compile_function(st, name, params, body, true) {
        Err(e) => Err(e),
        Ok((s1, f)) => {
            let s2 = with_cur(s1, ContextView { constants: cur(s1).constants.push(ValueView::Function(f)), ..cur(s1) });
            let (s3, k) = intern(s2, ValueView::String(name));
            Ok(emit(emit(s3, OpCode::Constant(cur(s1).constants.len() as usize)), OpCode::DefineMethod(k)))
        },
    }
}

/// The first `n` expressions, one after the other.
pub open spec fn emit_expressions(st: GenView, items: Vec<Expression>, n: nat) -> Result<GenView, CompileError>
    decreases items, 0nat, n,
{
    if n == 0 || n > items.len() {
        Ok(st)
    } else {
        match emit_expressions(st, items, (n - 1) as nat) {
            Err(e) => Err(e),
            Ok(s1) => emit_expression(s1, items[n - 1]),
        }
    }
}

/// The first `n` key-value pairs, each key before its value.
pub open spec fn emit_pairs(st: GenView, pairs: Vec<(Expression, Expression)>, n: nat) -> Result<
    GenView,
    CompileError,
>
    decreases pairs, 0nat, n,
{
    if n == 0 || n > pairs.len() {
        Ok(st)
    } else {
        match emit_pairs(st, pairs, (n - 1) as nat) {
            Err(e) => Err(e),
            Ok(s1) => match emit_expression(s1, pairs[n - 1].0) {
                Err(e) => Err(e),
                Ok(s2) => emit_expression(s2, pairs[n - 1].1),
            },
        }
    }
}

/// The jump that decides a short-circuit operator; `and` leaves on a false
/// left side, `or` on a true one.
pub open spec fn short_circuit(operator: BinaryOperator, target: usize) -> OpCode {
    if operator == BinaryOperator::And {
        OpCode::JumpIfFalse(target)
    } else {
        OpCode::JumpIfTrue(target)
    }
}

/// A binary expression. `and` and `or` leave the deciding operand on the
/// stack and jump over the right side; every other operator takes both
/// sides and then its instructions.
pub open spec fn emit_binary(st: GenView, binary: BinaryExpr) -> Result<GenView, CompileError>
    decreases binary, 0nat, 0nat,
{
    match emit_expression(st, binary.left) {
        Err(e) => Err(e),
        Ok(s1) => if binary.operator == BinaryOperator::And || binary.operator == BinaryOperator::Or {
            let s2 = emit(s1, OpCode::Dup);
            let s3 = emit(emit(s2, short_circuit(binary.operator, 0)), OpCode::Pop);
            match emit_expression(s3, binary.right) {
                Err(e) => Err(e),
                Ok(s4) => Ok(patch(s4, here(s2), short_circuit(binary.operator, here(s4)))),
            }
        } else {
            match emit_expression(s1, binary.right) {
                Err(e) => Err(e),
                Ok(s2) => Ok(emit_operator(s2, binary.operator)),
            }
        },
    }
}

/// A call: the callee, the arguments in order, then the call itself.
pub open spec fn emit_call(st: GenView, call: CallExpr) -> Result<GenView, CompileError>
    decreases call, 0nat, 0nat,
{
    match emit_expression(st, call.callee) {
        Err(e) => Err(e),
        Ok(s1) => match emit_expressions(s1, call.arguments, call.arguments.len() as nat) {
            Err(e) => Err(e),
            Ok(s2) => Ok(emit(s2, OpCode::Call(call.arguments.len()))),
        },
    }
}

/// A field access: on `super` a method of the parent class, on anything
/// else a property of the object.
pub open spec fn emit_field_access(st: GenView, access: FieldAccessExpr) -> Result<GenView, CompileError>
    decreases access, 0nat, 0nat,
{
    if is_super(access.object) {
        Ok(emit_named(st, OpCode::GetSuper, access.field@))
    } else {
        match emit_expression(st, access.object) {
            Err(e) => Err(e),
            Ok(s1) => Ok(emit_named(s1, OpCode::GetProperty, access.field@)),
        }
    }
}

/// An index expression: the object, the index, then the lookup.
pub open spec fn emit_index(st: GenView, index: IndexExpr) -> Result<GenView, CompileError>
    decreases index, 0nat, 0nat,
{
    match emit_expression(st, index.object) {
        Err(e) => Err(e),
        Ok(s1) => match emit_expression(s1, index.index) {
            Err(e) => Err(e),
            Ok(s2) => Ok(emit(s2, OpCode::GetIndex)),
        },
    }
}

/// A slice: a range constant of its own, never shared.
pub open spec fn emit_range(st: GenView, range: RangeExpr) -> Result<GenView, CompileError> {
    match (range_end(range.start), range_end(range.end)) {
        (Ok(start), Ok(end)) => {
            let s1 = with_cur(
                st,
                ContextView { constants: cur(st).constants.push(ValueView::Range(start, end)), ..cur(st) },
            );
            Ok(emit(s1, OpCode::Constant(cur(st).constants.len() as usize)))
        },
        _ => Err(CompileError::RangeNotConstant),
    }
}

/// An expression: the instructions that leave its value on the stack.
pub open spec fn emit_expression(st: GenView, e: Expression) -> Result<GenView, CompileError>
    decreases e, 0nat, 0nat,
{
    match e {
        Expression::Number(n, _) => Ok(emit_constant(st, ValueView::Number(n))),
        Expression::String(s, _) => Ok(emit_constant(st, ValueView::String(s@))),
        Expression::Boolean(b, _) => Ok(emit_constant(st, ValueView::Boolean(b))),
        Expression::Identifier(name, _) => Ok(emit_variable(st, name@, false)),
        Expression::Binary(binary) => emit_binary(st, *binary),
        Expression::Unary(unary) => match emit_expression(st, unary.operand) {
            Err(e) => Err(e),
            Ok(s1) => Ok(
                emit(
                    s1,
                    match unary.operator {
                        UnaryOperator::Negate => OpCode::Negate,
                        UnaryOperator::Not => OpCode::Not,
                    },
                ),
            ),
        },
        Expression::Call(call) => emit_call(st, *call),
        Expression::FieldAccess(access) => emit_field_access(st, *access),
        Expression::ModuleAccess(access) => {
            let (s1, k) = intern(st, ValueView::String(access.namespace@ + SEPARATOR@ + access.symbol@));
            Ok(emit(s1, OpCode::GetGlobal(k)))
        },
        Expression::Lambda(lambda) => emit_closure(st, LAMBDA_NAME@, lambda.params, lambda.body),
        Expression::Index(index) => emit_index(st, *index),
        Expression::Range(range) => emit_range(st, *range),
        Expression::ArrayLiteral(array) => match emit_expressions(st, array.elements, array.elements.len() as nat) {
            Err(e) => Err(e),
            Ok(s1) => Ok(emit(s1, OpCode::Array(array.elements.len()))),
        },
        Expression::DictLiteral(dict) => match emit_pairs(st, dict.pairs, dict.pairs.len() as nat) {
            Err(e) => Err(e),
            Ok(s1) => Ok(emit(s1, OpCode::Dict(dict.pairs.len()))),
        },
        Expression::This(_) => if cur(st).in_function {
            Ok(emit(st, OpCode::GetLocal(0)))
        } else {
            Err(CompileError::ThisOutsideMethod)
        },
        Expression::Super(name, _) => Ok(emit_named(st, OpCode::GetSuper, name@)),
    }
}

/// Whether an expression is the word that stands for the parent class.
pub open spec fn is_super(e: Expression) -> bool {
    e matches Expression::Identifier(name, _) && name@ == SUPER@
}

/// The first `n` statements, one after the other.
pub open spec fn emit_block(st: GenView, statements: Vec<Statement>, n: nat) -> Result<GenView, CompileError>
    decreases statements, 0nat, n,
{
    if n == 0 || n > statements.len() {
        Ok(st)
    } else {
        match emit_block(st, statements, (n - 1) as nat) {
            Err(e) => Err(e),
            Ok(s1) => emit_statement(s1, statements[n - 1]),
        }
    }
}

/// The first `n` members of a class: methods and the constructor are
/// compiled and filed, fields emit nothing.
pub open spec fn emit_members(st: GenView, members: Vec<ClassMember>, n: nat) -> Result<GenView, CompileError>
    decreases members, 2nat, n,
{
    if n == 0 || n > members.len() {
        Ok(st)
    } else {
        match emit_members(st, members, (n - 1) as nat) {
            Err(e) => Err(e),
            Ok(s1) => match members[n - 1] {
                ClassMember::Method(method) => emit_method(s1, method.name@, method.params, method.body),
                ClassMember::Constructor(constructor) => emit_method(
                    s1,
                    CONSTRUCTOR@,
                    constructor.params,
                    constructor.body,
                ),
                ClassMember::Field { .. } => Ok(s1),
            },
        }
    }
}

/// The value of a declaration or a return: the expression, or `Nil`.
pub open spec fn emit_optional(st: GenView, e: Option<Expression>) -> Result<GenView, CompileError>
    decreases e, 1nat, 0nat,
{
    match e {
        Some(value) => emit_expression(st, value),
        None => Ok(emit_constant(st, ValueView::Nil)),
    }
}

/// A variable declaration: a local inside a function, a global outside.
pub open spec fn emit_var_decl(st: GenView, decl: VarDecl) -> Result<GenView, CompileError>
    decreases decl, 2nat, 0nat,
{
    if cur(st).in_function && decl.is_exported {
        Err(CompileError::ExportInFunction)
    } else {
        match emit_optional(st, decl.initializer) {
            Err(e) => Err(e),
            Ok(s1) => if cur(st).in_function {
                match declare_local(s1, decl.name@) {
                    Some((s2, slot)) => Ok(emit(s2, OpCode::DefineLocal(slot))),
                    None => Err(CompileError::TooManyLocals),
                }
            } else {
                Ok(emit_global(s1, GlobalOp::Define, decl.name@))
            },
        }
    }
}

/// What an assignment puts on the stack before its value: for a store
/// under an index the object and the index, for any other nothing.
pub open spec fn emit_target(st: GenView, target: AssignmentTarget) -> Result<GenView, CompileError>
    decreases target, 0nat, 0nat,
{
    match target {
        AssignmentTarget::Index(object, index) => match emit_expression(st, *object) {
            Err(e) => Err(e),
            Ok(s1) => emit_expression(s1, *index),
        },
        _ => Ok(st),
    }
}

/// The store that ends an assignment. Under an index: the store alone. To
/// a name: the store that the name resolves to. To a field: the object,
/// then the store under the field's name.
pub open spec fn emit_store(st: GenView, target: AssignmentTarget) -> Result<GenView, CompileError>
    decreases target, 0nat, 0nat,
{
    match target {
        AssignmentTarget::Index(_, _) => Ok(emit(st, OpCode::SetIndex)),
        AssignmentTarget::Identifier(name) => Ok(emit_variable(st, name@, true)),
        AssignmentTarget::FieldAccess(object, field) => match emit_expression(st, *object) {
            Err(e) => Err(e),
            Ok(s1) => Ok(emit_named(s1, OpCode::SetProperty, field@)),
        },
    }
}

/// An assignment: what the target needs below the value, the value, the
/// store.
pub open spec fn emit_assignment(st: GenView, assignment: AssignmentStatement) -> Result<GenView, CompileError>
    decreases assignment, 0nat, 0nat,
{
    match emit_target(st, assignment.target) {
        Err(e) => Err(e),
        Ok(s1) => match emit_expression(s1, assignment.value) {
            Err(e) => Err(e),
            Ok(s2) => emit_store(s2, assignment.target),
        },
    }
}

/// The statements of a module under its namespace; the namespace that was
/// current comes back afterwards.
pub open spec fn emit_module_block(st: GenView, block: ModuleBlock) -> Result<GenView, CompileError>
    decreases block, 0nat, 0nat,
{
    let inside = with_cur(st, ContextView { namespace: Some(block.namespace@), ..cur(st) });
    match emit_block(inside, block.statements, block.statements.len() as nat) {
        Err(e) => Err(e),
        Ok(s1) => Ok(with_cur(s1, ContextView { namespace: cur(st).namespace, ..cur(s1) })),
    }
}

/// `if`: the condition, a jump over the then-branch to the else-branch,
/// the then-branch, a jump over the else-branch, the else-branch.
pub open spec fn emit_if(st: GenView, branch: IfStatement) -> Result<GenView, CompileError>
    decreases branch, 0nat, 0nat,
{
    match emit_expression(st, branch.condition) {
        Err(e) => Err(e),
        Ok(s1) => match emit_block(
            emit(s1, OpCode::JumpIfFalse(0)),
            branch.then_branch,
            branch.then_branch.len() as nat,
        ) {
            Err(e) => Err(e),
            Ok(s2) => {
                let s3 = emit(s2, OpCode::Jump(0));
                let s4 = patch(s3, here(s1), OpCode::JumpIfFalse(here(s3)));
                let after_else = match branch.else_branch {
                    Some(block) => emit_block(s4, block, block.len() as nat),
                    None => Ok(s4),
                };
                match after_else {
                    Err(e) => Err(e),
                    Ok(s5) => Ok(patch(s5, here(s2), OpCode::Jump(here(s5)))),
                }
            },
        },
    }
}

/// `while`: the condition, a jump out, the body, a jump back to the
/// condition.
pub open spec fn emit_while(st: GenView, repeat: WhileStatement) -> Result<GenView, CompileError>
    decreases repeat, 0nat, 0nat,
{
    match emit_expression(st, repeat.condition) {
        Err(e) => Err(e),
        Ok(s1) => match emit_block(emit(s1, OpCode::JumpIfFalse(0)), repeat.body, repeat.body.len() as nat) {
            Err(e) => Err(e),
            Ok(s2) => {
                let s3 = emit(s2, OpCode::Jump(here(st)));
                Ok(patch(s3, here(s1), OpCode::JumpIfFalse(here(s3))))
            },
        },
    }
}

/// A function declaration: a closure, bound to a new local inside a
/// function and to a global outside.
pub open spec fn emit_func_decl(st: GenView, decl: FuncDecl) -> Result<GenView, CompileError>
    decreases decl, 2nat, 0nat,
{
    if decl.is_exported && cur(st).in_function {
        Err(CompileError::ExportInFunction)
    } else {
        match emit_closure(st, decl.name@, decl.params, decl.body) {
            Err(e) => Err(e),
            Ok(s1) => if cur(s1).in_function {
                match fresh_local(s1, decl.name@) {
                    Some((s2, slot)) => Ok(emit(s2, OpCode::DefineLocal(slot))),
                    None => Err(CompileError::TooManyLocals),
                }
            } else {
                Ok(emit_global(s1, GlobalOp::Define, decl.name@))
            },
        }
    }
}

/// A class declaration: the class, its parent, its methods, its name.
pub open spec fn emit_class(st: GenView, decl: ClassDecl) -> Result<GenView, CompileError>
    decreases decl, 3nat, 0nat,
{
    let s1 = emit_named(st, OpCode::Class, decl.name@);
    let s2 = match decl.extends {
        Some(parent) => emit(emit_global(s1, GlobalOp::Read, parent@), OpCode::Inherit),
        None => s1,
    };
    match emit_members(s2, decl.members, decl.members.len() as nat) {
        Err(e) => Err(e),
        Ok(s3) => Ok(emit_global(s3, GlobalOp::Define, decl.name@)),
    }
}

/// Binding what was thrown at the start of a catch-block: to the catch
/// variable, or to nothing.
pub open spec fn emit_catch_binding(st: GenView, catch_var: Option<String>) -> Result<GenView, CompileError> {
    match catch_var {
        Some(name) => match declare_local(st, name@) {
            Some((s1, slot)) => Ok(emit(s1, OpCode::DefineLocal(slot))),
            None => Err(CompileError::TooManyLocals),
        },
        None => Ok(emit(st, OpCode::Pop)),
    }
}

/// `try`: the handler, the try-body, the handler's removal and a jump over
/// the catch-block; then, where the handler lands, the binding of what was
/// thrown and the catch-body.
pub open spec fn emit_try(st: GenView, attempt: TryStatement) -> Result<GenView, CompileError>
    decreases attempt, 0nat, 0nat,
{
    match emit_block(
        emit(st, OpCode::PushExceptionHandler(0)),
        attempt.try_body,
        attempt.try_body.len() as nat,
    ) {
        Err(e) => Err(e),
        Ok(s1) => {
            let s2 = emit(s1, OpCode::PopExceptionHandler);
            let s3 = emit(s2, OpCode::Jump(0));
            let s4 = patch(s3, here(st), OpCode::PushExceptionHandler(here(s3)));
            match emit_catch_binding(s4, attempt.catch_var) {
                Err(e) => Err(e),
                Ok(s5) => match emit_block(s5, attempt.catch_body, attempt.catch_body.len() as nat) {
                    Err(e) => Err(e),
                    Ok(s6) => Ok(patch(s6, here(s2), OpCode::Jump(here(s6)))),
                },
            }
        },
    }
}

/// A statement.
pub open spec fn emit_statement(st: GenView, statement: Statement) -> Result<GenView, CompileError>
    decreases statement, 0nat, 0nat,
{
    match statement {
        Statement::VarDecl(decl) => emit_var_decl(st, decl),
        Statement::Assignment(assignment) => emit_assignment(st, assignment),
        Statement::Expression(e) => emit_expression(st, e),
        Statement::ModuleBlock(block) => emit_module_block(st, block),
        Statement::If(branch) => emit_if(st, branch),
        Statement::While(repeat) => emit_while(st, repeat),
        Statement::FuncDecl(decl) => emit_func_decl(st, decl),
        Statement::Return(ret) => if !cur(st).in_function {
            Err(CompileError::ReturnOutsideFunction)
        } else {
            match emit_optional(st, ret.value) {
                Err(e) => Err(e),
                Ok(s1) => Ok(emit(s1, OpCode::Return_)),
            }
        },
        Statement::Import(_) => Ok(st),
        Statement::ClassDecl(decl) => emit_class(st, decl),
        Statement::InterfaceDecl(_) => Ok(st),
        Statement::AnnotationDecl(_) => Ok(st),
        Statement::Try(attempt) => emit_try(st, *attempt),
        Statement::Throw(throw) => match emit_expression(st, throw.expression) {
            Err(e) => Err(e),
            Ok(s1) => Ok(emit(s1, OpCode::Throw)),
        },
    }
}

/// The empty top-level unit, or the empty body of a function.
pub open spec fn fresh_context(in_function: bool) -> ContextView {
    ContextView {
        constants: Seq::empty(),
        opcodes: Seq::empty(),
        namespace: None,
        in_function,
        functions: Seq::empty(),
        locals: Seq::empty(),
        next_slot: 0,
        upvalues: Seq::empty(),
    }
}

pub open spec fn fresh_state(in_function: bool) -> GenView {
    GenView { scopes: seq![fresh_context(in_function)], functions: Seq::empty() }
}

/// What compiling `statements` from scratch gives: the unit with the
/// compiled functions in it.
pub open spec fn compiled(statements: Vec<Statement>, in_function: bool, halt: bool) -> Result<
    ContextView,
    CompileError,
> {
    match emit_block(fresh_state(in_function), statements, statements.len() as nat) {
        Err(e) => Err(e),
        Ok(s1) => {
            let s2 = if halt {
                emit(s1, OpCode::Halt)
            } else {
                s1
            };
            Ok(ContextView { functions: s2.functions, ..cur(s2) })
        },
    }
}

} // verus!
