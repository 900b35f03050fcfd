//! What the generator leaves alone: compiling a construct appends to the
//! instructions of the current unit and touches nothing that was there.

use vstd::prelude::*;
use crate::ast::{
    AssignmentStatement, AssignmentTarget, BinaryExpr, BinaryOperator, CallExpr, ClassDecl, ClassMember, Expression,
    FieldAccessExpr, FuncDecl, IfStatement, IndexExpr, ModuleBlock, Parameter, RangeExpr, Statement, TryStatement,
    VarDecl, WhileStatement,
};
use crate::codegen::{
    add_upvalue, compile_function, cur, declare_local, emit, emit_assignment, emit_binary, emit_block, emit_call,
    emit_catch_binding, emit_class, emit_closure, emit_constant, emit_expression, emit_expressions,
    emit_field_access, emit_func_decl, emit_global, emit_if, emit_index, emit_members, emit_method,
    emit_module_block, emit_named, emit_operator, emit_optional, emit_pairs, emit_range, emit_statement, emit_store,
    emit_target, emit_try, emit_var_decl, emit_variable, emit_while, fresh_local, function_context, here, intern,
    patch, resolve_upvalue, short_circuit, with_cur, ContextView, GenView, GlobalOp,
};
use crate::model::{code_of, execute, frame, pushed, step, truthy, with_ip, ActionView, VmView};
use crate::opcode::OpCode;
use crate::value::ValueView;

verus! {

/// Whether a compilation kept what was there: the same units are open,
/// the units around the current one have the instructions they had, and
/// the current one has lost none; and while its instructions can be
/// counted, those that it had stand where they stood.
pub open spec fn kept(before: GenView, after: GenView) -> bool {
    &&& after.scopes.len() == before.scopes.len()
    &&& forall|i: int|
        0 <= i < before.scopes.len() - 1 ==> (#[trigger] after.scopes[i]).opcodes == before.scopes[i].opcodes
    &&& cur(before).opcodes.len() <= cur(after).opcodes.len()
    &&& cur(after).opcodes.len() <= usize::MAX ==> forall|k: int|
        0 <= k < cur(before).opcodes.len() ==> #[trigger] cur(after).opcodes[k] == cur(before).opcodes[k]
}

proof fn lemma_kept_chain(a: GenView, b: GenView, c: GenView)
    requires
        kept(a, b),
        kept(b, c),
    ensures
        kept(a, c),
{
    assert forall|i: int| 0 <= i < a.scopes.len() - 1 implies (#[trigger] c.scopes[i]).opcodes
        == a.scopes[i].opcodes by {
        assert(b.scopes[i].opcodes == a.scopes[i].opcodes);
    }
    if cur(c).opcodes.len() <= usize::MAX {
        assert forall|k: int| 0 <= k < cur(a).opcodes.len() implies #[trigger] cur(c).opcodes[k] == cur(
            a,
        ).opcodes[k] by {
            assert(cur(b).opcodes[k] == cur(a).opcodes[k]);
        }
    }
}

proof fn lemma_emit_kept(st: GenView, op: OpCode)
    requires
        st.scopes.len() > 0,
    ensures
        kept(st, emit(st, op)),
        cur(emit(st, op)).opcodes == cur(st).opcodes.push(op),
{
}

/// A change of the current unit that leaves its instructions alone.
proof fn lemma_data_kept(st: GenView, ctx: ContextView)
    requires
        st.scopes.len() > 0,
        ctx.opcodes == cur(st).opcodes,
    ensures
        kept(st, with_cur(st, ctx)),
        cur(with_cur(st, ctx)).opcodes == cur(st).opcodes,
{
}

/// Putting an instruction in a place that the current unit got since
/// `a`.
proof fn lemma_patch_kept(a: GenView, b: GenView, at: nat, op: OpCode)
    requires
        a.scopes.len() > 0,
        kept(a, b),
        cur(a).opcodes.len() <= at < cur(b).opcodes.len(),
    ensures
        kept(a, patch(b, at as usize, op)),
        cur(patch(b, at as usize, op)).opcodes.len() == cur(b).opcodes.len(),
        cur(b).opcodes.len() <= usize::MAX ==> cur(patch(b, at as usize, op)).opcodes == cur(b).opcodes.update(
            at as int,
            op,
        ),
{
    let place = (at as usize) as int;
    assert(0 <= place < cur(b).opcodes.len());
    assert(cur(patch(b, at as usize, op)).opcodes == cur(b).opcodes.update(place, op));
}

proof fn lemma_intern_kept(st: GenView, v: ValueView)
    requires
        st.scopes.len() > 0,
    ensures
        kept(st, intern(st, v).0),
        cur(intern(st, v).0).opcodes == cur(st).opcodes,
{
    reveal(intern);
}

proof fn lemma_constant_kept(st: GenView, v: ValueView)
    requires
        st.scopes.len() > 0,
    ensures
        kept(st, emit_constant(st, v)),
{
    reveal(emit_constant);
    lemma_intern_kept(st, v);
    lemma_emit_kept(intern(st, v).0, OpCode::Constant(intern(st, v).1));
    lemma_kept_chain(st, intern(st, v).0, emit_constant(st, v));
}

proof fn lemma_global_kept(st: GenView, op: GlobalOp, name: Seq<char>)
    requires
        st.scopes.len() > 0,
    ensures
        kept(st, emit_global(st, op, name)),
{
    reveal(emit_global);
    let v = ValueView::String(crate::codegen::mangle(st, name));
    lemma_intern_kept(st, v);
    lemma_emit_kept(intern(st, v).0, crate::codegen::global_op(op, intern(st, v).1));
    lemma_kept_chain(st, intern(st, v).0, emit_global(st, op, name));
}

proof fn lemma_named_kept(st: GenView, op: OpCode, name: Seq<char>)
    requires
        st.scopes.len() > 0,
    ensures
        kept(st, emit_named(st, op, name)),
{
    reveal(emit_named);
    let v = ValueView::String(name);
    let s1 = intern(st, v).0;
    lemma_intern_kept(st, v);
    lemma_emit_kept(s1, op);
    lemma_emit_kept(emit(s1, op), OpCode::Constant(intern(st, v).1));
    lemma_kept_chain(s1, emit(s1, op), emit_named(st, op, name));
    lemma_kept_chain(st, s1, emit_named(st, op, name));
}

proof fn lemma_add_upvalue_kept(st: GenView, level: int, name: Seq<char>, is_local: bool, index: usize)
    requires
        0 <= level < st.scopes.len(),
    ensures
        kept(st, add_upvalue(st, level, name, is_local, index).0),
        cur(add_upvalue(st, level, name, is_local, index).0).opcodes == cur(st).opcodes,
{
    reveal(add_upvalue);
}

proof fn lemma_resolve_upvalue_kept(st: GenView, level: nat, name: Seq<char>)
    requires
        st.scopes.len() > 0,
    ensures
        kept(st, resolve_upvalue(st, level, name).0),
        cur(resolve_upvalue(st, level, name).0).opcodes == cur(st).opcodes,
    decreases level,
{
    if level == 0 || level >= st.scopes.len() {
    } else {
        let parent = st.scopes[level - 1];
        match crate::heap::lookup(parent.locals, name) {
            Some(i) => {
                lemma_add_upvalue_kept(st, level as int, name, true, parent.locals[i].1);
            },
            None => {
                lemma_resolve_upvalue_kept(st, (level - 1) as nat, name);
                let (s1, found) = resolve_upvalue(st, (level - 1) as nat, name);
                match found {
                    Some(u) => {
                        lemma_add_upvalue_kept(s1, level as int, name, false, u);
                        lemma_kept_chain(st, s1, add_upvalue(s1, level as int, name, false, u).0);
                    },
                    None => {},
                }
            },
        }
    }
}

proof fn lemma_variable_kept(st: GenView, name: Seq<char>, write: bool)
    requires
        st.scopes.len() > 0,
    ensures
        kept(st, emit_variable(st, name, write)),
{
    reveal(emit_variable);
    match crate::heap::lookup(cur(st).locals, name) {
        Some(i) => {
            lemma_emit_kept(
                st,
                if write {
                    OpCode::SetLocal(cur(st).locals[i].1)
                } else {
                    OpCode::GetLocal(cur(st).locals[i].1)
                },
            );
        },
        None => {
            let (s1, found) = if cur(st).in_function {
                resolve_upvalue(st, (st.scopes.len() - 1) as nat, name)
            } else {
                (st, None)
            };
            if cur(st).in_function {
                lemma_resolve_upvalue_kept(st, (st.scopes.len() - 1) as nat, name);
            }
            match found {
                Some(u) => {
                    lemma_emit_kept(
                        s1,
                        if write {
                            OpCode::SetUpvalue(u)
                        } else {
                            OpCode::GetUpvalue(u)
                        },
                    );
                },
                None => {
                    lemma_global_kept(
                        s1,
                        if write {
                            GlobalOp::Assign
                        } else {
                            GlobalOp::Read
                        },
                        name,
                    );
                },
            }
            lemma_kept_chain(st, s1, emit_variable(st, name, write));
        },
    }
}

proof fn lemma_fresh_local_kept(st: GenView, name: Seq<char>)
    requires
        st.scopes.len() > 0,
    ensures
        fresh_local(st, name) matches Some((s1, _)) ==> kept(st, s1) && cur(s1).opcodes == cur(st).opcodes,
{
    reveal(fresh_local);
}

proof fn lemma_declare_local_kept(st: GenView, name: Seq<char>)
    requires
        st.scopes.len() > 0,
    ensures
        declare_local(st, name) matches Some((s1, _)) ==> kept(st, s1) && cur(s1).opcodes == cur(st).opcodes,
{
    reveal(declare_local);
    lemma_fresh_local_kept(st, name);
}

proof fn lemma_operator_kept(st: GenView, operator: BinaryOperator)
    requires
        st.scopes.len() > 0,
    ensures
        kept(st, emit_operator(st, operator)),
{
    reveal(emit_operator);
    match operator {
        BinaryOperator::NotEqual => {
            lemma_emit_kept(st, OpCode::Eql);
            lemma_emit_kept(emit(st, OpCode::Eql), OpCode::Not);
            lemma_kept_chain(st, emit(st, OpCode::Eql), emit_operator(st, operator));
        },
        BinaryOperator::LessEqual => {
            lemma_emit_kept(st, OpCode::Greater);
            lemma_emit_kept(emit(st, OpCode::Greater), OpCode::Not);
            lemma_kept_chain(st, emit(st, OpCode::Greater), emit_operator(st, operator));
        },
        BinaryOperator::GreaterEqual => {
            lemma_emit_kept(st, OpCode::Less);
            lemma_emit_kept(emit(st, OpCode::Less), OpCode::Not);
            lemma_kept_chain(st, emit(st, OpCode::Less), emit_operator(st, operator));
        },
        _ => {},
    }
}

proof fn lemma_catch_binding_kept(st: GenView, catch_var: Option<String>)
    requires
        st.scopes.len() > 0,
    ensures
        emit_catch_binding(st, catch_var) matches Ok(s1) ==> kept(st, s1),
{
    match catch_var {
        Some(name) => {
            lemma_declare_local_kept(st, name@);
            match declare_local(st, name@) {
                Some((s1, slot)) => {
                    lemma_emit_kept(s1, OpCode::DefineLocal(slot));
                    lemma_kept_chain(st, s1, emit(s1, OpCode::DefineLocal(slot)));
                },
                None => {},
            }
        },
        None => {
            lemma_emit_kept(st, OpCode::Pop);
        },
    }
}

proof fn lemma_range_kept(st: GenView, range: RangeExpr)
    requires
        st.scopes.len() > 0,
    ensures
        emit_range(st, range) matches Ok(s1) ==> kept(st, s1),
{
    match (crate::codegen::range_end(range.start), crate::codegen::range_end(range.end)) {
        (Ok(start), Ok(end)) => {
            let ctx = ContextView { constants: cur(st).constants.push(ValueView::Range(start, end)), ..cur(st) };
            let s1 = with_cur(st, ctx);
            lemma_data_kept(st, ctx);
            lemma_emit_kept(s1, OpCode::Constant(cur(st).constants.len() as usize));
            lemma_kept_chain(st, s1, emit(s1, OpCode::Constant(cur(st).constants.len() as usize)));
        },
        _ => {},
    }
}

/// Compiling a function leaves the instructions of every open unit as
/// they were.
pub proof fn lemma_compile_function_kept(
    st: GenView,
    name: Seq<char>,
    params: Vec<Parameter>,
    body: Vec<Statement>,
    is_method: bool,
)
    requires
        st.scopes.len() > 0,
    ensures
        compile_function(st, name, params, body, is_method) matches Ok((s1, _)) ==> kept(st, s1) && cur(s1).opcodes
            == cur(st).opcodes,
    decreases body, 1nat, 0nat,
{
    if is_method && params.len() == usize::MAX {
    } else {
        let s0 = GenView { scopes: st.scopes.push(function_context(st, params@, is_method)), ..st };
        lemma_block_kept(s0, body, body.len() as nat);
        match emit_block(s0, body, body.len() as nat) {
            Err(_) => {},
            Ok(s1) => {
                let s2 = if name == crate::model::CONSTRUCTOR@ {
                    emit(s1, OpCode::GetLocal(0))
                } else {
                    emit_constant(s1, ValueView::Nil)
                };
                if name == crate::model::CONSTRUCTOR@ {
                    lemma_emit_kept(s1, OpCode::GetLocal(0));
                } else {
                    lemma_constant_kept(s1, ValueView::Nil);
                }
                let s3 = emit(s2, OpCode::Return_);
                lemma_emit_kept(s2, OpCode::Return_);
                lemma_kept_chain(s0, s1, s2);
                lemma_kept_chain(s0, s2, s3);
                let done = compile_function(st, name, params, body, is_method)->Ok_0.0;
                assert(done.scopes == s3.scopes.drop_last());
                assert forall|i: int| 0 <= i < st.scopes.len() implies (#[trigger] done.scopes[i]).opcodes
                    == st.scopes[i].opcodes by {
                    assert(s3.scopes[i].opcodes == s0.scopes[i].opcodes);
                    assert(s0.scopes[i] == st.scopes[i]);
                }
                assert(cur(done).opcodes == cur(st).opcodes);
            },
        }
    }
}

proof fn lemma_closure_kept(st: GenView, name: Seq<char>, params: Vec<Parameter>, body: Vec<Statement>)
    requires
        st.scopes.len() > 0,
    ensures
        emit_closure(st, name, params, body) matches Ok(s1) ==> kept(st, s1),
    decreases body, 1nat, 1nat,
{
    lemma_compile_function_kept(st, name, params, body, false);
    match compile_function(st, name, params, body, false) {
        Err(_) => {},
        Ok((s1, f)) => {
            let count = s1.functions[f as int].upvalue_count;
            let ctx = ContextView { constants: cur(s1).constants.push(ValueView::Function(f)), ..cur(s1) };
            let s2 = with_cur(s1, ctx);
            lemma_data_kept(s1, ctx);
            let s3 = emit(s2, OpCode::Closure(cur(s1).constants.len() as usize, count));
            lemma_emit_kept(s2, OpCode::Closure(cur(s1).constants.len() as usize, count));
            lemma_kept_chain(s1, s2, s3);
            lemma_kept_chain(st, s1, s3);
        },
    }
}

proof fn lemma_method_kept(st: GenView, name: Seq<char>, params: Vec<Parameter>, body: Vec<Statement>)
    requires
        st.scopes.len() > 0,
    ensures
        emit_method(st, name, params, body) matches Ok(s1) ==> kept(st, s1),
    decreases body, 1nat, 1nat,
{
    lemma_compile_function_kept(st, name, params, body, true);
    match compile_function(st, name, params, body, true) {
        Err(_) => {},
        Ok((s1, f)) => {
            let ctx = ContextView { constants: cur(s1).constants.push(ValueView::Function(f)), ..cur(s1) };
            let s2 = with_cur(s1, ctx);
            lemma_data_kept(s1, ctx);
            let (s3, k) = intern(s2, ValueView::String(name));
            lemma_intern_kept(s2, ValueView::String(name));
            let s4 = emit(s3, OpCode::Constant(cur(s1).constants.len() as usize));
            lemma_emit_kept(s3, OpCode::Constant(cur(s1).constants.len() as usize));
            let s5 = emit(s4, OpCode::DefineMethod(k));
            lemma_emit_kept(s4, OpCode::DefineMethod(k));
            lemma_kept_chain(s1, s2, s3);
            lemma_kept_chain(s1, s3, s4);
            lemma_kept_chain(s1, s4, s5);
            lemma_kept_chain(st, s1, s5);
        },
    }
}

proof fn lemma_expressions_kept(st: GenView, items: Vec<Expression>, n: nat)
    requires
        st.scopes.len() > 0,
    ensures
        emit_expressions(st, items, n) matches Ok(s1) ==> kept(st, s1),
    decreases items, 0nat, n,
{
    if n == 0 || n > items.len() {
    } else {
        lemma_expressions_kept(st, items, (n - 1) as nat);
        match emit_expressions(st, items, (n - 1) as nat) {
            Err(_) => {},
            Ok(s1) => {
                lemma_expression_kept(s1, items[n - 1]);
                match emit_expression(s1, items[n - 1]) {
                    Ok(s2) => {
                        lemma_kept_chain(st, s1, s2);
                    },
                    Err(_) => {},
                }
            },
        }
    }
}

proof fn lemma_pairs_kept(st: GenView, pairs: Vec<(Expression, Expression)>, n: nat)
    requires
        st.scopes.len() > 0,
    ensures
        emit_pairs(st, pairs, n) matches Ok(s1) ==> kept(st, s1),
    decreases pairs, 0nat, n,
{
    if n == 0 || n > pairs.len() {
    } else {
        lemma_pairs_kept(st, pairs, (n - 1) as nat);
        match emit_pairs(st, pairs, (n - 1) as nat) {
            Err(_) => {},
            Ok(s1) => {
                lemma_expression_kept(s1, pairs[n - 1].0);
                match emit_expression(s1, pairs[n - 1].0) {
                    Err(_) => {},
                    Ok(s2) => {
                        lemma_expression_kept(s2, pairs[n - 1].1);
                        match emit_expression(s2, pairs[n - 1].1) {
                            Err(_) => {},
                            Ok(s3) => {
                                lemma_kept_chain(st, s1, s2);
                                lemma_kept_chain(st, s2, s3);
                            },
                        }
                    },
                }
            },
        }
    }
}

proof fn lemma_binary_kept(st: GenView, binary: BinaryExpr)
    requires
        st.scopes.len() > 0,
    ensures
        emit_binary(st, binary) matches Ok(s1) ==> kept(st, s1),
    decreases binary, 0nat, 0nat,
{
    lemma_expression_kept(st, binary.left);
    match emit_expression(st, binary.left) {
        Err(_) => {},
        Ok(s1) => {
            if binary.operator == BinaryOperator::And || binary.operator == BinaryOperator::Or {
                let s2 = emit(s1, OpCode::Dup);
                let jump = emit(s2, short_circuit(binary.operator, 0));
                let s3 = emit(jump, OpCode::Pop);
                lemma_emit_kept(s1, OpCode::Dup);
                lemma_emit_kept(s2, short_circuit(binary.operator, 0));
                lemma_emit_kept(jump, OpCode::Pop);
                lemma_expression_kept(s3, binary.right);
                match emit_expression(s3, binary.right) {
                    Err(_) => {},
                    Ok(s4) => {
                        lemma_kept_chain(st, s1, s2);
                        lemma_kept_chain(st, s2, jump);
                        lemma_kept_chain(st, jump, s3);
                        lemma_kept_chain(st, s3, s4);
                        lemma_patch_kept(
                            st,
                            s4,
                            cur(s2).opcodes.len(),
                            short_circuit(binary.operator, here(s4)),
                        );
                    },
                }
            } else {
                lemma_expression_kept(s1, binary.right);
                match emit_expression(s1, binary.right) {
                    Err(_) => {},
                    Ok(s2) => {
                        lemma_operator_kept(s2, binary.operator);
                        lemma_kept_chain(st, s1, s2);
                        lemma_kept_chain(st, s2, emit_operator(s2, binary.operator));
                    },
                }
            }
        },
    }
}

proof fn lemma_call_kept(st: GenView, call: CallExpr)
    requires
        st.scopes.len() > 0,
    ensures
        emit_call(st, call) matches Ok(s1) ==> kept(st, s1),
    decreases call, 0nat, 0nat,
{
    lemma_expression_kept(st, call.callee);
    match emit_expression(st, call.callee) {
        Err(_) => {},
        Ok(s1) => {
            lemma_expressions_kept(s1, call.arguments, call.arguments.len() as nat);
            match emit_expressions(s1, call.arguments, call.arguments.len() as nat) {
                Err(_) => {},
                Ok(s2) => {
                    lemma_emit_kept(s2, OpCode::Call(call.arguments.len()));
                    lemma_kept_chain(st, s1, s2);
                    lemma_kept_chain(st, s2, emit(s2, OpCode::Call(call.arguments.len())));
                },
            }
        },
    }
}

proof fn lemma_field_access_kept(st: GenView, access: FieldAccessExpr)
    requires
        st.scopes.len() > 0,
    ensures
        emit_field_access(st, access) matches Ok(s1) ==> kept(st, s1),
    decreases access, 0nat, 0nat,
{
    if crate::codegen::is_super(access.object) {
        lemma_named_kept(st, OpCode::GetSuper, access.field@);
    } else {
        lemma_expression_kept(st, access.object);
        match emit_expression(st, access.object) {
            Err(_) => {},
            Ok(s1) => {
                lemma_named_kept(s1, OpCode::GetProperty, access.field@);
                lemma_kept_chain(st, s1, emit_named(s1, OpCode::GetProperty, access.field@));
            },
        }
    }
}

proof fn lemma_index_kept(st: GenView, index: IndexExpr)
    requires
        st.scopes.len() > 0,
    ensures
        emit_index(st, index) matches Ok(s1) ==> kept(st, s1),
    decreases index, 0nat, 0nat,
{
    lemma_expression_kept(st, index.object);
    match emit_expression(st, index.object) {
        Err(_) => {},
        Ok(s1) => {
            lemma_expression_kept(s1, index.index);
            match emit_expression(s1, index.index) {
                Err(_) => {},
                Ok(s2) => {
                    lemma_emit_kept(s2, OpCode::GetIndex);
                    lemma_kept_chain(st, s1, s2);
                    lemma_kept_chain(st, s2, emit(s2, OpCode::GetIndex));
                },
            }
        },
    }
}

/// Compiling an expression keeps what was there.
pub proof fn lemma_expression_kept(st: GenView, e: Expression)
    requires
        st.scopes.len() > 0,
    ensures
        emit_expression(st, e) matches Ok(s1) ==> kept(st, s1),
    decreases e, 0nat, 0nat,
{
    match e {
        Expression::Number(n, _) => {
            lemma_constant_kept(st, ValueView::Number(n));
        },
        Expression::String(s, _) => {
            lemma_constant_kept(st, ValueView::String(s@));
        },
        Expression::Boolean(b, _) => {
            lemma_constant_kept(st, ValueView::Boolean(b));
        },
        Expression::Identifier(name, _) => {
            lemma_variable_kept(st, name@, false);
        },
        Expression::Binary(binary) => {
            lemma_binary_kept(st, *binary);
        },
        Expression::Unary(unary) => {
            lemma_expression_kept(st, unary.operand);
            match emit_expression(st, unary.operand) {
                Err(_) => {},
                Ok(s1) => {
                    let op = match unary.operator {
                        crate::ast::UnaryOperator::Negate => OpCode::Negate,
                        crate::ast::UnaryOperator::Not => OpCode::Not,
                    };
                    lemma_emit_kept(s1, op);
                    lemma_kept_chain(st, s1, emit(s1, op));
                },
            }
        },
        Expression::Call(call) => {
            lemma_call_kept(st, *call);
        },
        Expression::FieldAccess(access) => {
            lemma_field_access_kept(st, *access);
        },
        Expression::ModuleAccess(access) => {
            let v = ValueView::String(access.namespace@ + crate::codegen::SEPARATOR@ + access.symbol@);
            lemma_intern_kept(st, v);
            lemma_emit_kept(intern(st, v).0, OpCode::GetGlobal(intern(st, v).1));
            lemma_kept_chain(st, intern(st, v).0, emit(intern(st, v).0, OpCode::GetGlobal(intern(st, v).1)));
        },
        Expression::Lambda(lambda) => {
            lemma_closure_kept(st, crate::codegen::LAMBDA_NAME@, lambda.params, lambda.body);
        },
        Expression::Index(index) => {
            lemma_index_kept(st, *index);
        },
        Expression::Range(range) => {
            lemma_range_kept(st, *range);
        },
        Expression::ArrayLiteral(array) => {
            lemma_expressions_kept(st, array.elements, array.elements.len() as nat);
            match emit_expressions(st, array.elements, array.elements.len() as nat) {
                Err(_) => {},
                Ok(s1) => {
                    lemma_emit_kept(s1, OpCode::Array(array.elements.len()));
                    lemma_kept_chain(st, s1, emit(s1, OpCode::Array(array.elements.len())));
                },
            }
        },
        Expression::DictLiteral(dict) => {
            lemma_pairs_kept(st, dict.pairs, dict.pairs.len() as nat);
            match emit_pairs(st, dict.pairs, dict.pairs.len() as nat) {
                Err(_) => {},
                Ok(s1) => {
                    lemma_emit_kept(s1, OpCode::Dict(dict.pairs.len()));
                    lemma_kept_chain(st, s1, emit(s1, OpCode::Dict(dict.pairs.len())));
                },
            }
        },
        Expression::This(_) => {
            lemma_emit_kept(st, OpCode::GetLocal(0));
        },
        Expression::Super(name, _) => {
            lemma_named_kept(st, OpCode::GetSuper, name@);
        },
    }
}

proof fn lemma_block_kept(st: GenView, statements: Vec<Statement>, n: nat)
    requires
        st.scopes.len() > 0,
    ensures
        emit_block(st, statements, n) matches Ok(s1) ==> kept(st, s1),
    decreases statements, 0nat, n,
{
    if n == 0 || n > statements.len() {
    } else {
        lemma_block_kept(st, statements, (n - 1) as nat);
        match emit_block(st, statements, (n - 1) as nat) {
            Err(_) => {},
            Ok(s1) => {
                lemma_statement_kept(s1, statements[n - 1]);
                match emit_statement(s1, statements[n - 1]) {
                    Ok(s2) => {
                        lemma_kept_chain(st, s1, s2);
                    },
                    Err(_) => {},
                }
            },
        }
    }
}

proof fn lemma_members_kept(st: GenView, members: Vec<ClassMember>, n: nat)
    requires
        st.scopes.len() > 0,
    ensures
        emit_members(st, members, n) matches Ok(s1) ==> kept(st, s1),
    decreases members, 2nat, n,
{
    if n == 0 || n > members.len() {
    } else {
        lemma_members_kept(st, members, (n - 1) as nat);
        match emit_members(st, members, (n - 1) as nat) {
            Err(_) => {},
            Ok(s1) => {
                match members[n - 1] {
                    ClassMember::Method(method) => {
                        lemma_method_kept(s1, method.name@, method.params, method.body);
                    },
                    ClassMember::Constructor(constructor) => {
                        lemma_method_kept(s1, crate::model::CONSTRUCTOR@, constructor.params, constructor.body);
                    },
                    ClassMember::Field { .. } => {},
                }
                match emit_members(st, members, n) {
                    Ok(s2) => {
                        lemma_kept_chain(st, s1, s2);
                    },
                    Err(_) => {},
                }
            },
        }
    }
}

proof fn lemma_optional_kept(st: GenView, e: Option<Expression>)
    requires
        st.scopes.len() > 0,
    ensures
        emit_optional(st, e) matches Ok(s1) ==> kept(st, s1),
    decreases e, 1nat, 0nat,
{
    match e {
        Some(value) => {
            lemma_expression_kept(st, value);
        },
        None => {
            lemma_constant_kept(st, ValueView::Nil);
        },
    }
}

proof fn lemma_var_decl_kept(st: GenView, decl: VarDecl)
    requires
        st.scopes.len() > 0,
    ensures
        emit_var_decl(st, decl) matches Ok(s1) ==> kept(st, s1),
    decreases decl, 2nat, 0nat,
{
    if cur(st).in_function && decl.is_exported {
    } else {
        lemma_optional_kept(st, decl.initializer);
        match emit_optional(st, decl.initializer) {
            Err(_) => {},
            Ok(s1) => {
                if cur(st).in_function {
                    lemma_declare_local_kept(s1, decl.name@);
                    match declare_local(s1, decl.name@) {
                        Some((s2, slot)) => {
                            lemma_emit_kept(s2, OpCode::DefineLocal(slot));
                            lemma_kept_chain(s1, s2, emit(s2, OpCode::DefineLocal(slot)));
                            lemma_kept_chain(st, s1, emit(s2, OpCode::DefineLocal(slot)));
                        },
                        None => {},
                    }
                } else {
                    lemma_global_kept(s1, GlobalOp::Define, decl.name@);
                    lemma_kept_chain(st, s1, emit_global(s1, GlobalOp::Define, decl.name@));
                }
            },
        }
    }
}

proof fn lemma_target_kept(st: GenView, target: AssignmentTarget)
    requires
        st.scopes.len() > 0,
    ensures
        emit_target(st, target) matches Ok(s1) ==> kept(st, s1),
    decreases target, 0nat, 0nat,
{
    match target {
        AssignmentTarget::Index(object, index) => {
            lemma_expression_kept(st, *object);
            match emit_expression(st, *object) {
                Err(_) => {},
                Ok(s1) => {
                    lemma_expression_kept(s1, *index);
                    match emit_expression(s1, *index) {
                        Ok(s2) => {
                            lemma_kept_chain(st, s1, s2);
                        },
                        Err(_) => {},
                    }
                },
            }
        },
        _ => {},
    }
}

proof fn lemma_store_kept(st: GenView, target: AssignmentTarget)
    requires
        st.scopes.len() > 0,
    ensures
        emit_store(st, target) matches Ok(s1) ==> kept(st, s1),
    decreases target, 0nat, 0nat,
{
    match target {
        AssignmentTarget::Index(_, _) => {
            lemma_emit_kept(st, OpCode::SetIndex);
        },
        AssignmentTarget::Identifier(name) => {
            lemma_variable_kept(st, name@, true);
        },
        AssignmentTarget::FieldAccess(object, field) => {
            lemma_expression_kept(st, *object);
            match emit_expression(st, *object) {
                Err(_) => {},
                Ok(s1) => {
                    lemma_named_kept(s1, OpCode::SetProperty, field@);
                    lemma_kept_chain(st, s1, emit_named(s1, OpCode::SetProperty, field@));
                },
            }
        },
    }
}

proof fn lemma_assignment_kept(st: GenView, assignment: AssignmentStatement)
    requires
        st.scopes.len() > 0,
    ensures
        emit_assignment(st, assignment) matches Ok(s1) ==> kept(st, s1),
    decreases assignment, 0nat, 0nat,
{
    lemma_target_kept(st, assignment.target);
    match emit_target(st, assignment.target) {
        Err(_) => {},
        Ok(s1) => {
            lemma_expression_kept(s1, assignment.value);
            match emit_expression(s1, assignment.value) {
                Err(_) => {},
                Ok(s2) => {
                    lemma_store_kept(s2, assignment.target);
                    match emit_store(s2, assignment.target) {
                        Ok(s3) => {
                            lemma_kept_chain(st, s1, s2);
                            lemma_kept_chain(st, s2, s3);
                        },
                        Err(_) => {},
                    }
                },
            }
        },
    }
}

proof fn lemma_module_block_kept(st: GenView, block: ModuleBlock)
    requires
        st.scopes.len() > 0,
    ensures
        emit_module_block(st, block) matches Ok(s1) ==> kept(st, s1),
    decreases block, 0nat, 0nat,
{
    let named = ContextView { namespace: Some(block.namespace@), ..cur(st) };
    let inside = with_cur(st, named);
    lemma_data_kept(st, named);
    lemma_block_kept(inside, block.statements, block.statements.len() as nat);
    match emit_block(inside, block.statements, block.statements.len() as nat) {
        Err(_) => {},
        Ok(s1) => {
            let back = ContextView { namespace: cur(st).namespace, ..cur(s1) };
            lemma_data_kept(s1, back);
            lemma_kept_chain(st, inside, s1);
            lemma_kept_chain(st, s1, with_cur(s1, back));
        },
    }
}

proof fn lemma_if_kept(st: GenView, branch: IfStatement)
    requires
        st.scopes.len() > 0,
    ensures
        emit_if(st, branch) matches Ok(s1) ==> kept(st, s1),
    decreases branch, 0nat, 0nat,
{
    lemma_expression_kept(st, branch.condition);
    match emit_expression(st, branch.condition) {
        Err(_) => {},
        Ok(s1) => {
            let open = emit(s1, OpCode::JumpIfFalse(0));
            lemma_emit_kept(s1, OpCode::JumpIfFalse(0));
            lemma_block_kept(open, branch.then_branch, branch.then_branch.len() as nat);
            match emit_block(open, branch.then_branch, branch.then_branch.len() as nat) {
                Err(_) => {},
                Ok(s2) => {
                    let s3 = emit(s2, OpCode::Jump(0));
                    lemma_emit_kept(s2, OpCode::Jump(0));
                    lemma_kept_chain(st, s1, open);
                    lemma_kept_chain(st, open, s2);
                    lemma_kept_chain(st, s2, s3);
                    lemma_patch_kept(st, s3, cur(s1).opcodes.len(), OpCode::JumpIfFalse(here(s3)));
                    let s4 = patch(s3, here(s1), OpCode::JumpIfFalse(here(s3)));
                    match branch.else_branch {
                        Some(block) => {
                            lemma_block_kept(s4, block, block.len() as nat);
                        },
                        None => {},
                    }
                    let after_else = match branch.else_branch {
                        Some(block) => emit_block(s4, block, block.len() as nat),
                        None => Ok(s4),
                    };
                    match after_else {
                        Err(_) => {},
                        Ok(s5) => {
                            lemma_kept_chain(st, s4, s5);
                            lemma_patch_kept(st, s5, cur(s2).opcodes.len(), OpCode::Jump(here(s5)));
                        },
                    }
                },
            }
        },
    }
}

proof fn lemma_while_kept(st: GenView, repeat: WhileStatement)
    requires
        st.scopes.len() > 0,
    ensures
        emit_while(st, repeat) matches Ok(s1) ==> kept(st, s1),
    decreases repeat, 0nat, 0nat,
{
    lemma_expression_kept(st, repeat.condition);
    match emit_expression(st, repeat.condition) {
        Err(_) => {},
        Ok(s1) => {
            let open = emit(s1, OpCode::JumpIfFalse(0));
            lemma_emit_kept(s1, OpCode::JumpIfFalse(0));
            lemma_block_kept(open, repeat.body, repeat.body.len() as nat);
            match emit_block(open, repeat.body, repeat.body.len() as nat) {
                Err(_) => {},
                Ok(s2) => {
                    let s3 = emit(s2, OpCode::Jump(here(st)));
                    lemma_emit_kept(s2, OpCode::Jump(here(st)));
                    lemma_kept_chain(st, s1, open);
                    lemma_kept_chain(st, open, s2);
                    lemma_kept_chain(st, s2, s3);
                    lemma_patch_kept(st, s3, cur(s1).opcodes.len(), OpCode::JumpIfFalse(here(s3)));
                },
            }
        },
    }
}

proof fn lemma_func_decl_kept(st: GenView, decl: FuncDecl)
    requires
        st.scopes.len() > 0,
    ensures
        emit_func_decl(st, decl) matches Ok(s1) ==> kept(st, s1),
    decreases decl, 2nat, 0nat,
{
    if decl.is_exported && cur(st).in_function {
    } else {
        lemma_closure_kept(st, decl.name@, decl.params, decl.body);
        match emit_closure(st, decl.name@, decl.params, decl.body) {
            Err(_) => {},
            Ok(s1) => {
                if cur(s1).in_function {
                    lemma_fresh_local_kept(s1, decl.name@);
                    match fresh_local(s1, decl.name@) {
                        Some((s2, slot)) => {
                            lemma_emit_kept(s2, OpCode::DefineLocal(slot));
                            lemma_kept_chain(s1, s2, emit(s2, OpCode::DefineLocal(slot)));
                            lemma_kept_chain(st, s1, emit(s2, OpCode::DefineLocal(slot)));
                        },
                        None => {},
                    }
                } else {
                    lemma_global_kept(s1, GlobalOp::Define, decl.name@);
                    lemma_kept_chain(st, s1, emit_global(s1, GlobalOp::Define, decl.name@));
                }
            },
        }
    }
}

proof fn lemma_class_kept(st: GenView, decl: ClassDecl)
    requires
        st.scopes.len() > 0,
    ensures
        emit_class(st, decl) matches Ok(s1) ==> kept(st, s1),
    decreases decl, 3nat, 0nat,
{
    let s1 = emit_named(st, OpCode::Class, decl.name@);
    lemma_named_kept(st, OpCode::Class, decl.name@);
    let s2 = match decl.extends {
        Some(parent) => emit(emit_global(s1, GlobalOp::Read, parent@), OpCode::Inherit),
        None => s1,
    };
    match decl.extends {
        Some(parent) => {
            lemma_global_kept(s1, GlobalOp::Read, parent@);
            lemma_emit_kept(emit_global(s1, GlobalOp::Read, parent@), OpCode::Inherit);
            lemma_kept_chain(s1, emit_global(s1, GlobalOp::Read, parent@), s2);
        },
        None => {},
    }
    lemma_kept_chain(st, s1, s2);
    lemma_members_kept(s2, decl.members, decl.members.len() as nat);
    match emit_members(s2, decl.members, decl.members.len() as nat) {
        Err(_) => {},
        Ok(s3) => {
            lemma_global_kept(s3, GlobalOp::Define, decl.name@);
            lemma_kept_chain(st, s2, s3);
            lemma_kept_chain(st, s3, emit_global(s3, GlobalOp::Define, decl.name@));
        },
    }
}

proof fn lemma_try_kept(st: GenView, attempt: TryStatement)
    requires
        st.scopes.len() > 0,
    ensures
        emit_try(st, attempt) matches Ok(s1) ==> kept(st, s1),
    decreases attempt, 0nat, 0nat,
{
    let open = emit(st, OpCode::PushExceptionHandler(0));
    lemma_emit_kept(st, OpCode::PushExceptionHandler(0));
    lemma_block_kept(open, attempt.try_body, attempt.try_body.len() as nat);
    match emit_block(open, attempt.try_body, attempt.try_body.len() as nat) {
        Err(_) => {},
        Ok(s1) => {
            let s2 = emit(s1, OpCode::PopExceptionHandler);
            lemma_emit_kept(s1, OpCode::PopExceptionHandler);
            let s3 = emit(s2, OpCode::Jump(0));
            lemma_emit_kept(s2, OpCode::Jump(0));
            lemma_kept_chain(st, open, s1);
            lemma_kept_chain(st, s1, s2);
            lemma_kept_chain(st, s2, s3);
            lemma_patch_kept(st, s3, cur(st).opcodes.len(), OpCode::PushExceptionHandler(here(s3)));
            let s4 = patch(s3, here(st), OpCode::PushExceptionHandler(here(s3)));
            lemma_catch_binding_kept(s4, attempt.catch_var);
            match emit_catch_binding(s4, attempt.catch_var) {
                Err(_) => {},
                Ok(s5) => {
                    lemma_block_kept(s5, attempt.catch_body, attempt.catch_body.len() as nat);
                    match emit_block(s5, attempt.catch_body, attempt.catch_body.len() as nat) {
                        Err(_) => {},
                        Ok(s6) => {
                            lemma_kept_chain(st, s4, s5);
                            lemma_kept_chain(st, s5, s6);
                            lemma_patch_kept(st, s6, cur(s2).opcodes.len(), OpCode::Jump(here(s6)));
                        },
                    }
                },
            }
        },
    }
}

/// Compiling a statement keeps what was there.
pub proof fn lemma_statement_kept(st: GenView, statement: Statement)
    requires
        st.scopes.len() > 0,
    ensures
        emit_statement(st, statement) matches Ok(s1) ==> kept(st, s1),
    decreases statement, 0nat, 0nat,
{
    match statement {
        Statement::VarDecl(decl) => {
            lemma_var_decl_kept(st, decl);
        },
        Statement::Assignment(assignment) => {
            lemma_assignment_kept(st, assignment);
        },
        Statement::Expression(e) => {
            lemma_expression_kept(st, e);
        },
        Statement::ModuleBlock(block) => {
            lemma_module_block_kept(st, block);
        },
        Statement::If(branch) => {
            lemma_if_kept(st, branch);
        },
        Statement::While(repeat) => {
            lemma_while_kept(st, repeat);
        },
        Statement::FuncDecl(decl) => {
            lemma_func_decl_kept(st, decl);
        },
        Statement::Return(ret) => {
            if cur(st).in_function {
                lemma_optional_kept(st, ret.value);
                match emit_optional(st, ret.value) {
                    Err(_) => {},
                    Ok(s1) => {
                        lemma_emit_kept(s1, OpCode::Return_);
                        lemma_kept_chain(st, s1, emit(s1, OpCode::Return_));
                    },
                }
            }
        },
        Statement::Import(_) => {},
        Statement::ClassDecl(decl) => {
            lemma_class_kept(st, decl);
        },
        Statement::InterfaceDecl(_) => {},
        Statement::AnnotationDecl(_) => {},
        Statement::Try(attempt) => {
            lemma_try_kept(st, *attempt);
        },
        Statement::Throw(throw) => {
            lemma_expression_kept(st, throw.expression);
            match emit_expression(st, throw.expression) {
                Err(_) => {},
                Ok(s1) => {
                    lemma_emit_kept(s1, OpCode::Throw);
                    lemma_kept_chain(st, s1, emit(s1, OpCode::Throw));
                },
            }
        },
    }
}

/// In the code of `a и b` and of `a или b` the code of the left side is
/// followed by `Dup`, the jump that decides, and `Pop`; then comes the
/// code of the right side, and the jump leads behind it. So where the
/// left side decides, no instruction of the right side is run.
pub proof fn law_short_circuit_jumps_over_the_right_side(st: GenView, binary: BinaryExpr)
    requires
        st.scopes.len() > 0,
        binary.operator == BinaryOperator::And || binary.operator == BinaryOperator::Or,
        emit_binary(st, binary) is Ok,
        cur(emit_binary(st, binary)->Ok_0).opcodes.len() <= usize::MAX,
    ensures
        ({
            let left = emit_expression(st, binary.left)->Ok_0;
            let before_right = emit(emit(emit(left, OpCode::Dup), short_circuit(binary.operator, 0)), OpCode::Pop);
            let right = emit_expression(before_right, binary.right)->Ok_0;
            let done = emit_binary(st, binary)->Ok_0;
            let code = cur(done).opcodes;
            let at = cur(left).opcodes.len() as int;
            &&& emit_expression(st, binary.left) is Ok
            &&& emit_expression(before_right, binary.right) is Ok
            &&& kept(st, left)
            &&& kept(before_right, right)
            &&& code.len() == cur(right).opcodes.len()
            &&& at + 3 <= code.len()
            &&& forall|k: int| 0 <= k < at ==> code[k] == cur(left).opcodes[k]
            &&& code[at] == OpCode::Dup
            &&& code[at + 1] == short_circuit(binary.operator, code.len() as usize)
            &&& code[at + 2] == OpCode::Pop
            &&& forall|k: int| at + 3 <= k < code.len() ==> code[k] == cur(right).opcodes[k]
        }),
{
    lemma_expression_kept(st, binary.left);
    let left = emit_expression(st, binary.left)->Ok_0;
    let s2 = emit(left, OpCode::Dup);
    let jump = emit(s2, short_circuit(binary.operator, 0));
    let s3 = emit(jump, OpCode::Pop);
    lemma_emit_kept(left, OpCode::Dup);
    lemma_emit_kept(s2, short_circuit(binary.operator, 0));
    lemma_emit_kept(jump, OpCode::Pop);
    lemma_expression_kept(s3, binary.right);
    let s4 = emit_expression(s3, binary.right)->Ok_0;
    lemma_kept_chain(left, s2, jump);
    lemma_kept_chain(left, jump, s3);
    lemma_kept_chain(left, s3, s4);
    lemma_patch_kept(left, s4, cur(s2).opcodes.len(), short_circuit(binary.operator, here(s4)));
    let done = emit_binary(st, binary)->Ok_0;
    assert(done == patch(s4, here(s2), short_circuit(binary.operator, here(s4))));
    let at = cur(left).opcodes.len() as int;
    assert(cur(s3).opcodes[at] == OpCode::Dup);
    assert(cur(s3).opcodes[at + 2] == OpCode::Pop);
    assert(cur(s4).opcodes[at] == cur(s3).opcodes[at]);
    assert(cur(s4).opcodes[at + 2] == cur(s3).opcodes[at + 2]);
}

/// Whether the left side of a short-circuit operator decides with this
/// value: a false or `Nil` value decides `и`, any other value decides
/// `или`.
pub open spec fn decides(operator: BinaryOperator, left: ValueView) -> bool {
    if operator == BinaryOperator::And {
        !truthy(left)
    } else {
        truthy(left)
    }
}

/// Where the code of `a и b` or `a или b` is part of the function that
/// runs, the machine stands behind the code of the left side, and the
/// value on top decides, two steps take the machine behind the code of
/// the right side: the value is still on top and nothing else has
/// changed.
pub proof fn law_deciding_left_side_skips_the_right_side(
    st: GenView,
    binary: BinaryExpr,
    whole: GenView,
    s: VmView,
)
    requires
        st.scopes.len() > 0,
        binary.operator == BinaryOperator::And || binary.operator == BinaryOperator::Or,
        emit_binary(st, binary) is Ok,
        kept(emit_binary(st, binary)->Ok_0, whole),
        cur(whole).opcodes.len() <= usize::MAX,
        s.pending is Idle,
        s.frames.len() > 0,
        s.stack.len() > 0,
        code_of(s, frame(s).function) == cur(whole).opcodes,
        frame(s).ip == cur(emit_expression(st, binary.left)->Ok_0).opcodes.len(),
        decides(binary.operator, s.stack.last()),
    ensures
        step(s).1 == ActionView::Continue,
        step(step(s).0) == (
            with_ip(s, cur(emit_binary(st, binary)->Ok_0).opcodes.len() as usize),
            ActionView::Continue,
        ),
{
    let done = emit_binary(st, binary)->Ok_0;
    law_short_circuit_jumps_over_the_right_side(st, binary);
    let left = emit_expression(st, binary.left)->Ok_0;
    let at = cur(left).opcodes.len() as int;
    let code = cur(whole).opcodes;
    let end = cur(done).opcodes.len() as usize;
    assert(code[at] == cur(done).opcodes[at]);
    assert(code[at + 1] == cur(done).opcodes[at + 1]);
    let fetched = with_ip(s, (at + 1) as usize);
    crate::laws::law_short_circuit(fetched, end);
    let doubled = execute(fetched, OpCode::Dup).0;
    assert(step(s) == execute(fetched, OpCode::Dup));
    assert(doubled == pushed(fetched, s.stack.last()));
    assert(frame(doubled).ip == at + 1);
    assert(code_of(doubled, frame(doubled).function) == code);
    let refetched = with_ip(doubled, (at + 2) as usize);
    assert(step(doubled) == execute(refetched, code[at + 1]));
    crate::laws::law_short_circuit(with_ip(fetched, (at + 2) as usize), end);
    assert(refetched == execute(with_ip(fetched, (at + 2) as usize), OpCode::Dup).0);
    assert(with_ip(with_ip(fetched, (at + 2) as usize), end).frames =~= with_ip(s, end).frames);
    assert(with_ip(with_ip(fetched, (at + 2) as usize), end) == with_ip(s, end));
}

} // verus!
