//! The code generator: one pass over a resolved program, emitting
//! instructions and interning constants, one unit per function body.

use vstd::prelude::*;
use vstd::string::StringExecFns;
use crate::ast::{
    AssignmentStatement, AssignmentTarget, AstNode, BinaryExpr, BinaryOperator, CallExpr,
    ClassDecl, ClassMember, Expression, FieldAccessExpr, FuncDecl, IfStatement, IndexExpr,
    ModuleBlock, Parameter, RangeExpr, Statement, TryStatement, UnaryOperator, VarDecl,
    WhileStatement,
};
use crate::codegen;
use crate::codegen::{CompileError, ContextView, GenView, GlobalOp};
use crate::heap::{find_entry, lemma_lookup_absent, lemma_lookup_first, lookup, method_views, set_method};
use crate::model::CONSTRUCTOR;
use crate::number::Number;
use crate::opcode::OpCode;
use crate::text::is_text;
use crate::value::{views, Function, UpvalueDescriptor, Value, ValueView};
use crate::vm::function_views;

verus! {

pub open spec fn upvalue_views(s: Seq<(String, UpvalueDescriptor)>) -> Seq<(Seq<char>, UpvalueDescriptor)> {
    s.map_values(|u: (String, UpvalueDescriptor)| (u.0@, u.1))
}

/// One compilation unit: the top level or one function body.
#[derive(Debug)]
pub struct GenContext {
    pub constants: Vec<Value>,
    pub opcodes: Vec<OpCode>,
    /// The namespace that global names are mangled with.
    pub current_namespace: Option<String>,
    pub in_function: bool,
    /// The functions that the unit's constants refer to by number; filled
    /// when the unit is handed out.
    pub functions: Vec<Function>,
    pub local_slots: Vec<(String, usize)>,
    pub next_local_slot: usize,
    pub upvalues: Vec<(String, UpvalueDescriptor)>,
}

impl View for GenContext {
    type V = ContextView;

    open spec fn view(&self) -> ContextView {
        ContextView {
            constants: views(self.constants@),
            opcodes: self.opcodes@,
            namespace: match self.current_namespace {
                Some(namespace) => Some(namespace@),
                None => None,
            },
            in_function: self.in_function,
            functions: function_views(self.functions@),
            locals: method_views(self.local_slots@),
            next_slot: self.next_local_slot,
            upvalues: upvalue_views(self.upvalues@),
        }
    }
}

pub open spec fn context_views(s: Seq<GenContext>) -> Seq<ContextView> {
    s.map_values(|c: GenContext| c@)
}

/// The generator. Between two compilations it holds nothing.
#[derive(Debug)]
pub struct Generator {
    pub scopes: Vec<GenContext>,
    pub functions: Vec<Function>,
}

impl View for Generator {
    type V = GenView;

    open spec fn view(&self) -> GenView {
        GenView { scopes: context_views(self.scopes@), functions: function_views(self.functions@) }
    }
}

/// Whether a compilation moved on within one unit: the same units are
/// open, the units around the current one have the instructions they had,
/// and the current one has lost none.
pub open spec fn grown(before: GenView, after: GenView) -> bool {
    &&& after.scopes.len() == before.scopes.len()
    &&& forall|i: int|
        0 <= i < before.scopes.len() - 1 ==> (#[trigger] after.scopes[i]).opcodes == before.scopes[i].opcodes
    &&& codegen::cur(after).opcodes.len() >= codegen::cur(before).opcodes.len()
}

/// Whether every open unit has the instructions it had.
pub open spec fn same_code(before: GenView, after: GenView) -> bool {
    &&& after.scopes.len() == before.scopes.len()
    &&& forall|i: int|
        0 <= i < before.scopes.len() ==> (#[trigger] after.scopes[i]).opcodes == before.scopes[i].opcodes
}

/// A statement that fails makes every longer run of the block fail alike.
proof fn lemma_block_fails(st: GenView, statements: Vec<Statement>, k: nat, n: nat, e: CompileError)
    requires
        k <= n <= statements.len(),
        codegen::emit_block(st, statements, k) == Err::<GenView, CompileError>(e),
    ensures
        codegen::emit_block(st, statements, n) == Err::<GenView, CompileError>(e),
    decreases n,
{
    if k < n {
        lemma_block_fails(st, statements, k, (n - 1) as nat, e);
    }
}

proof fn lemma_expressions_fail(st: GenView, items: Vec<Expression>, k: nat, n: nat, e: CompileError)
    requires
        k <= n <= items.len(),
        codegen::emit_expressions(st, items, k) == Err::<GenView, CompileError>(e),
    ensures
        codegen::emit_expressions(st, items, n) == Err::<GenView, CompileError>(e),
    decreases n,
{
    if k < n {
        lemma_expressions_fail(st, items, k, (n - 1) as nat, e);
    }
}

proof fn lemma_pairs_fail(st: GenView, pairs: Vec<(Expression, Expression)>, k: nat, n: nat, e: CompileError)
    requires
        k <= n <= pairs.len(),
        codegen::emit_pairs(st, pairs, k) == Err::<GenView, CompileError>(e),
    ensures
        codegen::emit_pairs(st, pairs, n) == Err::<GenView, CompileError>(e),
    decreases n,
{
    if k < n {
        lemma_pairs_fail(st, pairs, k, (n - 1) as nat, e);
    }
}

proof fn lemma_members_fail(st: GenView, members: Vec<ClassMember>, k: nat, n: nat, e: CompileError)
    requires
        k <= n <= members.len(),
        codegen::emit_members(st, members, k) == Err::<GenView, CompileError>(e),
    ensures
        codegen::emit_members(st, members, n) == Err::<GenView, CompileError>(e),
    decreases n,
{
    if k < n {
        lemma_members_fail(st, members, k, (n - 1) as nat, e);
    }
}

fn same_constant(a: &Value, b: &Value) -> (r: bool)
    ensures
        r == codegen::same_constant(a@, b@),
{
    match (a, b) {
        (Value::Number(x), Value::Number(y)) => x.bits == y.bits,
        (Value::String(x), Value::String(y)) => *x == *y,
        (Value::Boolean(x), Value::Boolean(y)) => *x == *y,
        (Value::Nil, Value::Nil) => true,
        _ => false,
    }
}

fn is_super(e: &Expression) -> (r: bool)
    ensures
        r == codegen::is_super(*e),
{
    match e {
        Expression::Identifier(name, _) => is_text(name, codegen::SUPER),
        _ => false,
    }
}

fn range_end(e: &Option<Box<Expression>>) -> (r: Result<Option<Number>, CompileError>)
    ensures
        r == codegen::range_end(*e),
{
    match e {
        None => Ok(None),
        Some(end) => match &**end {
            Expression::Number(n, _) => Ok(Some(*n)),
            _ => Err(CompileError::RangeNotConstant),
        },
    }
}

fn find_upvalue(entries: &Vec<(String, UpvalueDescriptor)>, name: &String) -> (r: Option<usize>)
    ensures
        match r {
            Some(i) => lookup(upvalue_views(entries@), name@) == Some(i as int) && i < entries.len(),
            None => lookup(upvalue_views(entries@), name@) is None,
        },
{
    let ghost all = upvalue_views(entries@);
    let mut i: usize = 0;
    while i < entries.len()
        invariant
            i <= entries.len(),
            all == upvalue_views(entries@),
            forall|j: int| 0 <= j < i ==> (#[trigger] all[j]).0 != name@,
        decreases entries.len() - i,
    {
        if entries[i].0 == *name {
            proof {
                assert(all[i as int].0 == name@);
                lemma_lookup_first(all, name@, i as int);
            }
            return Some(i);
        }
        assert(all[i as int].0 != name@);
        i = i + 1;
    }
    proof {
        lemma_lookup_absent(all, name@);
    }
    None
}

impl Generator {
    pub fn new() -> (r: Self)
        ensures
            r.scopes@.len() == 0,
            r.functions@.len() == 0,
    {
        Generator { scopes: Vec::new(), functions: Vec::new() }
    }

    fn make_context(in_function: bool) -> (r: GenContext)
        ensures
            r@ == codegen::fresh_context(in_function),
    {
        let r = GenContext {
            constants: Vec::new(),
            opcodes: Vec::new(),
            current_namespace: None,
            in_function,
            functions: Vec::new(),
            local_slots: Vec::new(),
            next_local_slot: 0,
            upvalues: Vec::new(),
        };
        proof {
            assert(r@.constants =~= Seq::empty());
            assert(r@.functions =~= Seq::empty());
            assert(r@.locals =~= Seq::empty());
            assert(r@.upvalues =~= Seq::empty());
        }
        r
    }

    fn emit(&mut self, op: OpCode)
        requires
            old(self).scopes.len() > 0,
        ensures
            final(self)@ == codegen::emit(old(self)@, op),
            grown(old(self)@, final(self)@),
            final(self).scopes.len() == old(self).scopes.len(),
    {
        let top: usize = self.scopes.len() - 1;
        self.scopes[top].opcodes.push(op);
        assert(context_views(self.scopes@) =~= old(self)@.scopes.update(
            top as int,
            ContextView { opcodes: old(self)@.scopes[top as int].opcodes.push(op), ..old(self)@.scopes[top as int] },
        ));
    }

    /// The position of the next instruction of the current unit.
    fn here(&self) -> (r: usize)
        requires
            self.scopes.len() > 0,
        ensures
            r == codegen::here(self@),
            r == codegen::cur(self@).opcodes.len(),
    {
        self.scopes[self.scopes.len() - 1].opcodes.len()
    }

    fn patch(&mut self, at: usize, op: OpCode)
        requires
            old(self).scopes.len() > 0,
            at < codegen::cur(old(self)@).opcodes.len(),
        ensures
            final(self)@ == codegen::patch(old(self)@, at, op),
            grown(old(self)@, final(self)@),
            final(self).scopes.len() == old(self).scopes.len(),
    {
        let top: usize = self.scopes.len() - 1;
        self.scopes[top].opcodes[at] = op;
        assert(context_views(self.scopes@) =~= old(self)@.scopes.update(
            top as int,
            ContextView {
                opcodes: old(self)@.scopes[top as int].opcodes.update(at as int, op),
                ..old(self)@.scopes[top as int]
            },
        ));
    }

    /// Adds a constant to the pool without looking for an equal one.
    fn add_constant(&mut self, v: Value) -> (k: usize)
        requires
            old(self).scopes.len() > 0,
        ensures
            final(self)@ == codegen::with_cur(
                old(self)@,
                ContextView {
                    constants: codegen::cur(old(self)@).constants.push(v@),
                    ..codegen::cur(old(self)@)
                },
            ),
            k == codegen::cur(old(self)@).constants.len(),
            grown(old(self)@, final(self)@),
            final(self).scopes.len() == old(self).scopes.len(),
    {
        let top: usize = self.scopes.len() - 1;
        let k: usize = self.scopes[top].constants.len();
        let ghost before = self.scopes[top as int].constants@;
        self.scopes[top].constants.push(v);
        assert(views(self.scopes[top as int].constants@) =~= views(before).push(v@));
        assert(context_views(self.scopes@) =~= old(self)@.scopes.update(
            top as int,
            ContextView {
                constants: old(self)@.scopes[top as int].constants.push(v@),
                ..old(self)@.scopes[top as int]
            },
        ));
        k
    }

    /// The place of a constant in the pool: that of an equal simple
    /// constant where there is one, else a new place at the end.
    fn intern_constant(&mut self, v: Value) -> (k: usize)
        requires
            old(self).scopes.len() > 0,
        ensures
            (final(self)@, k) == codegen::intern(old(self)@, v@),
            grown(old(self)@, final(self)@),
            final(self).scopes.len() == old(self).scopes.len(),
    {
        proof {
            reveal(codegen::intern);
        }
        let top: usize = self.scopes.len() - 1;
        let ghost constants = codegen::cur(self@).constants;
        let mut i: usize = 0;
        while i < self.scopes[top].constants.len()
            invariant
                self == old(self),
                top == self.scopes.len() - 1,
                i <= self.scopes[top as int].constants.len(),
                constants == views(self.scopes[top as int].constants@),
                forall|j: int| 0 <= j < i ==> !codegen::same_constant(v@, #[trigger] constants[j]),
            decreases self.scopes[top as int].constants.len() - i,
        {
            if same_constant(&v, &self.scopes[top].constants[i]) {
                proof {
                    reveal(codegen::intern);
                    assert(codegen::interned_at(constants, v@, i as int));
                    let chosen = choose|j: int| codegen::interned_at(constants, v@, j);
                    if chosen < i {
                        assert(!codegen::same_constant(v@, constants[chosen]));
                    }
                    if i < chosen {
                        assert(codegen::same_constant(v@, constants[i as int]));
                    }
                }
                return i;
            }
            i = i + 1;
        }
        self.add_constant(v)
    }

    fn intern_string(&mut self, name: String) -> (k: usize)
        requires
            old(self).scopes.len() > 0,
        ensures
            (final(self)@, k) == codegen::intern(old(self)@, ValueView::String(name@)),
            grown(old(self)@, final(self)@),
            final(self).scopes.len() == old(self).scopes.len(),
    {
        self.intern_constant(Value::String(name))
    }

    fn emit_constant(&mut self, v: Value)
        requires
            old(self).scopes.len() > 0,
        ensures
            final(self)@ == codegen::emit_constant(old(self)@, v@),
            grown(old(self)@, final(self)@),
            final(self).scopes.len() == old(self).scopes.len(),
    {
        proof {
            reveal(codegen::emit_constant);
        }
        let k: usize = self.intern_constant(v);
        self.emit(OpCode::Constant(k));
    }

    /// The name under which the current unit files a global.
    fn mangle_name(&self, name: &String) -> (r: String)
        requires
            self.scopes.len() > 0,
        ensures
            r@ == codegen::mangle(self@, name@),
    {
        match &self.scopes[self.scopes.len() - 1].current_namespace {
            Some(namespace) => namespace.clone().concat(codegen::SEPARATOR).concat(name.as_str()),
            None => name.clone(),
        }
    }

    fn emit_global(&mut self, op: GlobalOp, name: &String)
        requires
            old(self).scopes.len() > 0,
        ensures
            final(self)@ == codegen::emit_global(old(self)@, op, name@),
            grown(old(self)@, final(self)@),
            final(self).scopes.len() == old(self).scopes.len(),
    {
        proof {
            reveal(codegen::emit_global);
        }
        let mangled = self.mangle_name(name);
        let k: usize = self.intern_string(mangled);
        let code = match op {
            GlobalOp::Define => OpCode::DefineGlobal(k),
            GlobalOp::Assign => OpCode::SetGlobal(k),
            GlobalOp::Read => OpCode::GetGlobal(k),
        };
        self.emit(code);
    }

    fn emit_named(&mut self, op: OpCode, name: &String)
        requires
            old(self).scopes.len() > 0,
        ensures
            final(self)@ == codegen::emit_named(old(self)@, op, name@),
            grown(old(self)@, final(self)@),
            final(self).scopes.len() == old(self).scopes.len(),
    {
        proof {
            reveal(codegen::emit_named);
        }
        let k: usize = self.intern_string(name.clone());
        self.emit(op);
        self.emit(OpCode::Constant(k));
    }

    fn add_upvalue(&mut self, level: usize, name: &String, is_local: bool, index: usize) -> (r: Option<usize>)
        requires
            level < old(self).scopes.len(),
        ensures
            (final(self)@, r) == codegen::add_upvalue(old(self)@, level as int, name@, is_local, index),
            same_code(old(self)@, final(self)@),
            final(self).scopes.len() == old(self).scopes.len(),
    {
        proof {
            reveal(codegen::add_upvalue);
        }
        match find_upvalue(&self.scopes[level].upvalues, name) {
            Some(i) => Some(i),
            None => {
                let at: usize = self.scopes[level].upvalues.len();
                let ghost before = self.scopes[level as int].upvalues@;
                let entry = (name.clone(), UpvalueDescriptor { is_local, index });
                self.scopes[level].upvalues.push(entry);
                assert(upvalue_views(self.scopes[level as int].upvalues@) =~= upvalue_views(before).push(
                    (name@, UpvalueDescriptor { is_local, index }),
                ));
                assert(context_views(self.scopes@) =~= old(self)@.scopes.update(
                    level as int,
                    ContextView {
                        upvalues: old(self)@.scopes[level as int].upvalues.push(
                            (name@, UpvalueDescriptor { is_local, index }),
                        ),
                        ..old(self)@.scopes[level as int]
                    },
                ));
                Some(at)
            },
        }
    }

    /// Finds `name` outside the unit at `level`, adding the upvalues that
    /// hand it inward.
    fn resolve_upvalue(&mut self, level: usize, name: &String) -> (r: Option<usize>)
        ensures
            (final(self)@, r) == codegen::resolve_upvalue(old(self)@, level as nat, name@),
            same_code(old(self)@, final(self)@),
            final(self).scopes.len() == old(self).scopes.len(),
        decreases level,
    {
        if level == 0 || level >= self.scopes.len() {
            return None;
        }
        match find_entry(&self.scopes[level - 1].local_slots, name) {
            Some(i) => {
                let slot: usize = self.scopes[level - 1].local_slots[i].1;
                self.add_upvalue(level, name, true, slot)
            },
            None => match self.resolve_upvalue(level - 1, name) {
                Some(u) => self.add_upvalue(level, name, false, u),
                None => None,
            },
        }
    }

    fn resolve_local(&self, name: &String) -> (r: Option<usize>)
        requires
            self.scopes.len() > 0,
        ensures
            match r {
                Some(slot) => lookup(codegen::cur(self@).locals, name@) matches Some(i) && codegen::cur(
                    self@,
                ).locals[i].1 == slot,
                None => lookup(codegen::cur(self@).locals, name@) is None,
            },
    {
        let top: usize = self.scopes.len() - 1;
        match find_entry(&self.scopes[top].local_slots, name) {
            Some(i) => Some(self.scopes[top].local_slots[i].1),
            None => None,
        }
    }

    fn emit_variable(&mut self, name: &String, write: bool)
        requires
            old(self).scopes.len() > 0,
        ensures
            final(self)@ == codegen::emit_variable(old(self)@, name@, write),
            grown(old(self)@, final(self)@),
            final(self).scopes.len() == old(self).scopes.len(),
    {
        proof {
            reveal(codegen::emit_variable);
        }
        match self.resolve_local(name) {
            Some(slot) => {
                self.emit(
                    if write {
                        OpCode::SetLocal(slot)
                    } else {
                        OpCode::GetLocal(slot)
                    },
                );
            },
            None => {
                let top: usize = self.scopes.len() - 1;
                let found: Option<usize> = if self.scopes[top].in_function {
                    self.resolve_upvalue(top, name)
                } else {
                    None
                };
                match found {
                    Some(u) => {
                        self.emit(
                            if write {
                                OpCode::SetUpvalue(u)
                            } else {
                                OpCode::GetUpvalue(u)
                            },
                        );
                    },
                    None => {
                        self.emit_global(
                            if write {
                                GlobalOp::Assign
                            } else {
                                GlobalOp::Read
                            },
                            name,
                        );
                    },
                }
            },
        }
    }

    /// A new slot for `name`, whatever slot it had.
    fn fresh_local(&mut self, name: &String) -> (r: Option<usize>)
        requires
            old(self).scopes.len() > 0,
        ensures
            match r {
                Some(slot) => codegen::fresh_local(old(self)@, name@) == Some((final(self)@, slot)) && grown(
                    old(self)@,
                    final(self)@,
                ),
                None => codegen::fresh_local(old(self)@, name@) is None,
            },
            final(self).scopes.len() == old(self).scopes.len(),
    {
        proof {
            reveal(codegen::fresh_local);
        }
        let top: usize = self.scopes.len() - 1;
        let slot: usize = self.scopes[top].next_local_slot;
        if slot == usize::MAX {
            return None;
        }
        set_method(&mut self.scopes[top].local_slots, name.clone(), slot);
        self.scopes[top].next_local_slot = slot + 1;
        assert(context_views(self.scopes@) =~= old(self)@.scopes.update(
            top as int,
            ContextView {
                locals: crate::heap::with_entry(old(self)@.scopes[top as int].locals, name@, slot),
                next_slot: (slot + 1) as usize,
                ..old(self)@.scopes[top as int]
            },
        ));
        Some(slot)
    }

    /// The slot of the local `name`, a new one where it has none yet.
    fn declare_local(&mut self, name: &String) -> (r: Option<usize>)
        requires
            old(self).scopes.len() > 0,
        ensures
            match r {
                Some(slot) => codegen::declare_local(old(self)@, name@) == Some((final(self)@, slot)) && grown(
                    old(self)@,
                    final(self)@,
                ),
                None => codegen::declare_local(old(self)@, name@) is None,
            },
            final(self).scopes.len() == old(self).scopes.len(),
    {
        proof {
            reveal(codegen::declare_local);
        }
        match self.resolve_local(name) {
            Some(slot) => Some(slot),
            None => self.fresh_local(name),
        }
    }

    fn emit_operator(&mut self, operator: BinaryOperator)
        requires
            old(self).scopes.len() > 0,
        ensures
            final(self)@ == codegen::emit_operator(old(self)@, operator),
            grown(old(self)@, final(self)@),
            final(self).scopes.len() == old(self).scopes.len(),
    {
        proof {
            reveal(codegen::emit_operator);
        }
        match operator {
            BinaryOperator::Add => self.emit(OpCode::Add),
            BinaryOperator::Subtract => self.emit(OpCode::Sub),
            BinaryOperator::Multiply => self.emit(OpCode::Mul),
            BinaryOperator::Divide => self.emit(OpCode::Div),
            BinaryOperator::Modulo => self.emit(OpCode::Mod),
            BinaryOperator::Equal => self.emit(OpCode::Eql),
            BinaryOperator::NotEqual => {
                self.emit(OpCode::Eql);
                self.emit(OpCode::Not);
            },
            BinaryOperator::Less => self.emit(OpCode::Less),
            BinaryOperator::LessEqual => {
                self.emit(OpCode::Greater);
                self.emit(OpCode::Not);
            },
            BinaryOperator::Greater => self.emit(OpCode::Greater),
            BinaryOperator::GreaterEqual => {
                self.emit(OpCode::Less);
                self.emit(OpCode::Not);
            },
            BinaryOperator::And => {},
            BinaryOperator::Or => {},
        }
    }

    /// The unit that a function body is compiled in.
    fn function_context(&self, params: &Vec<Parameter>, is_method: bool) -> (r: GenContext)
        requires
            self.scopes.len() > 0,
            !(is_method && params.len() == usize::MAX),
        ensures
            r@ == codegen::function_context(self@, params@, is_method),
    {
        let start: usize = if is_method {
            1
        } else {
            0
        };
        let mut local_slots: Vec<(String, usize)> = Vec::new();
        let mut i: usize = 0;
        assert(method_views(local_slots@) =~= codegen::parameter_slots(params@, start as int, 0));
        while i < params.len()
            invariant
                i <= params.len(),
                start <= 1,
                start + params.len() <= usize::MAX,
                method_views(local_slots@) == codegen::parameter_slots(params@, start as int, i as nat),
            decreases params.len() - i,
        {
            set_method(&mut local_slots, params[i].name.clone(), start + i);
            i = i + 1;
        }
        let namespace = match &self.scopes[self.scopes.len() - 1].current_namespace {
            Some(namespace) => Some(namespace.clone()),
            None => None,
        };
        let r = GenContext {
            constants: Vec::new(),
            opcodes: Vec::new(),
            current_namespace: namespace,
            in_function: true,
            functions: Vec::new(),
            local_slots,
            next_local_slot: start + params.len(),
            upvalues: Vec::new(),
        };
        proof {
            assert(r@.constants =~= Seq::empty());
            assert(r@.functions =~= Seq::empty());
            assert(r@.upvalues =~= Seq::empty());
        }
        r
    }

    /// Compiles a function in a unit of its own and enters it into the
    /// table; gives its number.
    fn compile_function(
        &mut self,
        name: &String,
        params: &Vec<Parameter>,
        body: &Vec<Statement>,
        is_method: bool,
    ) -> (r: Result<usize, CompileError>)
        requires
            old(self).scopes.len() > 0,
        ensures
            match r {
                Ok(f) => codegen::compile_function(old(self)@, name@, *params, *body, is_method) == Ok::<
                    (GenView, usize),
                    CompileError,
                >((final(self)@, f)) && same_code(old(self)@, final(self)@) && f < final(self).functions.len(),
                Err(e) => codegen::compile_function(old(self)@, name@, *params, *body, is_method) == Err::<
                    (GenView, usize),
                    CompileError,
                >(e),
            },
        decreases body, 1nat, 0nat,
    {
        if is_method && params.len() == usize::MAX {
            return Err(CompileError::TooManyLocals);
        }
        let context = self.function_context(params, is_method);
        self.scopes.push(context);
        assert(context_views(self.scopes@) =~= old(self)@.scopes.push(context@));
        let ghost s0 = self@;
        match self.emit_block(body) {
            Err(e) => {
                return Err(e);
            },
            Ok(()) => {},
        }
        if is_text(name, CONSTRUCTOR) {
            self.emit(OpCode::GetLocal(0));
        } else {
            self.emit_constant(Value::Nil);
        }
        self.emit(OpCode::Return_);
        let ghost s3 = self@;
        assert(grown(s0, s3));
        let done = self.scopes.pop().unwrap();
        assert(context_views(self.scopes@) =~= s3.scopes.drop_last());
        let function = Generator::finish_function(done, name, params.len());
        let f: usize = self.functions.len();
        self.functions.push(function);
        assert(function_views(self.functions@) =~= s3.functions.push(function@));
        assert forall|i: int| 0 <= i < old(self)@.scopes.len() implies (#[trigger] self@.scopes[i]).opcodes == old(
            self,
        )@.scopes[i].opcodes by {
            assert(self@.scopes[i] == s3.scopes[i]);
            assert(s0.scopes[i] == old(self)@.scopes[i]);
        }
        Ok(f)
    }

    /// The function that a finished unit is.
    fn finish_function(done: GenContext, name: &String, arity: usize) -> (function: Function)
        ensures
            function@ == codegen::function_of(done@, name@, arity),
    {
        let mut descriptors: Vec<UpvalueDescriptor> = Vec::new();
        let mut i: usize = 0;
        while i < done.upvalues.len()
            invariant
                i <= done.upvalues.len(),
                descriptors.len() == i,
                forall|j: int| 0 <= j < i ==> descriptors[j] == (#[trigger] done.upvalues[j]).1,
            decreases done.upvalues.len() - i,
        {
            descriptors.push(done.upvalues[i].1);
            i = i + 1;
        }
        assert(descriptors@ =~= done@.upvalues.map_values(|u: (Seq<char>, UpvalueDescriptor)| u.1));
        Function {
            arity,
            opcodes: done.opcodes,
            constants: done.constants,
            name: name.clone(),
            upvalue_count: done.upvalues.len(),
            upvalue_descriptors: descriptors,
        }
    }

    /// Compiles a function and pushes a closure of it.
    fn emit_closure(&mut self, name: &String, params: &Vec<Parameter>, body: &Vec<Statement>) -> (r: Result<
        (),
        CompileError,
    >)
        requires
            old(self).scopes.len() > 0,
        ensures
            codegen::emit_closure(old(self)@, name@, *params, *body) == match r {
                Ok(_) => Ok::<GenView, CompileError>(final(self)@),
                Err(e) => Err(e),
            },
            r is Ok ==> grown(old(self)@, final(self)@),
        decreases body, 1nat, 1nat,
    {
        match self.compile_function(name, params, body, false) {
            Err(e) => Err(e),
            Ok(f) => {
                let count: usize = self.functions[f].upvalue_count;
                let k: usize = self.add_constant(Value::Function(f));
                self.emit(OpCode::Closure(k, count));
                Ok(())
            },
        }
    }

    /// Compiles a method and files it in the class on top of the stack.
    fn emit_method(&mut self, name: &String, params: &Vec<Parameter>, body: &Vec<Statement>) -> (r: Result<
        (),
        CompileError,
    >)
        requires
            old(self).scopes.len() > 0,
        ensures
            codegen::emit_method(old(self)@, name@, *params, *body) == match r {
                Ok(_) => Ok::<GenView, CompileError>(final(self)@),
                Err(e) => Err(e),
            },
            r is Ok ==> grown(old(self)@, final(self)@),
        decreases body, 1nat, 1nat,
    {
        match self.compile_function(name, params, body, true) {
            Err(e) => Err(e),
            Ok(f) => {
                let function: usize = self.add_constant(Value::Function(f));
                let k: usize = self.intern_string(name.clone());
                self.emit(OpCode::Constant(function));
                self.emit(OpCode::DefineMethod(k));
                Ok(())
            },
        }
    }

    fn emit_expressions(&mut self, items: &Vec<Expression>) -> (r: Result<(), CompileError>)
        requires
            old(self).scopes.len() > 0,
        ensures
            codegen::emit_expressions(old(self)@, *items, items.len() as nat) == match r {
                Ok(_) => Ok::<GenView, CompileError>(final(self)@),
                Err(e) => Err(e),
            },
            r is Ok ==> grown(old(self)@, final(self)@),
        decreases items, 0nat, items.len(),
    {
        let mut i: usize = 0;
        while i < items.len()
            invariant
                i <= items.len(),
                self.scopes.len() > 0,
                codegen::emit_expressions(old(self)@, *items, i as nat) == Ok::<GenView, CompileError>(self@),
                grown(old(self)@, self@),
            decreases items.len() - i,
        {
            match self.emit_expression(&items[i]) {
                Err(e) => {
                    proof {
                        lemma_expressions_fail(old(self)@, *items, (i + 1) as nat, items.len() as nat, e);
                    }
                    return Err(e);
                },
                Ok(()) => {},
            }
            i = i + 1;
        }
        Ok(())
    }

    fn emit_pairs(&mut self, pairs: &Vec<(Expression, Expression)>) -> (r: Result<(), CompileError>)
        requires
            old(self).scopes.len() > 0,
        ensures
            codegen::emit_pairs(old(self)@, *pairs, pairs.len() as nat) == match r {
                Ok(_) => Ok::<GenView, CompileError>(final(self)@),
                Err(e) => Err(e),
            },
            r is Ok ==> grown(old(self)@, final(self)@),
        decreases pairs, 0nat, pairs.len(),
    {
        let mut i: usize = 0;
        while i < pairs.len()
            invariant
                i <= pairs.len(),
                self.scopes.len() > 0,
                codegen::emit_pairs(old(self)@, *pairs, i as nat) == Ok::<GenView, CompileError>(self@),
                grown(old(self)@, self@),
            decreases pairs.len() - i,
        {
            match self.emit_expression(&pairs[i].0) {
                Err(e) => {
                    proof {
                        lemma_pairs_fail(old(self)@, *pairs, (i + 1) as nat, pairs.len() as nat, e);
                    }
                    return Err(e);
                },
                Ok(()) => {},
            }
            match self.emit_expression(&pairs[i].1) {
                Err(e) => {
                    proof {
                        lemma_pairs_fail(old(self)@, *pairs, (i + 1) as nat, pairs.len() as nat, e);
                    }
                    return Err(e);
                },
                Ok(()) => {},
            }
            i = i + 1;
        }
        Ok(())
    }

    fn emit_binary(&mut self, binary: &BinaryExpr) -> (r: Result<(), CompileError>)
        requires
            old(self).scopes.len() > 0,
        ensures
            codegen::emit_binary(old(self)@, *binary) == match r {
                Ok(_) => Ok::<GenView, CompileError>(final(self)@),
                Err(e) => Err(e),
            },
            r is Ok ==> grown(old(self)@, final(self)@),
        decreases binary, 0nat, 0nat,
    {
        match self.emit_expression(&binary.left) {
            Err(e) => {
                return Err(e);
            },
            Ok(()) => {},
        }
        let short: Option<bool> = match binary.operator {
            BinaryOperator::And => Some(true),
            BinaryOperator::Or => Some(false),
            _ => None,
        };
        match short {
            Some(is_and) => {
                self.emit(OpCode::Dup);
                let at: usize = self.here();
                self.emit(
                    if is_and {
                        OpCode::JumpIfFalse(0)
                    } else {
                        OpCode::JumpIfTrue(0)
                    },
                );
                self.emit(OpCode::Pop);
                match self.emit_expression(&binary.right) {
                    Err(e) => {
                        return Err(e);
                    },
                    Ok(()) => {},
                }
                let end: usize = self.here();
                self.patch(
                    at,
                    if is_and {
                        OpCode::JumpIfFalse(end)
                    } else {
                        OpCode::JumpIfTrue(end)
                    },
                );
                Ok(())
            },
            None => {
                match self.emit_expression(&binary.right) {
                    Err(e) => {
                        return Err(e);
                    },
                    Ok(()) => {},
                }
                self.emit_operator(binary.operator);
                Ok(())
            },
        }
    }

    fn emit_call(&mut self, call: &CallExpr) -> (r: Result<(), CompileError>)
        requires
            old(self).scopes.len() > 0,
        ensures
            codegen::emit_call(old(self)@, *call) == match r {
                Ok(_) => Ok::<GenView, CompileError>(final(self)@),
                Err(e) => Err(e),
            },
            r is Ok ==> grown(old(self)@, final(self)@),
        decreases call, 0nat, 0nat,
    {
        match self.emit_expression(&call.callee) {
            Err(e) => {
                return Err(e);
            },
            Ok(()) => {},
        }
        match self.emit_expressions(&call.arguments) {
            Err(e) => {
                return Err(e);
            },
            Ok(()) => {},
        }
        self.emit(OpCode::Call(call.arguments.len()));
        Ok(())
    }

    fn emit_field_access(&mut self, access: &FieldAccessExpr) -> (r: Result<(), CompileError>)
        requires
            old(self).scopes.len() > 0,
        ensures
            codegen::emit_field_access(old(self)@, *access) == match r {
                Ok(_) => Ok::<GenView, CompileError>(final(self)@),
                Err(e) => Err(e),
            },
            r is Ok ==> grown(old(self)@, final(self)@),
        decreases access, 0nat, 0nat,
    {
        if is_super(&access.object) {
            self.emit_named(OpCode::GetSuper, &access.field);
            Ok(())
        } else {
            match self.emit_expression(&access.object) {
                Err(e) => {
                    return Err(e);
                },
                Ok(()) => {},
            }
            self.emit_named(OpCode::GetProperty, &access.field);
            Ok(())
        }
    }

    fn emit_index(&mut self, index: &IndexExpr) -> (r: Result<(), CompileError>)
        requires
            old(self).scopes.len() > 0,
        ensures
            codegen::emit_index(old(self)@, *index) == match r {
                Ok(_) => Ok::<GenView, CompileError>(final(self)@),
                Err(e) => Err(e),
            },
            r is Ok ==> grown(old(self)@, final(self)@),
        decreases index, 0nat, 0nat,
    {
        match self.emit_expression(&index.object) {
            Err(e) => {
                return Err(e);
            },
            Ok(()) => {},
        }
        match self.emit_expression(&index.index) {
            Err(e) => {
                return Err(e);
            },
            Ok(()) => {},
        }
        self.emit(OpCode::GetIndex);
        Ok(())
    }

    fn emit_range(&mut self, range: &RangeExpr) -> (r: Result<(), CompileError>)
        requires
            old(self).scopes.len() > 0,
        ensures
            codegen::emit_range(old(self)@, *range) == match r {
                Ok(_) => Ok::<GenView, CompileError>(final(self)@),
                Err(e) => Err(e),
            },
            r is Ok ==> grown(old(self)@, final(self)@),
    {
        match (range_end(&range.start), range_end(&range.end)) {
            (Ok(start), Ok(end)) => {
                let k: usize = self.add_constant(Value::Range(start, end));
                self.emit(OpCode::Constant(k));
                Ok(())
            },
            _ => Err(CompileError::RangeNotConstant),
        }
    }

    /// An expression: the instructions that leave its value on the stack.
    fn emit_expression(&mut self, e: &Expression) -> (r: Result<(), CompileError>)
        requires
            old(self).scopes.len() > 0,
        ensures
            codegen::emit_expression(old(self)@, *e) == match r {
                Ok(_) => Ok::<GenView, CompileError>(final(self)@),
                Err(e) => Err(e),
            },
            r is Ok ==> grown(old(self)@, final(self)@),
        decreases e, 0nat, 0nat,
    {
        match e {
            Expression::Number(n, _) => {
                self.emit_constant(Value::Number(*n));
                Ok(())
            },
            Expression::String(s, _) => {
                self.emit_constant(Value::String(s.clone()));
                Ok(())
            },
            Expression::Boolean(b, _) => {
                self.emit_constant(Value::Boolean(*b));
                Ok(())
            },
            Expression::Identifier(name, _) => {
                self.emit_variable(name, false);
                Ok(())
            },
            Expression::Binary(binary) => self.emit_binary(binary),
            Expression::Unary(unary) => {
                match self.emit_expression(&unary.operand) {
                    Err(e) => {
                        return Err(e);
                    },
                    Ok(()) => {},
                }
                self.emit(
                    match unary.operator {
                        UnaryOperator::Negate => OpCode::Negate,
                        UnaryOperator::Not => OpCode::Not,
                    },
                );
                Ok(())
            },
            Expression::Call(call) => self.emit_call(call),
            Expression::FieldAccess(access) => self.emit_field_access(access),
            Expression::ModuleAccess(access) => {
                let mangled = access.namespace.clone().concat(codegen::SEPARATOR).concat(access.symbol.as_str());
                let k: usize = self.intern_string(mangled);
                self.emit(OpCode::GetGlobal(k));
                Ok(())
            },
            Expression::Lambda(lambda) => {
                let name = codegen::LAMBDA_NAME.to_string();
                self.emit_closure(&name, &lambda.params, &lambda.body)
            },
            Expression::Index(index) => self.emit_index(index),
            Expression::Range(range) => self.emit_range(range),
            Expression::ArrayLiteral(array) => {
                match self.emit_expressions(&array.elements) {
                    Err(e) => {
                        return Err(e);
                    },
                    Ok(()) => {},
                }
                self.emit(OpCode::Array(array.elements.len()));
                Ok(())
            },
            Expression::DictLiteral(dict) => {
                match self.emit_pairs(&dict.pairs) {
                    Err(e) => {
                        return Err(e);
                    },
                    Ok(()) => {},
                }
                self.emit(OpCode::Dict(dict.pairs.len()));
                Ok(())
            },
            Expression::This(_) => {
                if self.scopes[self.scopes.len() - 1].in_function {
                    self.emit(OpCode::GetLocal(0));
                    Ok(())
                } else {
                    Err(CompileError::ThisOutsideMethod)
                }
            },
            Expression::Super(name, _) => {
                self.emit_named(OpCode::GetSuper, name);
                Ok(())
            },
        }
    }

    fn emit_block(&mut self, statements: &Vec<Statement>) -> (r: Result<(), CompileError>)
        requires
            old(self).scopes.len() > 0,
        ensures
            codegen::emit_block(old(self)@, *statements, statements.len() as nat) == match r {
                Ok(_) => Ok::<GenView, CompileError>(final(self)@),
                Err(e) => Err(e),
            },
            r is Ok ==> grown(old(self)@, final(self)@),
        decreases statements, 0nat, statements.len(),
    {
        let mut i: usize = 0;
        while i < statements.len()
            invariant
                i <= statements.len(),
                self.scopes.len() > 0,
                codegen::emit_block(old(self)@, *statements, i as nat) == Ok::<GenView, CompileError>(self@),
                grown(old(self)@, self@),
            decreases statements.len() - i,
        {
            match self.emit_statement(&statements[i]) {
                Err(e) => {
                    proof {
                        lemma_block_fails(old(self)@, *statements, (i + 1) as nat, statements.len() as nat, e);
                    }
                    return Err(e);
                },
                Ok(()) => {},
            }
            i = i + 1;
        }
        Ok(())
    }

    fn emit_members(&mut self, members: &Vec<ClassMember>) -> (r: Result<(), CompileError>)
        requires
            old(self).scopes.len() > 0,
        ensures
            codegen::emit_members(old(self)@, *members, members.len() as nat) == match r {
                Ok(_) => Ok::<GenView, CompileError>(final(self)@),
                Err(e) => Err(e),
            },
            r is Ok ==> grown(old(self)@, final(self)@),
        decreases members, 2nat, members.len(),
    {
        let mut i: usize = 0;
        while i < members.len()
            invariant
                i <= members.len(),
                self.scopes.len() > 0,
                codegen::emit_members(old(self)@, *members, i as nat) == Ok::<GenView, CompileError>(self@),
                grown(old(self)@, self@),
            decreases members.len() - i,
        {
            let done: Result<(), CompileError> = match &members[i] {
                ClassMember::Method(method) => self.emit_method(&method.name, &method.params, &method.body),
                ClassMember::Constructor(constructor) => {
                    let name = CONSTRUCTOR.to_string();
                    self.emit_method(&name, &constructor.params, &constructor.body)
                },
                ClassMember::Field { .. } => Ok(()),
            };
            match done {
                Err(e) => {
                    proof {
                        lemma_members_fail(old(self)@, *members, (i + 1) as nat, members.len() as nat, e);
                    }
                    return Err(e);
                },
                Ok(()) => {},
            }
            i = i + 1;
        }
        Ok(())
    }

    fn emit_optional(&mut self, e: &Option<Expression>) -> (r: Result<(), CompileError>)
        requires
            old(self).scopes.len() > 0,
        ensures
            codegen::emit_optional(old(self)@, *e) == match r {
                Ok(_) => Ok::<GenView, CompileError>(final(self)@),
                Err(e) => Err(e),
            },
            r is Ok ==> grown(old(self)@, final(self)@),
        decreases e, 1nat, 0nat,
    {
        match e {
            Some(value) => self.emit_expression(value),
            None => {
                self.emit_constant(Value::Nil);
                Ok(())
            },
        }
    }

    fn emit_var_decl(&mut self, decl: &VarDecl) -> (r: Result<(), CompileError>)
        requires
            old(self).scopes.len() > 0,
        ensures
            codegen::emit_var_decl(old(self)@, *decl) == match r {
                Ok(_) => Ok::<GenView, CompileError>(final(self)@),
                Err(e) => Err(e),
            },
            r is Ok ==> grown(old(self)@, final(self)@),
        decreases decl, 2nat, 0nat,
    {
        let in_function: bool = self.scopes[self.scopes.len() - 1].in_function;
        if in_function && decl.is_exported {
            return Err(CompileError::ExportInFunction);
        }
        match self.emit_optional(&decl.initializer) {
            Err(e) => {
                return Err(e);
            },
            Ok(()) => {},
        }
        if in_function {
            match self.declare_local(&decl.name) {
                Some(slot) => {
                    self.emit(OpCode::DefineLocal(slot));
                    Ok(())
                },
                None => Err(CompileError::TooManyLocals),
            }
        } else {
            self.emit_global(GlobalOp::Define, &decl.name);
            Ok(())
        }
    }

    fn emit_target(&mut self, target: &AssignmentTarget) -> (r: Result<(), CompileError>)
        requires
            old(self).scopes.len() > 0,
        ensures
            codegen::emit_target(old(self)@, *target) == match r {
                Ok(_) => Ok::<GenView, CompileError>(final(self)@),
                Err(e) => Err(e),
            },
            r is Ok ==> grown(old(self)@, final(self)@),
        decreases target, 0nat, 0nat,
    {
        match target {
            AssignmentTarget::Index(object, index) => {
                match self.emit_expression(object) {
                    Err(e) => {
                        return Err(e);
                    },
                    Ok(()) => {},
                }
                self.emit_expression(index)
            },
            _ => Ok(()),
        }
    }

    fn emit_store(&mut self, target: &AssignmentTarget) -> (r: Result<(), CompileError>)
        requires
            old(self).scopes.len() > 0,
        ensures
            codegen::emit_store(old(self)@, *target) == match r {
                Ok(_) => Ok::<GenView, CompileError>(final(self)@),
                Err(e) => Err(e),
            },
            r is Ok ==> grown(old(self)@, final(self)@),
        decreases target, 0nat, 0nat,
    {
        match target {
            AssignmentTarget::Index(_, _) => {
                self.emit(OpCode::SetIndex);
                Ok(())
            },
            AssignmentTarget::Identifier(name) => {
                self.emit_variable(name, true);
                Ok(())
            },
            AssignmentTarget::FieldAccess(object, field) => {
                match self.emit_expression(object) {
                    Err(e) => {
                        return Err(e);
                    },
                    Ok(()) => {},
                }
                self.emit_named(OpCode::SetProperty, field);
                Ok(())
            },
        }
    }

    fn emit_assignment(&mut self, assignment: &AssignmentStatement) -> (r: Result<(), CompileError>)
        requires
            old(self).scopes.len() > 0,
        ensures
            codegen::emit_assignment(old(self)@, *assignment) == match r {
                Ok(_) => Ok::<GenView, CompileError>(final(self)@),
                Err(e) => Err(e),
            },
            r is Ok ==> grown(old(self)@, final(self)@),
        decreases assignment, 0nat, 0nat,
    {
        match self.emit_target(&assignment.target) {
            Err(e) => {
                return Err(e);
            },
            Ok(()) => {},
        }
        match self.emit_expression(&assignment.value) {
            Err(e) => {
                return Err(e);
            },
            Ok(()) => {},
        }
        self.emit_store(&assignment.target)
    }

    /// Makes `namespace` the current one and gives back the one that was.
    fn enter_namespace(&mut self, namespace: Option<String>) -> (previous: Option<String>)
        requires
            old(self).scopes.len() > 0,
        ensures
            final(self)@ == codegen::with_cur(
                old(self)@,
                ContextView {
                    namespace: match namespace {
                        Some(n) => Some(n@),
                        None => None,
                    },
                    ..codegen::cur(old(self)@)
                },
            ),
            match previous {
                Some(n) => codegen::cur(old(self)@).namespace == Some(n@),
                None => codegen::cur(old(self)@).namespace is None,
            },
            grown(old(self)@, final(self)@),
            final(self).scopes.len() == old(self).scopes.len(),
    {
        let top: usize = self.scopes.len() - 1;
        let mut previous: Option<String> = namespace;
        std::mem::swap(&mut self.scopes[top].current_namespace, &mut previous);
        assert(context_views(self.scopes@) =~= old(self)@.scopes.update(
            top as int,
            ContextView {
                namespace: match namespace {
                    Some(n) => Some(n@),
                    None => None,
                },
                ..old(self)@.scopes[top as int]
            },
        ));
        previous
    }

    fn emit_module_block(&mut self, block: &ModuleBlock) -> (r: Result<(), CompileError>)
        requires
            old(self).scopes.len() > 0,
        ensures
            codegen::emit_module_block(old(self)@, *block) == match r {
                Ok(_) => Ok::<GenView, CompileError>(final(self)@),
                Err(e) => Err(e),
            },
            r is Ok ==> grown(old(self)@, final(self)@),
        decreases block, 0nat, 0nat,
    {
        let previous = self.enter_namespace(Some(block.namespace.clone()));
        match self.emit_block(&block.statements) {
            Err(e) => {
                return Err(e);
            },
            Ok(()) => {},
        }
        self.enter_namespace(previous);
        Ok(())
    }

    fn emit_if(&mut self, branch: &IfStatement) -> (r: Result<(), CompileError>)
        requires
            old(self).scopes.len() > 0,
        ensures
            codegen::emit_if(old(self)@, *branch) == match r {
                Ok(_) => Ok::<GenView, CompileError>(final(self)@),
                Err(e) => Err(e),
            },
            r is Ok ==> grown(old(self)@, final(self)@),
        decreases branch, 0nat, 0nat,
    {
        match self.emit_expression(&branch.condition) {
            Err(e) => {
                return Err(e);
            },
            Ok(()) => {},
        }
        let skip_then: usize = self.here();
        self.emit(OpCode::JumpIfFalse(0));
        match self.emit_block(&branch.then_branch) {
            Err(e) => {
                return Err(e);
            },
            Ok(()) => {},
        }
        let skip_else: usize = self.here();
        self.emit(OpCode::Jump(0));
        let target: usize = self.here();
        self.patch(skip_then, OpCode::JumpIfFalse(target));
        match &branch.else_branch {
            Some(block) => {
                match self.emit_block(block) {
                    Err(e) => {
                        return Err(e);
                    },
                    Ok(()) => {},
                }
            },
            None => {},
        }
        let end: usize = self.here();
        self.patch(skip_else, OpCode::Jump(end));
        Ok(())
    }

    fn emit_while(&mut self, repeat: &WhileStatement) -> (r: Result<(), CompileError>)
        requires
            old(self).scopes.len() > 0,
        ensures
            codegen::emit_while(old(self)@, *repeat) == match r {
                Ok(_) => Ok::<GenView, CompileError>(final(self)@),
                Err(e) => Err(e),
            },
            r is Ok ==> grown(old(self)@, final(self)@),
        decreases repeat, 0nat, 0nat,
    {
        let start: usize = self.here();
        match self.emit_expression(&repeat.condition) {
            Err(e) => {
                return Err(e);
            },
            Ok(()) => {},
        }
        let exit: usize = self.here();
        self.emit(OpCode::JumpIfFalse(0));
        match self.emit_block(&repeat.body) {
            Err(e) => {
                return Err(e);
            },
            Ok(()) => {},
        }
        self.emit(OpCode::Jump(start));
        let end: usize = self.here();
        self.patch(exit, OpCode::JumpIfFalse(end));
        Ok(())
    }

    fn emit_func_decl(&mut self, decl: &FuncDecl) -> (r: Result<(), CompileError>)
        requires
            old(self).scopes.len() > 0,
        ensures
            codegen::emit_func_decl(old(self)@, *decl) == match r {
                Ok(_) => Ok::<GenView, CompileError>(final(self)@),
                Err(e) => Err(e),
            },
            r is Ok ==> grown(old(self)@, final(self)@),
        decreases decl, 2nat, 0nat,
    {
        let top: usize = self.scopes.len() - 1;
        if decl.is_exported && self.scopes[top].in_function {
            return Err(CompileError::ExportInFunction);
        }
        match self.emit_closure(&decl.name, &decl.params, &decl.body) {
            Err(e) => {
                return Err(e);
            },
            Ok(()) => {},
        }
        if self.scopes[top].in_function {
            match self.fresh_local(&decl.name) {
                Some(slot) => {
                    self.emit(OpCode::DefineLocal(slot));
                    Ok(())
                },
                None => Err(CompileError::TooManyLocals),
            }
        } else {
            self.emit_global(GlobalOp::Define, &decl.name);
            Ok(())
        }
    }

    fn emit_class(&mut self, decl: &ClassDecl) -> (r: Result<(), CompileError>)
        requires
            old(self).scopes.len() > 0,
        ensures
            codegen::emit_class(old(self)@, *decl) == match r {
                Ok(_) => Ok::<GenView, CompileError>(final(self)@),
                Err(e) => Err(e),
            },
            r is Ok ==> grown(old(self)@, final(self)@),
        decreases decl, 3nat, 0nat,
    {
        self.emit_named(OpCode::Class, &decl.name);
        match &decl.extends {
            Some(parent) => {
                self.emit_global(GlobalOp::Read, parent);
                self.emit(OpCode::Inherit);
            },
            None => {},
        }
        match self.emit_members(&decl.members) {
            Err(e) => {
                return Err(e);
            },
            Ok(()) => {},
        }
        self.emit_global(GlobalOp::Define, &decl.name);
        Ok(())
    }

    fn emit_catch_binding(&mut self, catch_var: &Option<String>) -> (r: Result<(), CompileError>)
        requires
            old(self).scopes.len() > 0,
        ensures
            codegen::emit_catch_binding(old(self)@, *catch_var) == match r {
                Ok(_) => Ok::<GenView, CompileError>(final(self)@),
                Err(e) => Err(e),
            },
            r is Ok ==> grown(old(self)@, final(self)@),
    {
        match catch_var {
            Some(name) => match self.declare_local(name) {
                Some(slot) => {
                    self.emit(OpCode::DefineLocal(slot));
                    Ok(())
                },
                None => Err(CompileError::TooManyLocals),
            },
            None => {
                self.emit(OpCode::Pop);
                Ok(())
            },
        }
    }

    fn emit_try(&mut self, attempt: &TryStatement) -> (r: Result<(), CompileError>)
        requires
            old(self).scopes.len() > 0,
        ensures
            codegen::emit_try(old(self)@, *attempt) == match r {
                Ok(_) => Ok::<GenView, CompileError>(final(self)@),
                Err(e) => Err(e),
            },
            r is Ok ==> grown(old(self)@, final(self)@),
        decreases attempt, 0nat, 0nat,
    {
        let handler: usize = self.here();
        self.emit(OpCode::PushExceptionHandler(0));
        match self.emit_block(&attempt.try_body) {
            Err(e) => {
                return Err(e);
            },
            Ok(()) => {},
        }
        self.emit(OpCode::PopExceptionHandler);
        let over: usize = self.here();
        self.emit(OpCode::Jump(0));
        let landing: usize = self.here();
        self.patch(handler, OpCode::PushExceptionHandler(landing));
        match self.emit_catch_binding(&attempt.catch_var) {
            Err(e) => {
                return Err(e);
            },
            Ok(()) => {},
        }
        match self.emit_block(&attempt.catch_body) {
            Err(e) => {
                return Err(e);
            },
            Ok(()) => {},
        }
        let end: usize = self.here();
        self.patch(over, OpCode::Jump(end));
        Ok(())
    }

    /// A statement.
    fn emit_statement(&mut self, statement: &Statement) -> (r: Result<(), CompileError>)
        requires
            old(self).scopes.len() > 0,
        ensures
            codegen::emit_statement(old(self)@, *statement) == match r {
                Ok(_) => Ok::<GenView, CompileError>(final(self)@),
                Err(e) => Err(e),
            },
            r is Ok ==> grown(old(self)@, final(self)@),
        decreases statement, 0nat, 0nat,
    {
        match statement {
            Statement::VarDecl(decl) => self.emit_var_decl(decl),
            Statement::Assignment(assignment) => self.emit_assignment(assignment),
            Statement::Expression(e) => self.emit_expression(e),
            Statement::ModuleBlock(block) => self.emit_module_block(block),
            Statement::If(branch) => self.emit_if(branch),
            Statement::While(repeat) => self.emit_while(repeat),
            Statement::FuncDecl(decl) => self.emit_func_decl(decl),
            Statement::Return(ret) => {
                if !self.scopes[self.scopes.len() - 1].in_function {
                    return Err(CompileError::ReturnOutsideFunction);
                }
                match self.emit_optional(&ret.value) {
                    Err(e) => {
                        return Err(e);
                    },
                    Ok(()) => {},
                }
                self.emit(OpCode::Return_);
                Ok(())
            },
            Statement::Import(_) => Ok(()),
            Statement::ClassDecl(decl) => self.emit_class(decl),
            Statement::InterfaceDecl(_) => Ok(()),
            Statement::AnnotationDecl(_) => Ok(()),
            Statement::Try(attempt) => self.emit_try(attempt),
            Statement::Throw(throw) => {
                match self.emit_expression(&throw.expression) {
                    Err(e) => {
                        return Err(e);
                    },
                    Ok(()) => {},
                }
                self.emit(OpCode::Throw);
                Ok(())
            },
        }
    }

    /// Compiles statements from scratch and hands out the unit with the
    /// functions it refers to.
    fn compile(&mut self, statements: &Vec<Statement>, in_function: bool, halt: bool) -> (r: Result<
        GenContext,
        CompileError,
    >)
        ensures
            codegen::compiled(*statements, in_function, halt) == match r {
                Ok(context) => Ok::<ContextView, CompileError>(context@),
                Err(e) => Err(e),
            },
            final(self).scopes@.len() == 0,
            final(self).functions@.len() == 0,
    {
        self.scopes = Vec::new();
        self.functions = Vec::new();
        self.scopes.push(Generator::make_context(in_function));
        assert(self@.scopes =~= codegen::fresh_state(in_function).scopes);
        assert(self@.functions =~= codegen::fresh_state(in_function).functions);
        let done: Result<(), CompileError> = self.emit_block(statements);
        let r = match done {
            Err(e) => Err(e),
            Ok(()) => {
                if halt {
                    self.emit(OpCode::Halt);
                }
                let mut context = self.scopes.pop().unwrap();
                let mut functions: Vec<Function> = Vec::new();
                std::mem::swap(&mut self.functions, &mut functions);
                context.functions = functions;
                Ok(context)
            },
        };
        self.scopes = Vec::new();
        self.functions = Vec::new();
        r
    }

    /// Compiles a program: its statements, then `Halt` as a landing pad.
    pub fn generate(&mut self, node: AstNode) -> (r: Result<GenContext, CompileError>)
        ensures
            match node {
                AstNode::Program(program) => codegen::compiled(program.statements, false, true) == match r {
                    Ok(context) => Ok::<ContextView, CompileError>(context@),
                    Err(e) => Err(e),
                },
                _ => r == Err::<GenContext, CompileError>(CompileError::NotAProgram),
            },
    {
        match node {
            AstNode::Program(program) => self.compile(&program.statements, false, true),
            _ => Err(CompileError::NotAProgram),
        }
    }

    /// Compiles statements as the body of a function that stands alone.
    pub fn generate_function_body(&mut self, statements: Vec<Statement>) -> (r: Result<GenContext, CompileError>)
        ensures
            codegen::compiled(statements, true, false) == match r {
                Ok(context) => Ok::<ContextView, CompileError>(context@),
                Err(e) => Err(e),
            },
    {
        self.compile(&statements, true, false)
    }
}

} // verus!
