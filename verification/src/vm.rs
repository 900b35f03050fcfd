//! The stack machine: call frames, operand stack, globals, heap, upvalue
//! cells and exception handlers, driven one instruction at a time.

use vstd::prelude::*;
use crate::heap::{field_views, object_views, upvalue_views, Object, Upvalue};
use crate::model;
use crate::model::{
    ActionView, ArithOp, FrameView, Handler, NativeKind, PendingView, ReplyView, VmView,
};
use crate::number::Number;
use crate::opcode::OpCode;
use crate::value::{views, Function, NativeFnId, Value, ValueView};

verus! {

/// One activation: the function that runs, where it stands, where its slot 0
/// lies on the operand stack, and the cells it captured.
#[derive(Clone, Debug, PartialEq)]
pub struct CallFrame {
    pub function: usize,
    pub ip: usize,
    pub base: usize,
    pub upvalues: Vec<usize>,
}

impl View for CallFrame {
    type V = FrameView;

    open spec fn view(&self) -> FrameView {
        FrameView {
            function: self.function,
            ip: self.ip,
            base: self.base,
            upvalues: self.upvalues@,
        }
    }
}

/// What the machine waits for from its host.
#[derive(Clone, Debug, PartialEq)]
pub enum Pending {
    Idle,
    Arithmetic,
    TextAfter(String),
    TextBefore(String),
    Native,
}

impl View for Pending {
    type V = PendingView;

    open spec fn view(&self) -> PendingView {
        match *self {
            Pending::Idle => PendingView::Idle,
            Pending::Arithmetic => PendingView::Arithmetic,
            Pending::TextAfter(t) => PendingView::TextAfter(t@),
            Pending::TextBefore(t) => PendingView::TextBefore(t@),
            Pending::Native => PendingView::Native,
        }
    }
}

/// What a step asks of whoever drives the machine.
#[derive(Clone, Debug, PartialEq)]
pub enum Action {
    /// Nothing: take the next step.
    Continue,
    /// Compute `left op right` and hand the number back.
    Arithmetic { op: ArithOp, left: Number, right: Number },
    /// Write the number out as text and hand the text back.
    Format { number: Number },
    /// Run the host function and hand its result back.
    CallNative { id: NativeFnId, kind: NativeKind, args: Vec<Value> },
    /// An earlier request is still unanswered.
    Waiting,
    /// The root frame has ended.
    Finished,
    /// A value was thrown and no handler was registered.
    Uncaught(Value),
}

impl View for Action {
    type V = ActionView;

    open spec fn view(&self) -> ActionView {
        match *self {
            Action::Continue => ActionView::Continue,
            Action::Arithmetic { op, left, right } => ActionView::Arithmetic { op, left, right },
            Action::Format { number } => ActionView::Format { number },
            Action::CallNative { id, kind, args } => ActionView::CallNative {
                id: id.0,
                kind,
                args: views(args@),
            },
            Action::Waiting => ActionView::Waiting,
            Action::Finished => ActionView::Finished,
            Action::Uncaught(v) => ActionView::Uncaught(v@),
        }
    }
}

/// What the host hands back.
#[derive(Debug, PartialEq)]
pub enum Reply {
    Number(Number),
    Text(String),
    Native(Result<Value, String>),
}

impl View for Reply {
    type V = ReplyView;

    open spec fn view(&self) -> ReplyView {
        match *self {
            Reply::Number(n) => ReplyView::Number(n),
            Reply::Text(t) => ReplyView::Text(t@),
            Reply::Native(Ok(v)) => ReplyView::Native(Ok(v@)),
            Reply::Native(Err(m)) => ReplyView::Native(Err(m@)),
        }
    }
}

pub open spec fn frame_views(s: Seq<CallFrame>) -> Seq<FrameView> {
    s.map_values(|f: CallFrame| f@)
}

pub open spec fn function_views(s: Seq<Function>) -> Seq<crate::value::FunctionView> {
    s.map_values(|f: Function| f@)
}

/// The machine. Every field is plain data and every state is a state the
/// machine can run from: what a well-formed program never does, it answers
/// with a thrown error.
pub struct VM {
    pub stack: Vec<Value>,
    pub globals: Vec<(String, Value)>,
    pub frames: Vec<CallFrame>,
    pub handlers: Vec<Handler>,
    pub functions: Vec<Function>,
    pub heap: Vec<Object>,
    pub cells: Vec<Upvalue>,
    pub open_upvalues: Vec<usize>,
    pub natives: Vec<NativeKind>,
    pub pending: Pending,
}

impl View for VM {
    type V = VmView;

    open spec fn view(&self) -> VmView {
        VmView {
            stack: views(self.stack@),
            globals: field_views(self.globals@),
            frames: frame_views(self.frames@),
            handlers: self.handlers@,
            functions: function_views(self.functions@),
            heap: object_views(self.heap@),
            cells: upvalue_views(self.cells@),
            open_upvalues: self.open_upvalues@,
            natives: self.natives@,
            pending: self.pending@,
        }
    }
}

impl VM {
    /// A machine with nothing defined and nothing running.
    pub fn new() -> (vm: Self)
        ensures
            vm@.stack.len() == 0,
            vm@.globals.len() == 0,
            vm@.frames.len() == 0,
            vm@.handlers.len() == 0,
            vm@.functions.len() == 0,
            vm@.heap.len() == 0,
            vm@.cells.len() == 0,
            vm@.open_upvalues.len() == 0,
            vm@.natives.len() == 0,
            vm@.pending is Idle,
    {
        VM {
            stack: Vec::new(),
            globals: Vec::new(),
            frames: Vec::new(),
            handlers: Vec::new(),
            functions: Vec::new(),
            heap: Vec::new(),
            cells: Vec::new(),
            open_upvalues: Vec::new(),
            natives: Vec::new(),
            pending: Pending::Idle,
        }
    }

    pub(crate) fn push(&mut self, v: Value)
        ensures
            final(self)@ == model::pushed(old(self)@, v@),
            final(self).frames == old(self).frames,
            final(self).heap == old(self).heap,
            final(self).stack@ == old(self).stack@.push(v),
    {
        self.stack.push(v);
        assert(views(self.stack@) =~= views(old(self).stack@).push(v@));
    }

    /// Takes `n` values off the stack.
    pub(crate) fn discard(&mut self, n: usize)
        requires
            n <= old(self).stack.len(),
        ensures
            final(self)@ == model::popped(old(self)@, n as int),
            final(self).frames == old(self).frames,
            final(self).heap == old(self).heap,
            final(self).stack@ == old(self).stack@.take(old(self).stack.len() - n),
    {
        let keep: usize = self.stack.len() - n;
        self.stack.truncate(keep);
        assert(views(self.stack@) =~= views(old(self).stack@).take(keep as int));
    }

    /// A copy of the value `depth` places below the top.
    pub(crate) fn peek(&self, depth: usize) -> (v: Value)
        requires
            depth < self.stack.len(),
        ensures
            v@ == model::peek(self@, depth as int),
    {
        let at: usize = self.stack.len() - 1 - depth;
        self.stack[at].duplicate()
    }

    pub(crate) fn set_ip(&mut self, ip: usize)
        requires
            old(self).frames.len() > 0,
        ensures
            final(self)@ == model::with_ip(old(self)@, ip),
            final(self).frames.len() == old(self).frames.len(),
            final(self).stack == old(self).stack,
            final(self).heap == old(self).heap,
            final(self).functions == old(self).functions,
    {
        let top: usize = self.frames.len() - 1;
        self.frames[top].ip = ip;
        assert(frame_views(self.frames@) =~= frame_views(old(self).frames@).update(
            top as int,
            FrameView { ip, ..old(self).frames@[top as int]@ },
        ));
    }

    pub(crate) fn close_from(&mut self, threshold: usize)
        ensures
            final(self)@ == model::close_from(old(self)@, threshold as int),
    {
        let mut i: usize = 0;
        let n: usize = self.open_upvalues.len();
        assert(old(self).open_upvalues@.take(0) =~= Seq::empty());
        while i < n
            invariant
                i <= n,
                n == self.open_upvalues.len(),
                self@ == (VmView {
                    cells: model::closed_cells(
                        old(self)@.cells,
                        old(self)@.open_upvalues.take(i as int),
                        old(self)@.stack,
                        threshold as int,
                    ),
                    ..old(self)@
                }),
            decreases n - i,
        {
            let ghost before = self@;
            let c: usize = self.open_upvalues[i];
            assert(old(self)@.open_upvalues.take(i + 1).drop_last() =~= old(self)@.open_upvalues.take(
                i as int,
            ));
            if c < self.cells.len() {
                let slot: Option<usize> = match &self.cells[c] {
                    Upvalue::Open(slot) => Some(*slot),
                    Upvalue::Closed(_) => None,
                };
                match slot {
                    Some(slot) => {
                        if slot >= threshold {
                            let v = if slot < self.stack.len() {
                                self.stack[slot].duplicate()
                            } else {
                                Value::Nil
                            };
                            self.cells[c] = Upvalue::Closed(v);
                            assert(upvalue_views(self.cells@) =~= before.cells.update(
                                c as int,
                                model::closed_cell(before.cells[c as int], before.stack, threshold as int),
                            ));
                        } else {
                            assert(before.cells =~= before.cells.update(c as int, before.cells[c as int]));
                        }
                    },
                    None => {
                        assert(before.cells =~= before.cells.update(c as int, before.cells[c as int]));
                    },
                }
            }
            i = i + 1;
        }
        assert(old(self)@.open_upvalues.take(n as int) =~= old(self)@.open_upvalues);
    }

    /// Ends a run that nothing caught.
    pub(crate) fn abort(&mut self)
        ensures
            final(self)@ == model::aborted(old(self)@),
    {
        self.close_from(0);
        self.stack.clear();
        self.frames.clear();
        self.handlers.clear();
        self.pending = Pending::Idle;
        assert(views(self.stack@) =~= Seq::empty());
        assert(frame_views(self.frames@) =~= Seq::empty());
    }

    pub(crate) fn unwind(&mut self, depth: usize)
        ensures
            final(self)@ == model::unwound(old(self)@, depth as nat),
    {
        while self.frames.len() > depth
            invariant
                model::unwound(self@, depth as nat) == model::unwound(old(self)@, depth as nat),
            decreases self.frames.len(),
        {
            let ghost before = self@;
            let top: usize = self.frames.len() - 1;
            let base: usize = self.frames[top].base;
            self.close_from(base);
            self.frames.pop();
            assert(frame_views(self.frames@) =~= before.frames.drop_last());
        }
    }

    pub(crate) fn throw(&mut self, v: Value) -> (action: Action)
        ensures
            (final(self)@, action@) == model::throw(old(self)@, v@),
    {
        match self.handlers.pop() {
            None => {
                self.abort();
                Action::Uncaught(v)
            },
            Some(h) => {
                assert(self.handlers@ =~= old(self).handlers@.drop_last());
                self.unwind(h.frame_depth);
                if self.frames.len() == 0 {
                    self.abort();
                    Action::Uncaught(v)
                } else {
                    let ghost u = self@;
                    self.stack.truncate(h.stack_depth);
                    assert(views(self.stack@) =~= if h.stack_depth <= u.stack.len() {
                        u.stack.take(h.stack_depth as int)
                    } else {
                        u.stack
                    });
                    self.push(v);
                    self.set_ip(h.target);
                    Action::Continue
                }
            },
        }
    }

    pub(crate) fn fault(&mut self, message: &'static str) -> (action: Action)
        ensures
            (final(self)@, action@) == model::fault(old(self)@, message@),
    {
        self.throw(Value::String(message.to_string()))
    }
}

impl VM {
    /// One step: fetch, advance, execute. A frame that has run off its end
    /// returns `Nil`, and the root frame ends the run. While a request to
    /// the host is unanswered nothing moves.
    pub fn step(&mut self) -> (action: Action)
        ensures
            (final(self)@, action@) == model::step(old(self)@),
    {
        match &self.pending {
            Pending::Idle => {},
            _ => {
                return Action::Waiting;
            },
        }
        let depth: usize = self.frames.len();
        if depth == 0 {
            return Action::Finished;
        }
        let function: usize = self.frames[depth - 1].function;
        let ip: usize = self.frames[depth - 1].ip;
        let len: usize = if function < self.functions.len() {
            self.functions[function].opcodes.len()
        } else {
            0
        };
        assert(model::frame(self@) == self.frames[depth - 1]@);
        assert(len == model::code_of(self@, function).len());
        if ip >= len {
            if depth == 1 {
                self.finish()
            } else {
                self.return_value(Value::Nil)
            }
        } else {
            let op: OpCode = self.functions[function].opcodes[ip];
            self.set_ip(ip + 1);
            self.execute_op(op)
        }
    }

    /// Takes the host's answer to the request that is pending. An answer
    /// of the wrong kind changes nothing and is reported as `Waiting`; an
    /// answer to nothing is dropped.
    pub fn resume(&mut self, reply: Reply) -> (action: Action)
        ensures
            (final(self)@, action@) == model::resume(old(self)@, reply@),
    {
        let mut pending = Pending::Idle;
        std::mem::swap(&mut self.pending, &mut pending);
        match (pending, reply) {
            (Pending::Idle, _) => Action::Continue,
            (Pending::Arithmetic, Reply::Number(n)) => {
                self.push(Value::Number(n));
                Action::Continue
            },
            (Pending::TextAfter(t), Reply::Text(x)) => {
                self.push(Value::String(t.concat(x.as_str())));
                Action::Continue
            },
            (Pending::TextBefore(t), Reply::Text(x)) => {
                self.push(Value::String(x.concat(t.as_str())));
                Action::Continue
            },
            (Pending::Native, Reply::Native(Ok(v))) => {
                self.push(v);
                Action::Continue
            },
            (Pending::Native, Reply::Native(Err(message))) => self.throw(Value::String(message)),
            (other, _) => {
                self.pending = other;
                Action::Waiting
            },
        }
    }

    /// Up to `fuel` steps, stopping at the first that asks for anything.
    /// `Continue` comes back only when the fuel ran out.
    pub fn run(&mut self, fuel: usize) -> (action: Action)
        ensures
            (final(self)@, action@) == model::run(old(self)@, fuel as nat),
    {
        let mut left: usize = fuel;
        while left > 0
            invariant
                model::run(self@, left as nat) == model::run(old(self)@, fuel as nat),
            decreases left,
        {
            let action = self.step();
            match action {
                Action::Continue => {},
                _ => {
                    return action;
                },
            }
            left = left - 1;
        }
        Action::Continue
    }

    /// Loads a compiled program: its functions go behind those of the
    /// table, the program itself behind them, and a frame for it on top.
    /// Nothing runs yet. Gives the number of the program in the table.
    pub fn load(&mut self, opcodes: Vec<OpCode>, constants: Vec<Value>, functions: Vec<Function>) -> (function: usize)
        ensures
            function == old(self)@.functions.len() + functions@.len(),
            final(self)@ == model::loaded(old(self)@, opcodes@, views(constants@), function_views(functions@)),
    {
        let offset: usize = self.functions.len();
        let base: usize = self.stack.len();
        let mut rest = functions;
        let mut constants = constants;
        relocate_functions(&mut rest, offset);
        relocate(&mut constants, offset);
        let ghost moved = function_views(rest@);
        self.functions.append(&mut rest);
        let function: usize = self.functions.len();
        let root = Function {
            arity: 0,
            opcodes,
            constants,
            name: model::ROOT_NAME.to_string(),
            upvalue_count: 0,
            upvalue_descriptors: Vec::new(),
        };
        self.functions.push(root);
        self.frames.push(CallFrame { function, ip: 0, base, upvalues: Vec::new() });
        assert(function_views(self.functions@) =~= (old(self)@.functions + moved).push(root@));
        assert(frame_views(self.frames@) =~= old(self)@.frames.push(
            FrameView { function, ip: 0, base, upvalues: Seq::empty() },
        ));
        function
    }

    /// Loads a program and runs it for up to `fuel` steps.
    pub fn execute(
        &mut self,
        opcodes: Vec<OpCode>,
        constants: Vec<Value>,
        functions: Vec<Function>,
        fuel: usize,
    ) -> (action: Action)
        ensures
            (final(self)@, action@) == model::run(
                model::loaded(old(self)@, opcodes@, views(constants@), function_views(functions@)),
                fuel as nat,
            ),
    {
        self.load(opcodes, constants, functions);
        self.run(fuel)
    }

    /// A copy of what the global `name` is bound to.
    pub fn global(&self, name: &str) -> (r: Option<Value>)
        ensures
            match crate::heap::lookup(self@.globals, name@) {
                Some(i) => r matches Some(v) && v@ == self@.globals[i].1,
                None => r is None,
            },
    {
        match crate::heap::find_field(&self.globals, &name.to_string()) {
            Some(i) => Some(self.globals[i].1.duplicate()),
            None => None,
        }
    }

    /// Enters a host function into the native table.
    pub fn register_native(&mut self, kind: NativeKind) -> (id: NativeFnId)
        ensures
            id.0 == old(self)@.natives.len(),
            final(self)@ == (VmView { natives: old(self)@.natives.push(kind), ..old(self)@ }),
    {
        let id = NativeFnId(self.natives.len());
        self.natives.push(kind);
        id
    }

    /// Enters a host function into the native table and binds it to a
    /// global name, replacing what the name was bound to.
    pub fn register_and_define(&mut self, name: &str, kind: NativeKind) -> (id: NativeFnId)
        ensures
            id.0 == old(self)@.natives.len(),
            final(self)@ == (VmView {
                natives: old(self)@.natives.push(kind),
                globals: crate::heap::with_entry(
                    old(self)@.globals,
                    name@,
                    ValueView::NativeFunction(old(self)@.natives.len() as usize),
                ),
                ..old(self)@
            }),
    {
        let id = self.register_native(kind);
        crate::heap::set_field(&mut self.globals, name.to_string(), Value::NativeFunction(id));
        id
    }
}

/// Moves the function numbers among `constants` up by `offset`.
fn relocate(constants: &mut Vec<Value>, offset: usize)
    ensures
        views(final(constants)@) == model::relocated_values(views(old(constants)@), offset as nat),
{
    let mut i: usize = 0;
    while i < constants.len()
        invariant
            i <= constants.len(),
            constants.len() == old(constants).len(),
            forall|j: int|
                0 <= j < i ==> (#[trigger] constants[j])@ == model::relocated_value(old(constants)[j]@, offset as nat),
            forall|j: int| i <= j < constants.len() ==> constants[j] == old(constants)[j],
        decreases constants.len() - i,
    {
        let moved: Option<usize> = match &constants[i] {
            Value::Function(f) => if *f <= usize::MAX - offset {
                Some(*f + offset)
            } else {
                None
            },
            _ => None,
        };
        match moved {
            Some(f) => {
                constants[i] = Value::Function(f);
            },
            None => {},
        }
        i = i + 1;
    }
    assert(views(constants@) =~= model::relocated_values(views(old(constants)@), offset as nat));
}

/// Moves the function numbers in the pools of `functions` up by `offset`.
fn relocate_functions(functions: &mut Vec<Function>, offset: usize)
    ensures
        function_views(final(functions)@) == model::relocated_functions(
            function_views(old(functions)@),
            offset as nat,
        ),
{
    let mut i: usize = 0;
    while i < functions.len()
        invariant
            i <= functions.len(),
            functions.len() == old(functions).len(),
            forall|j: int|
                0 <= j < i ==> (#[trigger] functions[j])@ == model::relocated_function(
                    old(functions)[j]@,
                    offset as nat,
                ),
            forall|j: int| i <= j < functions.len() ==> functions[j] == old(functions)[j],
        decreases functions.len() - i,
    {
        relocate(&mut functions[i].constants, offset);
        i = i + 1;
    }
    assert(function_views(functions@) =~= model::relocated_functions(
        function_views(old(functions)@),
        offset as nat,
    ));
}

} // verus!
