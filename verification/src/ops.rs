//! The instructions of the machine, one method each or one per family.

use vstd::prelude::*;
use vstd::string::{StrSliceExecFns, StringExecFns};
use crate::heap::{
    entry_views, field_views, find_entry, find_field, find_key, method_views, object_views,
    set_field, set_key, set_method, upvalue_views, BoundMethod, Builtin, Class, Closure, Instance,
    Method, Object, ObjectView, Upvalue, UpvalueView,
};
use crate::model;
use crate::model::{ArithOp, FrameView, Handler, NativeKind, VmView};
use crate::number::Number;
use crate::opcode::OpCode;
use crate::value::{views, Function, NativeFnId, Value, ValueKey, ValueView};
use crate::vm::{frame_views, Action, CallFrame, Pending, VM};

verus! {

/// Lexicographic `>` on strings, code point by code point.
pub fn text_greater(a: &String, b: &String) -> (r: bool)
    ensures
        r == model::text_exceeds(a@, b@),
{
    let a_len: usize = a.as_str().unicode_len();
    let b_len: usize = b.as_str().unicode_len();
    let mut i: usize = 0;
    assert(a@.skip(0) =~= a@);
    assert(b@.skip(0) =~= b@);
    loop
        invariant
            i <= a_len,
            i <= b_len,
            a_len == a@.len(),
            b_len == b@.len(),
            model::text_exceeds(a@, b@) == model::text_exceeds(a@.skip(i as int), b@.skip(i as int)),
        decreases a_len - i,
    {
        if i == a_len {
            return false;
        }
        if i == b_len {
            return true;
        }
        let x: char = a.as_str().get_char(i);
        let y: char = b.as_str().get_char(i);
        assert(a@.skip(i as int)[0] == x);
        assert(b@.skip(i as int)[0] == y);
        if x != y {
            return x as u32 > y as u32;
        }
        assert(a@.skip(i as int).drop_first() =~= a@.skip(i + 1));
        assert(b@.skip(i as int).drop_first() =~= b@.skip(i + 1));
        i = i + 1;
    }
}

fn bounds_same(a: &Option<Number>, b: &Option<Number>) -> (r: bool)
    ensures
        r == model::bounds_equal(*a, *b),
{
    match (a, b) {
        (None, None) => true,
        (Some(x), Some(y)) => x.same(y),
        _ => false,
    }
}

/// The language's `==` on two values of the heap.
pub fn is_equal(heap: &Vec<Object>, a: &Value, b: &Value, depth: usize) -> (r: bool)
    ensures
        r == model::values_equal(object_views(heap@), a@, b@, depth as nat),
    decreases depth, 0nat,
{
    let ghost h = object_views(heap@);
    match (a, b) {
        (Value::Number(x), Value::Number(y)) => x.same(y),
        (Value::String(x), Value::String(y)) => *x == *y,
        (Value::Boolean(x), Value::Boolean(y)) => *x == *y,
        (Value::Nil, Value::Nil) => true,
        (Value::Range(s1, e1), Value::Range(s2, e2)) => bounds_same(s1, s2) && bounds_same(e1, e2),
        (Value::Function(x), Value::Function(y)) => *x == *y,
        (Value::NativeFunction(x), Value::NativeFunction(y)) => x.0 == y.0,
        (Value::Closure(x), Value::Closure(y)) => *x == *y,
        (Value::Class(x), Value::Class(y)) => *x == *y,
        (Value::Instance(x), Value::Instance(y)) => *x == *y,
        (Value::BoundMethod(x), Value::BoundMethod(y)) => *x == *y,
        (Value::Array(x), Value::Array(y)) => {
            if depth == 0 || *x >= heap.len() || *y >= heap.len() {
                return false;
            }
            match (&heap[*x], &heap[*y]) {
                (Object::Array(xs), Object::Array(ys)) => {
                    if xs.len() != ys.len() {
                        return false;
                    }
                    let ghost vx = views(xs@);
                    let ghost vy = views(ys@);
                    let mut i: usize = 0;
                    while i < xs.len()
                        invariant
                            i <= xs.len(),
                            xs.len() == ys.len(),
                            depth > 0,
                            h == object_views(heap@),
                            vx == views(xs@),
                            vy == views(ys@),
                            *x < heap.len(),
                            *y < heap.len(),
                            a@ == ValueView::Array(*x),
                            b@ == ValueView::Array(*y),
                            h[*x as int] == ObjectView::Array(vx),
                            h[*y as int] == ObjectView::Array(vy),
                            forall|j: int|
                                0 <= j < i ==> model::values_equal(
                                    h,
                                    #[trigger] vx[j],
                                    vy[j],
                                    (depth - 1) as nat,
                                ),
                        decreases xs.len() - i,
                    {
                        if !is_equal(heap, &xs[i], &ys[i], depth - 1) {
                            assert(!model::values_equal(h, vx[i as int], vy[i as int], (depth - 1) as nat));
                            return false;
                        }
                        i = i + 1;
                    }
                    true
                },
                _ => false,
            }
        },
        (Value::Dict(x), Value::Dict(y)) => {
            if depth == 0 || *x >= heap.len() || *y >= heap.len() {
                return false;
            }
            match (&heap[*x], &heap[*y]) {
                (Object::Dict(xs), Object::Dict(ys)) => {
                    if xs.len() != ys.len() {
                        return false;
                    }
                    let ghost vx = entry_views(xs@);
                    let ghost vy = entry_views(ys@);
                    let mut i: usize = 0;
                    while i < xs.len()
                        invariant
                            i <= xs.len(),
                            depth > 0,
                            h == object_views(heap@),
                            vx == entry_views(xs@),
                            vy == entry_views(ys@),
                            xs.len() == ys.len(),
                            *x < heap.len(),
                            *y < heap.len(),
                            a@ == ValueView::Dict(*x),
                            b@ == ValueView::Dict(*y),
                            h[*x as int] == ObjectView::Dict(vx),
                            h[*y as int] == ObjectView::Dict(vy),
                            forall|j: int|
                                0 <= j < i ==> model::entry_matched(
                                    h,
                                    #[trigger] vx[j],
                                    vy,
                                    (depth - 1) as nat,
                                ),
                        decreases xs.len() - i,
                    {
                        let matched: bool = match find_key(ys, &xs[i].0) {
                            Some(j) => is_equal(heap, &xs[i].1, &ys[j].1, depth - 1),
                            None => false,
                        };
                        if !matched {
                            assert(!model::entry_matched(h, vx[i as int], vy, (depth - 1) as nat));
                            return false;
                        }
                        i = i + 1;
                    }
                    true
                },
                _ => false,
            }
        },
        _ => false,
    }
}

/// The language's `>` where the two values can be ordered at all.
pub fn is_greater(a: &Value, b: &Value) -> (r: Option<bool>)
    ensures
        r == model::exceeds(a@, b@),
{
    match (a, b) {
        (Value::Number(x), Value::Number(y)) => Some(x.greater(y)),
        (Value::String(x), Value::String(y)) => Some(text_greater(x, y)),
        (Value::Boolean(x), Value::Boolean(y)) => Some(*x && !*y),
        _ => None,
    }
}

pub fn truthy(v: &Value) -> (r: bool)
    ensures
        r == model::truthy(v@),
{
    match v {
        Value::Boolean(false) => false,
        Value::Nil => false,
        _ => true,
    }
}

impl VM {
    pub(crate) fn drop_handlers(&mut self, depth: usize)
        ensures
            final(self)@ == (VmView {
                handlers: model::live_handlers(old(self)@.handlers, depth as nat),
                ..old(self)@
            }),
            final(self).frames == old(self).frames,
            final(self).stack == old(self).stack,
    {
        while self.handlers.len() > 0 && self.handlers[self.handlers.len() - 1].frame_depth > depth
            invariant
                model::live_handlers(self.handlers@, depth as nat) == model::live_handlers(
                    old(self).handlers@,
                    depth as nat,
                ),
                self@ == (VmView { handlers: self.handlers@, ..old(self)@ }),
                self.frames == old(self).frames,
                self.stack == old(self).stack,
            decreases self.handlers.len(),
        {
            let ghost before = self.handlers@;
            self.handlers.pop();
            assert(self.handlers@ =~= before.drop_last());
        }
    }

    pub(crate) fn return_value(&mut self, v: Value) -> (action: Action)
        requires
            old(self).frames.len() > 0,
        ensures
            (final(self)@, action@) == model::return_value(old(self)@, v@),
    {
        let top: usize = self.frames.len() - 1;
        let base: usize = self.frames[top].base;
        assert(model::frame(self@) == self.frames[top as int]@);
        self.close_from(base);
        self.frames.pop();
        assert(frame_views(self.frames@) =~= old(self)@.frames.drop_last());
        let depth: usize = self.frames.len();
        self.drop_handlers(depth);
        self.stack.truncate(base);
        assert(views(self.stack@) =~= if base <= old(self)@.stack.len() {
            old(self)@.stack.take(base as int)
        } else {
            old(self)@.stack
        });
        self.push(v);
        if self.frames.len() == 0 {
            Action::Finished
        } else {
            Action::Continue
        }
    }

    pub(crate) fn finish(&mut self) -> (action: Action)
        requires
            old(self).frames.len() > 0,
        ensures
            (final(self)@, action@) == model::finish(old(self)@),
    {
        let top: usize = self.frames.len() - 1;
        let base: usize = self.frames[top].base;
        self.close_from(base);
        if self.stack.len() > base {
            let result = self.peek(0);
            self.stack.truncate(base);
            assert(views(self.stack@) =~= old(self)@.stack.take(base as int));
            self.push(result);
        }
        self.frames.clear();
        self.handlers.clear();
        assert(frame_views(self.frames@) =~= Seq::empty());
        Action::Finished
    }

    pub(crate) fn op_negate(&mut self) -> (action: Action)
        ensures
            (final(self)@, action@) == model::op_negate(old(self)@),
    {
        if self.stack.len() == 0 {
            return self.fault(model::STACK_EMPTY);
        }
        let v = self.peek(0);
        self.discard(1);
        match v {
            Value::Number(n) => {
                self.push(Value::Number(n.negate()));
                Action::Continue
            },
            _ => self.fault(model::NOT_A_NUMBER),
        }
    }

    pub(crate) fn op_not(&mut self) -> (action: Action)
        ensures
            (final(self)@, action@) == model::op_not(old(self)@),
    {
        if self.stack.len() == 0 {
            return self.fault(model::STACK_EMPTY);
        }
        let v = self.peek(0);
        self.discard(1);
        match v {
            Value::Boolean(b) => {
                self.push(Value::Boolean(!b));
                Action::Continue
            },
            _ => self.fault(model::NOT_A_BOOLEAN),
        }
    }

    pub(crate) fn op_add(&mut self) -> (action: Action)
        ensures
            (final(self)@, action@) == model::op_add(old(self)@),
    {
        if self.stack.len() < 2 {
            return self.fault(model::STACK_EMPTY);
        }
        let left = self.peek(1);
        let right = self.peek(0);
        self.discard(2);
        match (left, right) {
            (Value::String(a), Value::String(b)) => {
                self.push(Value::String(a.concat(b.as_str())));
                Action::Continue
            },
            (Value::Number(a), Value::Number(b)) => {
                self.pending = Pending::Arithmetic;
                Action::Arithmetic { op: ArithOp::Add, left: a, right: b }
            },
            (Value::Number(n), Value::String(t)) => {
                self.pending = Pending::TextBefore(t);
                Action::Format { number: n }
            },
            (Value::String(t), Value::Number(n)) => {
                self.pending = Pending::TextAfter(t);
                Action::Format { number: n }
            },
            _ => self.fault(model::ADD_TYPES),
        }
    }

    pub(crate) fn op_arithmetic(&mut self, op: ArithOp) -> (action: Action)
        ensures
            (final(self)@, action@) == model::op_arithmetic(old(self)@, op),
    {
        if self.stack.len() < 2 {
            return self.fault(model::STACK_EMPTY);
        }
        let left = self.peek(1);
        let right = self.peek(0);
        self.discard(2);
        match (left, right) {
            (Value::Number(a), Value::Number(b)) => {
                self.pending = Pending::Arithmetic;
                Action::Arithmetic { op, left: a, right: b }
            },
            _ => self.fault(model::NOT_A_NUMBER),
        }
    }

    pub(crate) fn op_equal(&mut self) -> (action: Action)
        ensures
            (final(self)@, action@) == model::op_equal(old(self)@),
    {
        if self.stack.len() < 2 {
            return self.fault(model::STACK_EMPTY);
        }
        let left = self.peek(1);
        let right = self.peek(0);
        let depth: usize = self.heap.len();
        let equal: bool = is_equal(&self.heap, &left, &right, depth);
        self.discard(2);
        self.push(Value::Boolean(equal));
        Action::Continue
    }

    pub(crate) fn op_order(&mut self, swap: bool) -> (action: Action)
        ensures
            (final(self)@, action@) == model::op_order(old(self)@, swap),
    {
        if self.stack.len() < 2 {
            return self.fault(model::STACK_EMPTY);
        }
        let left = self.peek(1);
        let right = self.peek(0);
        let result: Option<bool> = if swap {
            is_greater(&right, &left)
        } else {
            is_greater(&left, &right)
        };
        self.discard(2);
        match result {
            Some(b) => {
                self.push(Value::Boolean(b));
                Action::Continue
            },
            None => self.fault(model::NOT_COMPARABLE),
        }
    }

    pub(crate) fn op_jump_if(&mut self, target: usize, on_true: bool) -> (action: Action)
        requires
            old(self).frames.len() > 0,
        ensures
            (final(self)@, action@) == model::op_jump_if(old(self)@, target, on_true),
    {
        if self.stack.len() == 0 {
            return self.fault(model::STACK_EMPTY);
        }
        let v = self.peek(0);
        self.discard(1);
        if truthy(&v) == on_true {
            self.set_ip(target);
        }
        Action::Continue
    }
}

/// The first cell open on a slot is the only one that capturing can reuse.
proof fn lemma_first_open_unique(cells: Seq<UpvalueView>, open: Seq<usize>, slot: usize, i: int, j: int)
    requires
        model::first_open_on(cells, open, slot, i),
        model::first_open_on(cells, open, slot, j),
    ensures
        i == j,
{
    if i < j {
        assert(!model::open_on(cells, open, slot, i));
    }
    if j < i {
        assert(!model::open_on(cells, open, slot, j));
    }
}

/// Closing from beyond every slot changes no cell.
proof fn lemma_close_nothing(cells: Seq<UpvalueView>, open: Seq<usize>, stack: Seq<ValueView>, threshold: int)
    requires
        threshold > usize::MAX,
    ensures
        model::closed_cells(cells, open, stack, threshold) == cells,
    decreases open.len(),
{
    if open.len() > 0 {
        lemma_close_nothing(cells, open.drop_last(), stack, threshold);
        let c = open.last();
        if c < cells.len() {
            assert(cells.update(c as int, cells[c as int]) =~= cells);
        }
    }
}

impl VM {
    /// Entry `k` of the running function's constant pool.
    pub(crate) fn constant(&self, k: usize) -> (r: Option<Value>)
        requires
            self.frames.len() > 0,
        ensures
            match r {
                Some(v) => model::constant_at(self@, k) == Some(v@),
                None => model::constant_at(self@, k) is None,
            },
    {
        let f: usize = self.frames[self.frames.len() - 1].function;
        if f < self.functions.len() && k < self.functions[f].constants.len() {
            Some(self.functions[f].constants[k].duplicate())
        } else {
            None
        }
    }

    /// Entry `k` of the pool where it is a string.
    pub(crate) fn name(&self, k: usize) -> (r: Option<String>)
        requires
            self.frames.len() > 0,
        ensures
            match r {
                Some(n) => model::name_at(self@, k) == Some(n@),
                None => model::name_at(self@, k) is None,
            },
    {
        match self.constant(k) {
            Some(Value::String(n)) => Some(n),
            _ => None,
        }
    }

    /// The name that the instruction at the current position carries.
    pub(crate) fn operand_name(&self) -> (r: Option<String>)
        requires
            self.frames.len() > 0,
        ensures
            match r {
                Some(n) => model::operand_name(self@) == Some(n@),
                None => model::operand_name(self@) is None,
            },
    {
        let top: usize = self.frames.len() - 1;
        let f: usize = self.frames[top].function;
        let ip: usize = self.frames[top].ip;
        if f < self.functions.len() && ip < self.functions[f].opcodes.len() {
            match self.functions[f].opcodes[ip] {
                OpCode::Constant(k) => self.name(k),
                _ => None,
            }
        } else {
            None
        }
    }

    /// Steps over the trailing operand of a two-part instruction.
    pub(crate) fn skip_operand(&mut self)
        requires
            old(self).frames.len() > 0,
            model::operand_name(old(self)@) is Some,
        ensures
            final(self)@ == model::with_ip(old(self)@, (model::frame(old(self)@).ip + 1) as usize),
            final(self).frames.len() == old(self).frames.len(),
            final(self).stack == old(self).stack,
            final(self).heap == old(self).heap,
    {
        let top: usize = self.frames.len() - 1;
        let ip: usize = self.frames[top].ip;
        let f: usize = self.frames[top].function;
        proof {
            assert(model::frame(self@) == self.frames[top as int]@);
            assert(ip < model::code_of(self@, f).len());
        }
        let len: usize = self.functions[f].opcodes.len();
        assert(ip < len);
        self.set_ip(ip + 1);
    }

    pub(crate) fn allocate(&mut self, object: Object) -> (id: usize)
        ensures
            final(self)@ == model::allocated(old(self)@, object@),
            id == old(self).heap.len(),
            final(self).frames == old(self).frames,
            final(self).stack == old(self).stack,
    {
        let id: usize = self.heap.len();
        self.heap.push(object);
        assert(object_views(self.heap@) =~= object_views(old(self).heap@).push(object@));
        id
    }

    /// Puts `v` into slot `index`, growing the stack with `Nil` as needed.
    pub(crate) fn store(&mut self, index: usize, v: Value)
        ensures
            final(self)@ == (VmView { stack: model::stored(old(self)@.stack, index as int, v@), ..old(self)@ }),
    {
        if index < self.stack.len() {
            self.stack[index] = v;
            assert(views(self.stack@) =~= old(self)@.stack.update(index as int, v@));
        } else {
            let ghost start = old(self)@.stack;
            while self.stack.len() < index
                invariant
                    start.len() <= self.stack.len() <= index,
                    self@ == (VmView {
                        stack: start + Seq::new(
                            (self.stack.len() - start.len()) as nat,
                            |i: int| ValueView::Nil,
                        ),
                        ..old(self)@
                    }),
                decreases index - self.stack.len(),
            {
                let ghost before = views(self.stack@);
                self.stack.push(Value::Nil);
                assert(views(self.stack@) =~= before.push(ValueView::Nil));
                assert(before.push(ValueView::Nil) =~= start + Seq::new(
                    (self.stack.len() - start.len()) as nat,
                    |i: int| ValueView::Nil,
                ));
            }
            let ghost before = views(self.stack@);
            self.stack.push(v);
            assert(views(self.stack@) =~= before.push(v@));
            assert(before.push(v@) =~= model::stored(start, index as int, v@));
        }
    }

    pub(crate) fn op_store_local(&mut self, slot: usize) -> (action: Action)
        requires
            old(self).frames.len() > 0,
        ensures
            (final(self)@, action@) == model::op_store_local(old(self)@, slot),
    {
        if self.stack.len() == 0 {
            return self.fault(model::STACK_EMPTY);
        }
        let v = self.peek(0);
        let base: usize = self.frames[self.frames.len() - 1].base;
        self.discard(1);
        if slot >= usize::MAX - base {
            return self.fault(model::STACK_OVERFLOW);
        }
        self.store(base + slot, v);
        Action::Continue
    }

    /// A copy of what slot `base + slot` holds, `Nil` beyond the stack.
    pub(crate) fn slot_value(&self, base: usize, slot: usize) -> (v: Value)
        ensures
            v@ == model::slot_value(self@.stack, base + slot),
    {
        if base < self.stack.len() && slot < self.stack.len() - base {
            self.stack[base + slot].duplicate()
        } else {
            Value::Nil
        }
    }

    pub(crate) fn op_get_local(&mut self, slot: usize) -> (action: Action)
        requires
            old(self).frames.len() > 0,
        ensures
            (final(self)@, action@) == (
                model::pushed(
                    old(self)@,
                    model::slot_value(old(self)@.stack, model::frame(old(self)@).base + slot),
                ),
                crate::model::ActionView::Continue,
            ),
    {
        let base: usize = self.frames[self.frames.len() - 1].base;
        let v = self.slot_value(base, slot);
        self.push(v);
        Action::Continue
    }

    pub(crate) fn op_get_upvalue(&mut self, i: usize) -> (action: Action)
        requires
            old(self).frames.len() > 0,
        ensures
            (final(self)@, action@) == model::op_get_upvalue(old(self)@, i),
    {
        let top: usize = self.frames.len() - 1;
        if i >= self.frames[top].upvalues.len() || self.frames[top].upvalues[i] >= self.cells.len() {
            return self.fault(model::BAD_UPVALUE);
        }
        let c: usize = self.frames[top].upvalues[i];
        let v = match &self.cells[c] {
            Upvalue::Open(slot) => self.slot_value(0, *slot),
            Upvalue::Closed(v) => v.duplicate(),
        };
        self.push(v);
        Action::Continue
    }

    pub(crate) fn op_set_upvalue(&mut self, i: usize) -> (action: Action)
        requires
            old(self).frames.len() > 0,
        ensures
            (final(self)@, action@) == model::op_set_upvalue(old(self)@, i),
    {
        if self.stack.len() == 0 {
            return self.fault(model::STACK_EMPTY);
        }
        let v = self.peek(0);
        self.discard(1);
        let top: usize = self.frames.len() - 1;
        if i >= self.frames[top].upvalues.len() || self.frames[top].upvalues[i] >= self.cells.len() {
            return self.fault(model::BAD_UPVALUE);
        }
        let c: usize = self.frames[top].upvalues[i];
        let open: Option<usize> = match &self.cells[c] {
            Upvalue::Open(slot) => Some(*slot),
            Upvalue::Closed(_) => None,
        };
        match open {
            Some(slot) => {
                if slot < self.stack.len() {
                    let ghost before = self@.stack;
                    self.stack[slot] = v;
                    assert(views(self.stack@) =~= before.update(slot as int, v@));
                    Action::Continue
                } else {
                    self.fault(model::BAD_UPVALUE)
                }
            },
            None => {
                let ghost before = self@.cells;
                self.cells[c] = Upvalue::Closed(v);
                assert(upvalue_views(self.cells@) =~= before.update(c as int, UpvalueView::Closed(v@)));
                Action::Continue
            },
        }
    }

    pub(crate) fn op_close_upvalues(&mut self, n: usize) -> (action: Action)
        requires
            old(self).frames.len() > 0,
        ensures
            (final(self)@, action@) == (
                model::close_from(old(self)@, model::frame(old(self)@).base + n),
                crate::model::ActionView::Continue,
            ),
    {
        let base: usize = self.frames[self.frames.len() - 1].base;
        if n > usize::MAX - base {
            proof {
                lemma_close_nothing(self@.cells, self@.open_upvalues, self@.stack, base + n);
            }
        } else {
            self.close_from(base + n);
        }
        Action::Continue
    }

    /// The cell that captures `slot`: an open one where there is one.
    pub(crate) fn capture(&mut self, slot: usize) -> (cell: usize)
        ensures
            (final(self)@, cell) == model::captured(old(self)@, slot),
            final(self).frames == old(self).frames,
            final(self).functions == old(self).functions,
            final(self).stack == old(self).stack,
            final(self).heap == old(self).heap,
    {
        let ghost cells = self@.cells;
        let ghost open = self@.open_upvalues;
        let mut i: usize = 0;
        while i < self.open_upvalues.len()
            invariant
                i <= self.open_upvalues.len(),
                self == old(self),
                cells == self@.cells,
                open == self@.open_upvalues,
                forall|j: int| 0 <= j < i ==> !model::open_on(cells, open, slot, j),
            decreases self.open_upvalues.len() - i,
        {
            let c: usize = self.open_upvalues[i];
            if c < self.cells.len() {
                let found: bool = match &self.cells[c] {
                    Upvalue::Open(at) => *at == slot,
                    Upvalue::Closed(_) => false,
                };
                if found {
                    proof {
                        assert(model::first_open_on(cells, open, slot, i as int));
                        let chosen = choose|j: int| model::first_open_on(cells, open, slot, j);
                        lemma_first_open_unique(cells, open, slot, i as int, chosen);
                    }
                    return c;
                }
            }
            i = i + 1;
        }
        let cell: usize = self.cells.len();
        self.cells.push(Upvalue::Open(slot));
        self.open_upvalues.push(cell);
        assert(upvalue_views(self.cells@) =~= cells.push(UpvalueView::Open(slot)));
        cell
    }

    pub(crate) fn op_closure(&mut self, k: usize) -> (action: Action)
        requires
            old(self).frames.len() > 0,
        ensures
            (final(self)@, action@) == model::op_closure(old(self)@, k),
    {
        let f: usize = match self.constant(k) {
            Some(Value::Function(f)) => f,
            _ => {
                return self.fault(model::NOT_A_FUNCTION);
            },
        };
        if f >= self.functions.len() {
            return self.fault(model::NOT_A_FUNCTION);
        }
        let top: usize = self.frames.len() - 1;
        let base: usize = self.frames[top].base;
        let count: usize = self.functions[f].upvalue_descriptors.len();
        let ghost descriptors = self@.functions[f as int].upvalue_descriptors;
        let mut i: usize = 0;
        while i < count
            invariant
                i <= count,
                self == old(self),
                f < self.functions.len(),
                top == self.frames.len() - 1,
                base == self.frames[top as int].base,
                count == self.functions[f as int].upvalue_descriptors.len(),
                descriptors == self.functions[f as int].upvalue_descriptors@,
                descriptors == old(self)@.functions[f as int].upvalue_descriptors,
                model::constant_at(old(self)@, k) == Some(ValueView::Function(f)),
                forall|j: int|
                    0 <= j < i ==> {
                        let d = #[trigger] descriptors[j];
                        if d.is_local {
                            base + d.index <= usize::MAX
                        } else {
                            d.index < self.frames[top as int].upvalues.len()
                        }
                    },
            decreases count - i,
        {
            let d = self.functions[f].upvalue_descriptors[i];
            let fits: bool = if d.is_local {
                d.index <= usize::MAX - base
            } else {
                d.index < self.frames[top].upvalues.len()
            };
            if !fits {
                proof {
                    let d = descriptors[i as int];
                    assert(model::frame(self@) == self.frames[top as int]@);
                    assert(!(if d.is_local {
                        model::frame(self@).base + d.index <= usize::MAX
                    } else {
                        d.index < model::frame(self@).upvalues.len()
                    }));
                    assert(!model::capturable(self@, descriptors));
                }
                return self.fault(model::BAD_UPVALUE);
            }
            i = i + 1;
        }
        assert(model::capturable(self@, descriptors));
        let mut upvalues: Vec<usize> = Vec::new();
        let mut i: usize = 0;
        while i < count
            invariant
                i <= count,
                f < self.functions.len(),
                self.frames == old(self).frames,
                self.functions == old(self).functions,
                top == self.frames.len() - 1,
                base == self.frames[top as int].base,
                count == descriptors.len(),
                descriptors == self.functions[f as int].upvalue_descriptors@,
                model::capturable(old(self)@, descriptors),
                (self@, upvalues@) == model::captured_all(old(self)@, descriptors, i as nat),
            decreases count - i,
        {
            let d = self.functions[f].upvalue_descriptors[i];
            assert(d == descriptors[i as int]);
            if d.is_local {
                let cell: usize = self.capture(base + d.index);
                upvalues.push(cell);
            } else {
                let cell: usize = self.frames[top].upvalues[d.index];
                upvalues.push(cell);
            }
            i = i + 1;
        }
        let id: usize = self.allocate(Object::Closure(Closure { function: f, upvalues }));
        self.push(Value::Closure(id));
        Action::Continue
    }

    pub(crate) fn op_define_global(&mut self, k: usize) -> (action: Action)
        requires
            old(self).frames.len() > 0,
        ensures
            (final(self)@, action@) == model::op_define_global(old(self)@, k),
    {
        let name: String = match self.name(k) {
            Some(name) => name,
            None => {
                return self.fault(model::BAD_CONSTANT);
            },
        };
        if self.stack.len() == 0 {
            return self.fault(model::STACK_EMPTY);
        }
        let v = self.peek(0);
        self.discard(1);
        match find_field(&self.globals, &name) {
            Some(_) => self.fault(model::GLOBAL_DEFINED),
            None => {
                self.globals.push((name, v));
                assert(field_views(self.globals@) =~= old(self)@.globals.push((name@, v@)));
                Action::Continue
            },
        }
    }

    pub(crate) fn op_set_global(&mut self, k: usize) -> (action: Action)
        requires
            old(self).frames.len() > 0,
        ensures
            (final(self)@, action@) == model::op_set_global(old(self)@, k),
    {
        let name: String = match self.name(k) {
            Some(name) => name,
            None => {
                return self.fault(model::BAD_CONSTANT);
            },
        };
        if self.stack.len() == 0 {
            return self.fault(model::STACK_EMPTY);
        }
        let v = self.peek(0);
        self.discard(1);
        match find_field(&self.globals, &name) {
            Some(i) => {
                self.globals[i] = (name, v);
                assert(field_views(self.globals@) =~= old(self)@.globals.update(i as int, (name@, v@)));
                Action::Continue
            },
            None => self.fault(model::GLOBAL_MISSING),
        }
    }

    pub(crate) fn op_get_global(&mut self, k: usize) -> (action: Action)
        requires
            old(self).frames.len() > 0,
        ensures
            (final(self)@, action@) == model::op_get_global(old(self)@, k),
    {
        let name: String = match self.name(k) {
            Some(name) => name,
            None => {
                return self.fault(model::BAD_CONSTANT);
            },
        };
        match find_field(&self.globals, &name) {
            Some(i) => {
                let v = self.globals[i].1.duplicate();
                self.push(v);
                Action::Continue
            },
            None => self.fault(model::GLOBAL_MISSING),
        }
    }
}

/// The function that `class` or the nearest of its ancestors files under `name`.
pub fn find_method(heap: &Vec<Object>, class: usize, name: &String, depth: usize) -> (r: Option<usize>)
    ensures
        r == model::find_method(object_views(heap@), class, name@, depth as nat),
    decreases depth,
{
    if depth == 0 || class >= heap.len() {
        return None;
    }
    match &heap[class] {
        Object::Class(c) => match find_entry(&c.methods, name) {
            Some(i) => Some(c.methods[i].1),
            None => match c.parent {
                Some(p) => find_method(heap, p, name, depth - 1),
                None => None,
            },
        },
        _ => None,
    }
}

/// The built-in that values of this kind carry under `name`.
pub fn builtin_of(v: &Value, name: &String) -> (r: Option<Builtin>)
    ensures
        r == model::builtin_of(v@, name@),
{
    match v {
        Value::Array(_) => if crate::text::is_text(name, model::ARRAY_ADD) {
            Some(Builtin::ArrayAdd)
        } else if crate::text::is_text(name, model::CLEAR) {
            Some(Builtin::ArrayClear)
        } else {
            None
        },
        Value::String(_) => if crate::text::is_text(name, model::STRING_LENGTH) {
            Some(Builtin::StringLength)
        } else if crate::text::is_text(name, model::STRING_SPLIT) {
            Some(Builtin::StringSplit)
        } else {
            None
        },
        Value::Dict(_) => if crate::text::is_text(name, model::DICT_KEYS) {
            Some(Builtin::DictKeys)
        } else if crate::text::is_text(name, model::DICT_VALUES) {
            Some(Builtin::DictValues)
        } else if crate::text::is_text(name, model::CLEAR) {
            Some(Builtin::DictClear)
        } else {
            None
        },
        _ => None,
    }
}

/// Copies of the values in places `from..to`.
pub fn copy_range(items: &Vec<Value>, from: usize, to: usize) -> (r: Vec<Value>)
    requires
        from <= to <= items.len(),
    ensures
        views(r@) == views(items@).subrange(from as int, to as int),
        r.len() == to - from,
{
    let mut r: Vec<Value> = Vec::new();
    let mut i: usize = from;
    while i < to
        invariant
            from <= i <= to <= items.len(),
            r.len() == i - from,
            views(r@) =~= views(items@).subrange(from as int, i as int),
        decreases to - i,
    {
        r.push(items[i].duplicate());
        i = i + 1;
    }
    r
}

fn copy_cells(cells: &Vec<usize>) -> (r: Vec<usize>)
    ensures
        r@ == cells@,
{
    let mut r: Vec<usize> = Vec::new();
    let mut i: usize = 0;
    while i < cells.len()
        invariant
            i <= cells.len(),
            r@ =~= cells@.take(i as int),
        decreases cells.len() - i,
    {
        r.push(cells[i]);
        i = i + 1;
    }
    assert(cells@.take(cells.len() as int) =~= cells@);
    r
}

impl VM {
    pub(crate) fn op_class(&mut self) -> (action: Action)
        requires
            old(self).frames.len() > 0,
        ensures
            (final(self)@, action@) == model::op_class(old(self)@),
    {
        let name: String = match self.operand_name() {
            Some(name) => name,
            None => {
                return self.fault(model::BAD_OPERAND);
            },
        };
        self.skip_operand();
        let id: usize = self.allocate(
            Object::Class(Class { name, methods: Vec::new(), fields: Vec::new(), parent: None }),
        );
        proof {
            assert(crate::heap::method_views(Seq::<(String, usize)>::empty()) =~= Seq::empty());
            assert(crate::heap::text_views(Seq::<String>::empty()) =~= Seq::empty());
        }
        self.push(Value::Class(id));
        Action::Continue
    }

    pub(crate) fn is_class(&self, c: usize) -> (r: bool)
        ensures
            r == model::is_class(self@.heap, c),
    {
        if c < self.heap.len() {
            match &self.heap[c] {
                Object::Class(_) => true,
                _ => false,
            }
        } else {
            false
        }
    }

    pub(crate) fn op_inherit(&mut self) -> (action: Action)
        ensures
            (final(self)@, action@) == model::op_inherit(old(self)@),
    {
        if self.stack.len() < 2 {
            return self.fault(model::STACK_EMPTY);
        }
        let sub_value = self.peek(1);
        let sup_value = self.peek(0);
        self.discard(1);
        match (sub_value, sup_value) {
            (Value::Class(sub), Value::Class(sup)) => {
                if self.is_class(sub) && self.is_class(sup) {
                    let ghost before = self@.heap;
                    match &mut self.heap[sub] {
                        Object::Class(c) => {
                            c.parent = Some(sup);
                        },
                        _ => {},
                    }
                    proof {
                        match before[sub as int] {
                            ObjectView::Class { name, methods, fields, parent } => {
                                assert(object_views(self.heap@) =~= before.update(
                                    sub as int,
                                    ObjectView::Class { name, methods, fields, parent: Some(sup) },
                                ));
                            },
                            _ => {},
                        }
                    }
                    Action::Continue
                } else {
                    self.fault(model::NOT_A_CLASS)
                }
            },
            _ => self.fault(model::NOT_A_CLASS),
        }
    }

    /// The function that a value stands for when it is made a method.
    pub(crate) fn method_function(&self, v: &Value) -> (r: Option<usize>)
        ensures
            r == model::method_function(self@, v@),
    {
        match v {
            Value::Function(f) => Some(*f),
            Value::Closure(c) => if *c < self.heap.len() {
                match &self.heap[*c] {
                    Object::Closure(closure) => Some(closure.function),
                    _ => None,
                }
            } else {
                None
            },
            _ => None,
        }
    }

    pub(crate) fn op_define_method(&mut self, k: usize) -> (action: Action)
        requires
            old(self).frames.len() > 0,
        ensures
            (final(self)@, action@) == model::op_define_method(old(self)@, k),
    {
        let name: String = match self.name(k) {
            Some(name) => name,
            None => {
                return self.fault(model::BAD_CONSTANT);
            },
        };
        if self.stack.len() < 2 {
            return self.fault(model::STACK_EMPTY);
        }
        let class_value = self.peek(1);
        let method_value = self.peek(0);
        let function: Option<usize> = self.method_function(&method_value);
        self.discard(1);
        match (class_value, function) {
            (Value::Class(c), Some(f)) => {
                if self.is_class(c) {
                    let ghost before = self@.heap;
                    match &mut self.heap[c] {
                        Object::Class(class) => {
                            set_method(&mut class.methods, name, f);
                        },
                        _ => {},
                    }
                    proof {
                        match before[c as int] {
                            ObjectView::Class { name: class_name, methods, fields, parent } => {
                                assert(object_views(self.heap@) =~= before.update(
                                    c as int,
                                    ObjectView::Class {
                                        name: class_name,
                                        methods: crate::heap::with_entry(methods, name@, f),
                                        fields,
                                        parent,
                                    },
                                ));
                            },
                            _ => {},
                        }
                    }
                    Action::Continue
                } else {
                    self.fault(model::NOT_A_CLASS)
                }
            },
            (Value::Class(_), None) => self.fault(model::NOT_A_FUNCTION),
            _ => self.fault(model::NOT_A_CLASS),
        }
    }

    /// Pushes a fresh bound method for `receiver`.
    pub(crate) fn bind(&mut self, receiver: Value, method: Method) -> (action: Action)
        ensures
            (final(self)@, action@) == model::bind(old(self)@, receiver@, method),
    {
        let id: usize = self.allocate(Object::BoundMethod(BoundMethod { receiver, method }));
        self.push(Value::BoundMethod(id));
        Action::Continue
    }

    pub(crate) fn op_get_property(&mut self) -> (action: Action)
        requires
            old(self).frames.len() > 0,
        ensures
            (final(self)@, action@) == model::op_get_property(old(self)@),
    {
        let name: String = match self.operand_name() {
            Some(name) => name,
            None => {
                return self.fault(model::BAD_OPERAND);
            },
        };
        self.skip_operand();
        if self.stack.len() == 0 {
            return self.fault(model::STACK_EMPTY);
        }
        let receiver = self.peek(0);
        self.discard(1);
        match &receiver {
            Value::Instance(i) => {
                let i: usize = *i;
                if i >= self.heap.len() {
                    return self.fault(model::NOT_AN_INSTANCE);
                }
                let found: Option<(Option<Value>, usize)> = match &self.heap[i] {
                    Object::Instance(instance) => match find_field(&instance.fields, &name) {
                        Some(at) => Some((Some(instance.fields[at].1.duplicate()), instance.class)),
                        None => Some((None, instance.class)),
                    },
                    _ => None,
                };
                match found {
                    Some((Some(v), _)) => {
                        self.push(v);
                        Action::Continue
                    },
                    Some((None, class)) => {
                        let depth: usize = self.heap.len();
                        match find_method(&self.heap, class, &name, depth) {
                            Some(f) => self.bind(receiver, Method::Function(f)),
                            None => self.fault(model::NO_PROPERTY),
                        }
                    },
                    None => self.fault(model::NOT_AN_INSTANCE),
                }
            },
            Value::Array(_) | Value::String(_) | Value::Dict(_) => match builtin_of(&receiver, &name) {
                Some(b) => self.bind(receiver, Method::Builtin(b)),
                None => self.fault(model::NO_PROPERTY),
            },
            _ => self.fault(model::NOT_AN_INSTANCE),
        }
    }

    pub(crate) fn op_set_property(&mut self) -> (action: Action)
        requires
            old(self).frames.len() > 0,
        ensures
            (final(self)@, action@) == model::op_set_property(old(self)@),
    {
        let name: String = match self.operand_name() {
            Some(name) => name,
            None => {
                return self.fault(model::BAD_OPERAND);
            },
        };
        self.skip_operand();
        if self.stack.len() < 2 {
            return self.fault(model::STACK_EMPTY);
        }
        let v = self.peek(1);
        let receiver = self.peek(0);
        self.discard(2);
        match receiver {
            Value::Instance(i) => {
                if i >= self.heap.len() {
                    return self.fault(model::NOT_AN_INSTANCE);
                }
                let ghost before = self@.heap;
                let is_instance: bool = match &mut self.heap[i] {
                    Object::Instance(instance) => {
                        set_field(&mut instance.fields, name, v);
                        true
                    },
                    _ => false,
                };
                if is_instance {
                    proof {
                        match before[i as int] {
                            ObjectView::Instance { class, fields } => {
                                assert(object_views(self.heap@) =~= before.update(
                                    i as int,
                                    ObjectView::Instance {
                                        class,
                                        fields: crate::heap::with_entry(fields, name@, v@),
                                    },
                                ));
                            },
                            _ => {},
                        }
                    }
                    Action::Continue
                } else {
                    assert(object_views(self.heap@) =~= before);
                    self.fault(model::NOT_AN_INSTANCE)
                }
            },
            _ => self.fault(model::NOT_AN_INSTANCE),
        }
    }

    pub(crate) fn op_get_super(&mut self) -> (action: Action)
        requires
            old(self).frames.len() > 0,
        ensures
            (final(self)@, action@) == model::op_get_super(old(self)@),
    {
        let name: String = match self.operand_name() {
            Some(name) => name,
            None => {
                return self.fault(model::BAD_OPERAND);
            },
        };
        let base: usize = self.frames[self.frames.len() - 1].base;
        self.skip_operand();
        let receiver = self.slot_value(base, 0);
        match receiver {
            Value::Instance(i) => {
                if i >= self.heap.len() {
                    return self.fault(model::NOT_AN_INSTANCE);
                }
                let class: usize = match &self.heap[i] {
                    Object::Instance(instance) => instance.class,
                    _ => {
                        return self.fault(model::NOT_AN_INSTANCE);
                    },
                };
                if class >= self.heap.len() {
                    return self.fault(model::NO_SUPER);
                }
                let parent: usize = match &self.heap[class] {
                    Object::Class(c) => match c.parent {
                        Some(p) => p,
                        None => {
                            return self.fault(model::NO_SUPER);
                        },
                    },
                    _ => {
                        return self.fault(model::NO_SUPER);
                    },
                };
                let depth: usize = self.heap.len();
                match find_method(&self.heap, parent, &name, depth) {
                    Some(f) => self.bind(Value::Instance(i), Method::Function(f)),
                    None => self.fault(model::NO_SUPER),
                }
            },
            _ => self.fault(model::NOT_AN_INSTANCE),
        }
    }
}

impl VM {
    /// The items of the array that `v` names, with its handle.
    pub(crate) fn array_handle(&self, v: &Value) -> (r: Option<usize>)
        ensures
            match r {
                Some(a) => model::array_of(self@, v@) matches Some((h, items)) && h == a && a < self.heap.len()
                    && self.heap[a as int] is Array && views(self.heap[a as int]->Array_0@) == items,
                None => model::array_of(self@, v@) is None,
            },
    {
        match v {
            Value::Array(a) => if *a < self.heap.len() {
                match &self.heap[*a] {
                    Object::Array(_) => Some(*a),
                    _ => None,
                }
            } else {
                None
            },
            _ => None,
        }
    }

    /// The handle of the dictionary that `v` names.
    pub(crate) fn dict_handle(&self, v: &Value) -> (r: Option<usize>)
        ensures
            match r {
                Some(d) => model::dict_of(self@, v@) matches Some((h, entries)) && h == d && d < self.heap.len()
                    && self.heap[d as int] is Dict && entry_views(self.heap[d as int]->Dict_0@) == entries,
                None => model::dict_of(self@, v@) is None,
            },
    {
        match v {
            Value::Dict(d) => if *d < self.heap.len() {
                match &self.heap[*d] {
                    Object::Dict(_) => Some(*d),
                    _ => None,
                }
            } else {
                None
            },
            _ => None,
        }
    }

    /// Replaces the items of the array at `a`.
    pub(crate) fn set_array(&mut self, a: usize, items: Vec<Value>)
        requires
            a < old(self).heap.len(),
        ensures
            final(self)@ == (VmView {
                heap: old(self)@.heap.update(a as int, ObjectView::Array(views(items@))),
                ..old(self)@
            }),
            final(self).frames == old(self).frames,
    {
        self.heap[a] = Object::Array(items);
        assert(object_views(self.heap@) =~= old(self)@.heap.update(a as int, ObjectView::Array(views(items@))));
    }

    /// Replaces the entries of the dictionary at `d`.
    pub(crate) fn set_dict(&mut self, d: usize, entries: Vec<(ValueKey, Value)>)
        requires
            d < old(self).heap.len(),
        ensures
            final(self)@ == (VmView {
                heap: old(self)@.heap.update(d as int, ObjectView::Dict(entry_views(entries@))),
                ..old(self)@
            }),
            final(self).frames == old(self).frames,
    {
        self.heap[d] = Object::Dict(entries);
        assert(object_views(self.heap@) =~= old(self)@.heap.update(
            d as int,
            ObjectView::Dict(entry_views(entries@)),
        ));
    }
}

/// The pieces of a split as values.
fn text_values(pieces: Vec<String>) -> (r: Vec<Value>)
    ensures
        views(r@) == crate::heap::text_views(pieces@).map_values(|p: Seq<char>| ValueView::String(p)),
{
    let mut r: Vec<Value> = Vec::new();
    let mut i: usize = 0;
    while i < pieces.len()
        invariant
            i <= pieces.len(),
            r.len() == i,
            forall|j: int| 0 <= j < i ==> (#[trigger] r[j])@ == ValueView::String(pieces[j]@),
        decreases pieces.len() - i,
    {
        r.push(Value::String(pieces[i].clone()));
        i = i + 1;
    }
    assert(views(r@) =~= crate::heap::text_views(pieces@).map_values(|p: Seq<char>| ValueView::String(p)));
    r
}

/// The keys of a dictionary as values, in the order of its entries.
fn key_values(entries: &Vec<(ValueKey, Value)>) -> (r: Vec<Value>)
    ensures
        views(r@) == entry_views(entries@).map_values(
            |e: (crate::value::KeyView, ValueView)| crate::value::value_of_key(e.0),
        ),
{
    let mut r: Vec<Value> = Vec::new();
    let mut i: usize = 0;
    while i < entries.len()
        invariant
            i <= entries.len(),
            r.len() == i,
            forall|j: int| 0 <= j < i ==> (#[trigger] r[j])@ == crate::value::value_of_key(entries[j].0@),
        decreases entries.len() - i,
    {
        r.push(entries[i].0.to_value());
        i = i + 1;
    }
    assert(views(r@) =~= entry_views(entries@).map_values(
        |e: (crate::value::KeyView, ValueView)| crate::value::value_of_key(e.0),
    ));
    r
}

/// The values of a dictionary, in the order of its entries.
fn entry_values(entries: &Vec<(ValueKey, Value)>) -> (r: Vec<Value>)
    ensures
        views(r@) == entry_views(entries@).map_values(|e: (crate::value::KeyView, ValueView)| e.1),
{
    let mut r: Vec<Value> = Vec::new();
    let mut i: usize = 0;
    while i < entries.len()
        invariant
            i <= entries.len(),
            r.len() == i,
            forall|j: int| 0 <= j < i ==> (#[trigger] r[j])@ == entries[j].1@,
        decreases entries.len() - i,
    {
        r.push(entries[i].1.duplicate());
        i = i + 1;
    }
    assert(views(r@) =~= entry_views(entries@).map_values(|e: (crate::value::KeyView, ValueView)| e.1));
    r
}

impl VM {
    /// Enters `function` with its arguments on top of the stack and the
    /// callee, or the receiver, in slot `at` below them.
    pub(crate) fn invoke(
        &mut self,
        function: usize,
        argc: usize,
        at: usize,
        upvalues: Vec<usize>,
        keep_receiver: bool,
    ) -> (action: Action)
        requires
            at < old(self).stack.len(),
        ensures
            (final(self)@, action@) == model::invoke(
                old(self)@,
                function,
                argc,
                at as int,
                upvalues@,
                keep_receiver,
            ),
    {
        if function >= self.functions.len() {
            return self.fault(model::NOT_CALLABLE);
        }
        if self.functions[function].arity != argc {
            return self.fault(model::ARITY);
        }
        if !keep_receiver {
            self.stack.remove(at);
            assert(views(self.stack@) =~= old(self)@.stack.remove(at as int));
        }
        self.frames.push(CallFrame { function, ip: 0, base: at, upvalues });
        assert(frame_views(self.frames@) =~= old(self)@.frames.push(
            FrameView { function, ip: 0, base: at, upvalues: upvalues@ },
        ));
        Action::Continue
    }

    /// Runs a built-in on `receiver`; the callee and the arguments are
    /// already off the stack.
    pub(crate) fn call_builtin(&mut self, b: Builtin, receiver: Value, args: Vec<Value>) -> (action: Action)
        ensures
            (final(self)@, action@) == model::call_builtin(old(self)@, b, receiver@, views(args@)),
    {
        match b {
            Builtin::ArrayAdd => {
                if args.len() != 1 {
                    return self.fault(model::ARG_COUNT);
                }
                match self.array_handle(&receiver) {
                    Some(a) => {
                        let ghost before = self@.heap;
                        let v = args[0].duplicate();
                        match &mut self.heap[a] {
                            Object::Array(items) => {
                                items.push(v);
                            },
                            _ => {},
                        }
                        proof {
                            let items = old(self).heap[a as int]->Array_0@;
                            assert(views(items.push(v)) =~= views(items).push(v@));
                            assert(object_views(self.heap@) =~= before.update(
                                a as int,
                                ObjectView::Array(views(items).push(v@)),
                            ));
                        }
                        self.push(Value::Nil);
                        Action::Continue
                    },
                    None => self.fault(model::BAD_RECEIVER),
                }
            },
            Builtin::ArrayClear => {
                if args.len() != 0 {
                    return self.fault(model::ARG_COUNT);
                }
                match self.array_handle(&receiver) {
                    Some(a) => {
                        self.set_array(a, Vec::new());
                        assert(views(Seq::<Value>::empty()) =~= Seq::empty());
                        self.push(Value::Nil);
                        Action::Continue
                    },
                    None => self.fault(model::BAD_RECEIVER),
                }
            },
            Builtin::StringLength => {
                if args.len() != 0 {
                    return self.fault(model::ARG_COUNT);
                }
                match &receiver {
                    Value::String(t) => {
                        let n: usize = t.as_str().unicode_len();
                        self.push(Value::Number(Number::from_count(n)));
                        Action::Continue
                    },
                    _ => self.fault(model::BAD_RECEIVER),
                }
            },
            Builtin::StringSplit => {
                if args.len() != 1 {
                    return self.fault(model::ARG_COUNT);
                }
                match (&receiver, &args[0]) {
                    (Value::String(t), Value::String(separator)) => {
                        let pieces = text_values(crate::text::split_text(t, separator));
                        let id: usize = self.allocate(Object::Array(pieces));
                        self.push(Value::Array(id));
                        Action::Continue
                    },
                    (Value::String(_), _) => self.fault(model::ARG_TYPE),
                    _ => self.fault(model::BAD_RECEIVER),
                }
            },
            Builtin::DictKeys => {
                if args.len() != 0 {
                    return self.fault(model::ARG_COUNT);
                }
                match self.dict_handle(&receiver) {
                    Some(d) => {
                        let keys = match &self.heap[d] {
                            Object::Dict(entries) => key_values(entries),
                            _ => Vec::new(),
                        };
                        let id: usize = self.allocate(Object::Array(keys));
                        self.push(Value::Array(id));
                        Action::Continue
                    },
                    None => self.fault(model::BAD_RECEIVER),
                }
            },
            Builtin::DictValues => {
                if args.len() != 0 {
                    return self.fault(model::ARG_COUNT);
                }
                match self.dict_handle(&receiver) {
                    Some(d) => {
                        let values = match &self.heap[d] {
                            Object::Dict(entries) => entry_values(entries),
                            _ => Vec::new(),
                        };
                        let id: usize = self.allocate(Object::Array(values));
                        self.push(Value::Array(id));
                        Action::Continue
                    },
                    None => self.fault(model::BAD_RECEIVER),
                }
            },
            Builtin::DictClear => {
                if args.len() != 0 {
                    return self.fault(model::ARG_COUNT);
                }
                match self.dict_handle(&receiver) {
                    Some(d) => {
                        self.set_dict(d, Vec::new());
                        assert(entry_views(Seq::<(ValueKey, Value)>::empty()) =~= Seq::empty());
                        self.push(Value::Nil);
                        Action::Continue
                    },
                    None => self.fault(model::BAD_RECEIVER),
                }
            },
        }
    }

    pub(crate) fn op_call(&mut self, argc: usize) -> (action: Action)
        ensures
            (final(self)@, action@) == model::op_call(old(self)@, argc),
    {
        if self.stack.len() <= argc {
            return self.fault(model::STACK_EMPTY);
        }
        let at: usize = self.stack.len() - argc - 1;
        let callee = self.stack[at].duplicate();
        match callee {
            Value::Function(f) => self.invoke(f, argc, at, Vec::new(), false),
            Value::Closure(c) => {
                if c >= self.heap.len() {
                    return self.fault(model::NOT_CALLABLE);
                }
                let target: Option<(usize, Vec<usize>)> = match &self.heap[c] {
                    Object::Closure(closure) => Some((closure.function, copy_cells(&closure.upvalues))),
                    _ => None,
                };
                match target {
                    Some((function, upvalues)) => self.invoke(function, argc, at, upvalues, false),
                    None => self.fault(model::NOT_CALLABLE),
                }
            },
            Value::Class(c) => {
                if !self.is_class(c) {
                    return self.fault(model::NOT_CALLABLE);
                }
                let depth: usize = self.heap.len();
                let constructor: Option<usize> = find_method(
                    &self.heap,
                    c,
                    &model::CONSTRUCTOR.to_string(),
                    depth,
                );
                let id: usize = self.allocate(Object::Instance(Instance { class: c, fields: Vec::new() }));
                proof {
                    assert(field_views(Seq::<(String, Value)>::empty()) =~= Seq::empty());
                }
                self.stack[at] = Value::Instance(id);
                assert(views(self.stack@) =~= old(self)@.stack.update(at as int, ValueView::Instance(id)));
                match constructor {
                    Some(f) => self.invoke(f, argc, at, Vec::new(), true),
                    None => {
                        let ghost before = views(self.stack@);
                        self.stack.truncate(at + 1);
                        assert(views(self.stack@) =~= before.take(at + 1));
                        Action::Continue
                    },
                }
            },
            Value::BoundMethod(b) => {
                if b >= self.heap.len() {
                    return self.fault(model::NOT_CALLABLE);
                }
                let bound: Option<(Value, Method)> = match &self.heap[b] {
                    Object::BoundMethod(bound) => Some((bound.receiver.duplicate(), bound.method)),
                    _ => None,
                };
                match bound {
                    Some((receiver, Method::Function(f))) => {
                        self.stack[at] = receiver;
                        assert(views(self.stack@) =~= old(self)@.stack.update(at as int, receiver@));
                        self.invoke(f, argc, at, Vec::new(), true)
                    },
                    Some((receiver, Method::Builtin(builtin))) => {
                        let args = copy_range(&self.stack, at + 1, self.stack.len());
                        self.stack.truncate(at);
                        assert(views(self.stack@) =~= old(self)@.stack.take(at as int));
                        self.call_builtin(builtin, receiver, args)
                    },
                    None => self.fault(model::NOT_CALLABLE),
                }
            },
            Value::NativeFunction(id) => {
                if id.0 >= self.natives.len() {
                    return self.fault(model::NOT_CALLABLE);
                }
                let args = copy_range(&self.stack, at + 1, self.stack.len());
                self.stack.truncate(at);
                assert(views(self.stack@) =~= old(self)@.stack.take(at as int));
                let kind = self.natives[id.0];
                self.call_native(id, kind, args)
            },
            _ => self.fault(model::NOT_CALLABLE),
        }
    }
}

/// The bounds of a slice of something `len` long, where they are in order
/// and within it.
pub fn slice_bounds(start: &Option<Number>, end: &Option<Number>, len: usize) -> (r: Option<(usize, usize)>)
    ensures
        match r {
            Some((from, to)) => model::slice_bounds(*start, *end, len as nat) == Some((from as int, to as int))
                && from <= to <= len,
            None => model::slice_bounds(*start, *end, len as nat) is None,
        },
{
    let from: usize = match start {
        Some(n) => n.index(),
        None => 0,
    };
    let to: usize = match end {
        Some(n) => n.index(),
        None => len,
    };
    if from > len || to > len || from > to {
        None
    } else {
        Some((from, to))
    }
}

impl VM {
    pub(crate) fn op_get_index(&mut self) -> (action: Action)
        ensures
            (final(self)@, action@) == model::op_get_index(old(self)@),
    {
        if self.stack.len() < 2 {
            return self.fault(model::STACK_EMPTY);
        }
        let object = self.peek(1);
        let index = self.peek(0);
        self.discard(2);
        match (&object, &index) {
            (Value::String(t), Value::Number(n)) => {
                let at: usize = n.index();
                if at < t.as_str().unicode_len() {
                    let piece = t.as_str().substring_char(at, at + 1).to_string();
                    self.push(Value::String(piece));
                    Action::Continue
                } else {
                    self.fault(model::OUT_OF_RANGE)
                }
            },
            (Value::String(t), Value::Range(start, end)) => {
                match slice_bounds(start, end, t.as_str().unicode_len()) {
                    Some((from, to)) => {
                        let piece = t.as_str().substring_char(from, to).to_string();
                        self.push(Value::String(piece));
                        Action::Continue
                    },
                    None => self.fault(model::BAD_SLICE),
                }
            },
            (Value::Array(_), Value::Number(n)) => match self.array_handle(&object) {
                Some(a) => {
                    let at: usize = n.index();
                    let found: Option<Value> = match &self.heap[a] {
                        Object::Array(items) => if at < items.len() {
                            Some(items[at].duplicate())
                        } else {
                            None
                        },
                        _ => None,
                    };
                    match found {
                        Some(v) => {
                            self.push(v);
                            Action::Continue
                        },
                        None => self.fault(model::OUT_OF_RANGE),
                    }
                },
                None => self.fault(model::NOT_INDEXABLE),
            },
            (Value::Array(_), Value::Range(start, end)) => match self.array_handle(&object) {
                Some(a) => {
                    let piece: Option<Vec<Value>> = match &self.heap[a] {
                        Object::Array(items) => match slice_bounds(start, end, items.len()) {
                            Some((from, to)) => Some(copy_range(items, from, to)),
                            None => None,
                        },
                        _ => None,
                    };
                    match piece {
                        Some(items) => {
                            let id: usize = self.allocate(Object::Array(items));
                            self.push(Value::Array(id));
                            Action::Continue
                        },
                        None => self.fault(model::BAD_SLICE),
                    }
                },
                None => self.fault(model::NOT_INDEXABLE),
            },
            (Value::Dict(_), _) => match self.dict_handle(&object) {
                Some(d) => match ValueKey::from_value(&index) {
                    Ok(key) => {
                        let found: Value = match &self.heap[d] {
                            Object::Dict(entries) => match find_key(entries, &key) {
                                Some(at) => entries[at].1.duplicate(),
                                None => Value::Nil,
                            },
                            _ => Value::Nil,
                        };
                        self.push(found);
                        Action::Continue
                    },
                    Err(_) => self.fault(model::KEY_TYPE),
                },
                None => self.fault(model::NOT_INDEXABLE),
            },
            _ => self.fault(model::NOT_INDEXABLE),
        }
    }

    pub(crate) fn op_set_index(&mut self) -> (action: Action)
        ensures
            (final(self)@, action@) == model::op_set_index(old(self)@),
    {
        if self.stack.len() < 3 {
            return self.fault(model::STACK_EMPTY);
        }
        let object = self.peek(2);
        let index = self.peek(1);
        let v = self.peek(0);
        self.discard(3);
        match (&object, &index) {
            (Value::Array(_), Value::Number(n)) => match self.array_handle(&object) {
                Some(a) => {
                    let at: usize = n.index();
                    let ghost before = self@.heap;
                    let ghost items = self.heap[a as int]->Array_0@;
                    let stored: bool = match &mut self.heap[a] {
                        Object::Array(items) => if at < items.len() {
                            items[at] = v;
                            true
                        } else {
                            false
                        },
                        _ => false,
                    };
                    if stored {
                        proof {
                            assert(views(items.update(at as int, v)) =~= views(items).update(at as int, v@));
                            assert(object_views(self.heap@) =~= before.update(
                                a as int,
                                ObjectView::Array(views(items).update(at as int, v@)),
                            ));
                        }
                        Action::Continue
                    } else {
                        assert(object_views(self.heap@) =~= before);
                        self.fault(model::OUT_OF_RANGE)
                    }
                },
                None => self.fault(model::NOT_INDEXABLE),
            },
            (Value::Dict(_), _) => match self.dict_handle(&object) {
                Some(d) => match ValueKey::from_value(&index) {
                    Ok(key) => {
                        let ghost before = self@.heap;
                        let ghost entries = self.heap[d as int]->Dict_0@;
                        match &mut self.heap[d] {
                            Object::Dict(entries) => {
                                set_key(entries, key, v);
                            },
                            _ => {},
                        }
                        proof {
                            assert(object_views(self.heap@) =~= before.update(
                                d as int,
                                ObjectView::Dict(crate::heap::with_entry(entry_views(entries), key@, v@)),
                            ));
                        }
                        Action::Continue
                    },
                    Err(_) => self.fault(model::KEY_TYPE),
                },
                None => self.fault(model::NOT_INDEXABLE),
            },
            _ => self.fault(model::NOT_INDEXABLE),
        }
    }

    pub(crate) fn op_array(&mut self, n: usize) -> (action: Action)
        ensures
            (final(self)@, action@) == model::op_array(old(self)@, n),
    {
        if self.stack.len() < n {
            return self.fault(model::STACK_EMPTY);
        }
        let items = copy_range(&self.stack, self.stack.len() - n, self.stack.len());
        self.discard(n);
        let id: usize = self.allocate(Object::Array(items));
        self.push(Value::Array(id));
        Action::Continue
    }

    pub(crate) fn op_dict(&mut self, n: usize) -> (action: Action)
        ensures
            (final(self)@, action@) == model::op_dict(old(self)@, n),
    {
        if n > self.stack.len() / 2 {
            return self.fault(model::STACK_EMPTY);
        }
        let items = copy_range(&self.stack, self.stack.len() - 2 * n, self.stack.len());
        self.discard(2 * n);
        let ghost all = views(items@);
        let mut entries: Vec<(ValueKey, Value)> = Vec::new();
        let mut i: usize = 0;
        assert(entry_views(entries@) =~= model::dict_from(all, 0));
        while i < n
            invariant
                i <= n,
                items.len() == 2 * n,
                all == views(items@),
                model::keys_valid(all, i as nat),
                old(self)@.stack.len() >= 2 * n,
                all == old(self)@.stack.subrange(old(self)@.stack.len() - 2 * n, old(self)@.stack.len() as int),
                entry_views(entries@) == model::dict_from(all, i as nat),
                self@ == model::popped(old(self)@, 2 * n),
            decreases n - i,
        {
            match ValueKey::from_value(&items[2 * i]) {
                Ok(key) => {
                    set_key(&mut entries, key, items[2 * i + 1].duplicate());
                },
                Err(_) => {
                    assert(crate::value::key_of(all[2 * i]) is None);
                    assert(!model::keys_valid(all, n as nat));
                    return self.fault(model::KEY_TYPE);
                },
            }
            i = i + 1;
        }
        let id: usize = self.allocate(Object::Dict(entries));
        self.push(Value::Dict(id));
        Action::Continue
    }

    pub(crate) fn op_push_handler(&mut self, target: usize) -> (action: Action)
        ensures
            (final(self)@, action@) == model::execute(old(self)@, OpCode::PushExceptionHandler(target)),
    {
        let frame_depth: usize = self.frames.len();
        let stack_depth: usize = self.stack.len();
        self.handlers.push(Handler { target, frame_depth, stack_depth });
        Action::Continue
    }

    pub(crate) fn op_pop_handler(&mut self) -> (action: Action)
        ensures
            (final(self)@, action@) == model::execute(old(self)@, OpCode::PopExceptionHandler),
    {
        if self.handlers.len() > 0 {
            self.handlers.pop();
            assert(self.handlers@ =~= old(self).handlers@.drop_last());
        }
        Action::Continue
    }

    /// The effect of one instruction; the instruction pointer already
    /// points behind it.
    pub(crate) fn execute_op(&mut self, op: OpCode) -> (action: Action)
        requires
            old(self).frames.len() > 0,
        ensures
            (final(self)@, action@) == model::execute(old(self)@, op),
    {
        match op {
            OpCode::Constant(k) => match self.constant(k) {
                Some(v) => {
                    self.push(v);
                    Action::Continue
                },
                None => self.fault(model::BAD_CONSTANT),
            },
            OpCode::Pop => if self.stack.len() == 0 {
                self.fault(model::STACK_EMPTY)
            } else {
                self.discard(1);
                Action::Continue
            },
            OpCode::Dup => if self.stack.len() == 0 {
                self.fault(model::STACK_EMPTY)
            } else {
                let v = self.peek(0);
                self.push(v);
                Action::Continue
            },
            OpCode::Negate => self.op_negate(),
            OpCode::Add => self.op_add(),
            OpCode::Sub => self.op_arithmetic(ArithOp::Sub),
            OpCode::Mul => self.op_arithmetic(ArithOp::Mul),
            OpCode::Div => self.op_arithmetic(ArithOp::Div),
            OpCode::Mod => self.op_arithmetic(ArithOp::Mod),
            OpCode::True_ => {
                self.push(Value::Boolean(true));
                Action::Continue
            },
            OpCode::False_ => {
                self.push(Value::Boolean(false));
                Action::Continue
            },
            OpCode::Eql => self.op_equal(),
            OpCode::Not => self.op_not(),
            OpCode::Greater => self.op_order(false),
            OpCode::Less => self.op_order(true),
            OpCode::DefineLocal(slot) => self.op_store_local(slot),
            OpCode::GetLocal(slot) => self.op_get_local(slot),
            OpCode::SetLocal(slot) => self.op_store_local(slot),
            OpCode::Closure(k, _) => self.op_closure(k),
            OpCode::GetUpvalue(i) => self.op_get_upvalue(i),
            OpCode::SetUpvalue(i) => self.op_set_upvalue(i),
            OpCode::CloseUpvalues(n) => self.op_close_upvalues(n),
            OpCode::Jump(target) => {
                self.set_ip(target);
                Action::Continue
            },
            OpCode::JumpIfTrue(target) => self.op_jump_if(target, true),
            OpCode::JumpIfFalse(target) => self.op_jump_if(target, false),
            OpCode::PushExceptionHandler(target) => self.op_push_handler(target),
            OpCode::PopExceptionHandler => self.op_pop_handler(),
            OpCode::Throw => if self.stack.len() == 0 {
                self.fault(model::STACK_EMPTY)
            } else {
                let v = self.peek(0);
                self.discard(1);
                self.throw(v)
            },
            OpCode::Call(argc) => self.op_call(argc),
            OpCode::Return_ => if self.stack.len() == 0 {
                self.return_value(Value::Nil)
            } else {
                let v = self.peek(0);
                self.discard(1);
                self.return_value(v)
            },
            OpCode::Class => self.op_class(),
            OpCode::Inherit => self.op_inherit(),
            OpCode::DefineMethod(k) => self.op_define_method(k),
            OpCode::GetProperty => self.op_get_property(),
            OpCode::SetProperty => self.op_set_property(),
            OpCode::GetSuper => self.op_get_super(),
            OpCode::GetIndex => self.op_get_index(),
            OpCode::SetIndex => self.op_set_index(),
            OpCode::Array(n) => self.op_array(n),
            OpCode::Dict(n) => self.op_dict(n),
            OpCode::DefineGlobal(k) => self.op_define_global(k),
            OpCode::SetGlobal(k) => self.op_set_global(k),
            OpCode::GetGlobal(k) => self.op_get_global(k),
            OpCode::Halt => Action::Continue,
        }
    }
}

fn computed(kind: NativeKind) -> (r: bool)
    ensures
        r == model::computed(kind),
{
    match kind {
        NativeKind::StrSplit => true,
        NativeKind::StrTrim => true,
        NativeKind::StrReplace => true,
        NativeKind::StrUpper => true,
        NativeKind::StrLower => true,
        NativeKind::StrStartsWith => true,
        _ => false,
    }
}

impl VM {
    /// Calls a native function; the callee and the arguments are already
    /// off the stack.
    pub(crate) fn call_native(&mut self, id: NativeFnId, kind: NativeKind, args: Vec<Value>) -> (action: Action)
        ensures
            (final(self)@, action@) == model::call_native(old(self)@, id.0, kind, views(args@)),
    {
        if computed(kind) {
            self.string_native(kind, args)
        } else {
            self.pending = Pending::Native;
            Action::CallNative { id, kind, args }
        }
    }

    /// Runs a function of the strings module.
    pub(crate) fn string_native(&mut self, kind: NativeKind, args: Vec<Value>) -> (action: Action)
        ensures
            (final(self)@, action@) == model::string_native(old(self)@, kind, views(args@)),
    {
        match kind {
            NativeKind::StrSplit => {
                if args.len() != 2 {
                    return self.fault(model::SPLIT_ARGS);
                }
                match (&args[0], &args[1]) {
                    (Value::String(t), Value::String(separator)) => {
                        let pieces = text_values(crate::text::split_text(t, separator));
                        let id: usize = self.allocate(Object::Array(pieces));
                        self.push(Value::Array(id));
                        Action::Continue
                    },
                    (Value::String(_), _) => self.fault(model::SEPARATOR_NOT_TEXT),
                    _ => self.fault(model::FIRST_NOT_TEXT),
                }
            },
            NativeKind::StrTrim => {
                if args.len() != 1 {
                    return self.fault(model::TRIM_ARGS);
                }
                match &args[0] {
                    Value::String(t) => {
                        self.push(Value::String(crate::text::trim_text(t)));
                        Action::Continue
                    },
                    _ => self.fault(model::NOT_TEXT),
                }
            },
            NativeKind::StrReplace => {
                if args.len() != 3 {
                    return self.fault(model::REPLACE_ARGS);
                }
                match (&args[0], &args[1], &args[2]) {
                    (Value::String(t), Value::String(from), Value::String(to)) => {
                        self.push(Value::String(crate::text::replace_text(t, from, to)));
                        Action::Continue
                    },
                    (Value::String(_), Value::String(_), _) => self.fault(model::THIRD_NOT_TEXT),
                    (Value::String(_), _, _) => self.fault(model::SECOND_NOT_TEXT),
                    _ => self.fault(model::FIRST_NOT_TEXT),
                }
            },
            NativeKind::StrUpper => {
                if args.len() != 1 {
                    return self.fault(model::UPPER_ARGS);
                }
                match &args[0] {
                    Value::String(t) => {
                        self.push(Value::String(crate::text::upper_text(t)));
                        Action::Continue
                    },
                    _ => self.fault(model::NOT_TEXT),
                }
            },
            NativeKind::StrLower => {
                if args.len() != 1 {
                    return self.fault(model::LOWER_ARGS);
                }
                match &args[0] {
                    Value::String(t) => {
                        self.push(Value::String(crate::text::lower_text(t)));
                        Action::Continue
                    },
                    _ => self.fault(model::NOT_TEXT),
                }
            },
            NativeKind::StrStartsWith => {
                if args.len() != 2 {
                    return self.fault(model::STARTS_ARGS);
                }
                match (&args[0], &args[1]) {
                    (Value::String(t), Value::String(start)) => {
                        self.push(Value::Boolean(crate::text::starts_with(t.as_str(), start.as_str())));
                        Action::Continue
                    },
                    (Value::String(_), _) => self.fault(model::SECOND_NOT_TEXT),
                    _ => self.fault(model::FIRST_NOT_TEXT),
                }
            },
            _ => Action::Continue,
        }
    }
}

} // verus!
