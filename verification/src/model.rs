//! The machine as mathematics: its state as sequences of plain values, and
//! one step of it as a function from state to state and action.

use vstd::prelude::*;
use crate::heap::{lookup, with_entry, Builtin, Method, ObjectView, UpvalueView};
use crate::number::Number;
use crate::opcode::OpCode;
use crate::value::{key_of, value_of_key, FunctionView, KeyView, UpvalueDescriptor, ValueView};

verus! {

/// A host function that a program can reach through a native module.
#[derive(Clone, Copy, Debug, PartialEq, Eq, Structural)]
pub enum NativeKind {
    IoPrint,
    IoInput,
    FsRead,
    FsWrite,
    FsExists,
    FsDelete,
    SysExecute,
    EnvGet,
    EnvSet,
    SysArgs,
    StrSplit,
    StrTrim,
    StrReplace,
    StrUpper,
    StrLower,
    StrStartsWith,
    JsonParse,
    JsonStringify,
    NetRequest,
    NetGet,
    NetRequestJson,
}

/// The arithmetic that the machine leaves to its host.
#[derive(Clone, Copy, Debug, PartialEq, Eq, Structural)]
pub enum ArithOp {
    Add,
    Sub,
    Mul,
    Div,
    Mod,
}

/// A registered try-block: where to land, and the depths to restore.
#[derive(Clone, Copy, Debug, PartialEq, Eq, Structural)]
pub struct Handler {
    pub target: usize,
    pub frame_depth: usize,
    pub stack_depth: usize,
}

pub struct FrameView {
    pub function: usize,
    pub ip: usize,
    pub base: usize,
    pub upvalues: Seq<usize>,
}

/// What the machine waits for from its host.
pub enum PendingView {
    Idle,
    /// The result of an arithmetic operation.
    Arithmetic,
    /// The text of a number, to be put behind this text.
    TextAfter(Seq<char>),
    /// The text of a number, to be put before this text.
    TextBefore(Seq<char>),
    /// The result of a native call.
    Native,
}

pub struct VmView {
    pub stack: Seq<ValueView>,
    pub globals: Seq<(Seq<char>, ValueView)>,
    pub frames: Seq<FrameView>,
    pub handlers: Seq<Handler>,
    pub functions: Seq<FunctionView>,
    pub heap: Seq<ObjectView>,
    pub cells: Seq<UpvalueView>,
    pub open_upvalues: Seq<usize>,
    pub natives: Seq<NativeKind>,
    pub pending: PendingView,
}

/// What a step asks of whoever drives the machine.
pub enum ActionView {
    /// Nothing: take the next step.
    Continue,
    /// Compute `left op right` and hand the number back.
    Arithmetic { op: ArithOp, left: Number, right: Number },
    /// Write the number out as text and hand the text back.
    Format { number: Number },
    /// Run the host function and hand its result back.
    CallNative { id: usize, kind: NativeKind, args: Seq<ValueView> },
    /// An earlier request is still unanswered.
    Waiting,
    /// The root frame has ended.
    Finished,
    /// A value was thrown and no handler was registered.
    Uncaught(ValueView),
}

/// What the host hands back.
pub enum ReplyView {
    Number(Number),
    Text(Seq<char>),
    Native(Result<ValueView, Seq<char>>),
}

pub type Step = (VmView, ActionView);

pub const STACK_EMPTY: &'static str = "Стек пуст";
pub const BAD_CONSTANT: &'static str = "Неверный индекс в пуле констант";
pub const BAD_OPERAND: &'static str = "После инструкции ожидалась константа с именем";
pub const NOT_A_NUMBER: &'static str = "Операнд не является числом";
pub const NOT_A_BOOLEAN: &'static str = "Значение не булевого типа";
pub const ADD_TYPES: &'static str = "Оператор + поддерживает только числа и строки";
pub const NOT_COMPARABLE: &'static str = "Значения нельзя сравнить";
pub const STACK_OVERFLOW: &'static str = "Переполнение стека";
pub const BAD_UPVALUE: &'static str = "Неверная ссылка на захваченную переменную";
pub const NOT_A_FUNCTION: &'static str = "Ожидалась функция в пуле констант";
pub const NOT_CALLABLE: &'static str = "Попытка вызвать не-функцию";
pub const ARITY: &'static str = "Неверное количество аргументов";
pub const NOT_A_CLASS: &'static str = "Ожидался класс";
pub const NOT_AN_INSTANCE: &'static str = "Ожидался экземпляр класса";
pub const NO_PROPERTY: &'static str = "Свойство не найдено";
pub const NO_SUPER: &'static str = "Метод не найден в родительском классе";
pub const NOT_INDEXABLE: &'static str = "Индексирование не поддерживается для данных типов";
pub const OUT_OF_RANGE: &'static str = "Индекс вне диапазона";
pub const BAD_SLICE: &'static str = "Некорректные границы среза";
pub const GLOBAL_DEFINED: &'static str = "Глобальная переменная уже определена";
pub const GLOBAL_MISSING: &'static str = "Глобальная переменная не найдена";
pub const BAD_RECEIVER: &'static str = "Метод вызван на значении неподходящего типа";
pub const ARG_COUNT: &'static str = "Неверное количество аргументов метода";
pub const ARG_TYPE: &'static str = "Аргумент метода должен быть строкой";
pub const KEY_TYPE: &'static str = "Ключом словаря может быть только число, строка или булево значение";

/// The name under which a class files its constructor.
pub const CONSTRUCTOR: &'static str = "конструктор";

pub const ARRAY_ADD: &'static str = "добавить";
pub const CLEAR: &'static str = "очистить";
pub const STRING_LENGTH: &'static str = "длина";
pub const STRING_SPLIT: &'static str = "разделить";
pub const DICT_KEYS: &'static str = "ключи";
pub const DICT_VALUES: &'static str = "значения";

/// The pieces of `text` between occurrences of `separator`, as splitting a
/// string by a string pattern gives them.
pub uninterp spec fn split_pieces(text: Seq<char>, separator: Seq<char>) -> Seq<Seq<char>>;

// ---------------------------------------------------------------------------
// Values
// ---------------------------------------------------------------------------

/// Everything but `false` and `Nil` counts as true.
pub open spec fn truthy(v: ValueView) -> bool {
    !(v == ValueView::Boolean(false) || v == ValueView::Nil)
}

/// Equality of the optional ends of two ranges.
pub open spec fn bounds_equal(a: Option<Number>, b: Option<Number>) -> bool {
    match (a, b) {
        (None, None) => true,
        (Some(x), Some(y)) => x.equals(y),
        _ => false,
    }
}

/// The language's `==`: by content on primitives and ranges, element by
/// element on arrays and dictionaries, by identity on everything else.
/// `depth` bounds how far into nested containers the comparison goes.
pub open spec fn values_equal(heap: Seq<ObjectView>, a: ValueView, b: ValueView, depth: nat) -> bool
    decreases depth, 0nat,
{
    match (a, b) {
        (ValueView::Number(x), ValueView::Number(y)) => x.equals(y),
        (ValueView::String(x), ValueView::String(y)) => x == y,
        (ValueView::Boolean(x), ValueView::Boolean(y)) => x == y,
        (ValueView::Nil, ValueView::Nil) => true,
        (ValueView::Range(s1, e1), ValueView::Range(s2, e2)) => bounds_equal(s1, s2) && bounds_equal(
            e1,
            e2,
        ),
        (ValueView::Function(x), ValueView::Function(y)) => x == y,
        (ValueView::NativeFunction(x), ValueView::NativeFunction(y)) => x == y,
        (ValueView::Closure(x), ValueView::Closure(y)) => x == y,
        (ValueView::Class(x), ValueView::Class(y)) => x == y,
        (ValueView::Instance(x), ValueView::Instance(y)) => x == y,
        (ValueView::BoundMethod(x), ValueView::BoundMethod(y)) => x == y,
        (ValueView::Array(x), ValueView::Array(y)) => {
            &&& depth > 0
            &&& x < heap.len()
            &&& y < heap.len()
            &&& heap[x as int] matches ObjectView::Array(xs)
            &&& heap[y as int] matches ObjectView::Array(ys)
            &&& xs.len() == ys.len()
            &&& forall|i: int|
                0 <= i < xs.len() ==> values_equal(heap, #[trigger] xs[i], ys[i], (depth - 1) as nat)
        },
        (ValueView::Dict(x), ValueView::Dict(y)) => {
            &&& depth > 0
            &&& x < heap.len()
            &&& y < heap.len()
            &&& heap[x as int] matches ObjectView::Dict(xs)
            &&& heap[y as int] matches ObjectView::Dict(ys)
            &&& xs.len() == ys.len()
            &&& forall|i: int|
                0 <= i < xs.len() ==> entry_matched(heap, #[trigger] xs[i], ys, (depth - 1) as nat)
        },
        _ => false,
    }
}

/// Whether `others` files an equal value under the key of `entry`.
pub open spec fn entry_matched(
    heap: Seq<ObjectView>,
    entry: (KeyView, ValueView),
    others: Seq<(KeyView, ValueView)>,
    depth: nat,
) -> bool
    decreases depth, 1nat,
{
    match lookup(others, entry.0) {
        Some(j) => values_equal(heap, entry.1, others[j].1, depth),
        None => false,
    }
}

/// Lexicographic `>` on strings, code point by code point.
pub open spec fn text_exceeds(a: Seq<char>, b: Seq<char>) -> bool
    decreases a.len(),
{
    if a.len() == 0 {
        false
    } else if b.len() == 0 {
        true
    } else if a[0] != b[0] {
        a[0] as u32 > b[0] as u32
    } else {
        text_exceeds(a.drop_first(), b.drop_first())
    }
}

/// The language's `>` where the two values can be ordered at all.
pub open spec fn exceeds(a: ValueView, b: ValueView) -> Option<bool> {
    match (a, b) {
        (ValueView::Number(x), ValueView::Number(y)) => Some(x.exceeds(y)),
        (ValueView::String(x), ValueView::String(y)) => Some(text_exceeds(x, y)),
        (ValueView::Boolean(x), ValueView::Boolean(y)) => Some(x && !y),
        _ => None,
    }
}

// ---------------------------------------------------------------------------
// State helpers
// ---------------------------------------------------------------------------

pub open spec fn pushed(s: VmView, v: ValueView) -> VmView {
    VmView { stack: s.stack.push(v), ..s }
}

pub open spec fn popped(s: VmView, n: int) -> VmView {
    VmView { stack: s.stack.take(s.stack.len() - n), ..s }
}

/// The value `depth` places below the top of the stack.
pub open spec fn peek(s: VmView, depth: int) -> ValueView {
    s.stack[s.stack.len() - 1 - depth]
}

pub open spec fn frame(s: VmView) -> FrameView {
    s.frames.last()
}

pub open spec fn with_ip(s: VmView, ip: usize) -> VmView {
    VmView { frames: s.frames.update(s.frames.len() - 1, FrameView { ip, ..frame(s) }), ..s }
}

/// The instructions of a function; none where the table has no such function.
pub open spec fn code_of(s: VmView, function: usize) -> Seq<OpCode> {
    if function < s.functions.len() {
        s.functions[function as int].opcodes
    } else {
        Seq::empty()
    }
}

/// Entry `k` of the running function's constant pool.
pub open spec fn constant_at(s: VmView, k: usize) -> Option<ValueView> {
    let f = frame(s).function;
    if f < s.functions.len() && k < s.functions[f as int].constants.len() {
        Some(s.functions[f as int].constants[k as int])
    } else {
        None
    }
}

/// Entry `k` of the pool where it is a string.
pub open spec fn name_at(s: VmView, k: usize) -> Option<Seq<char>> {
    match constant_at(s, k) {
        Some(ValueView::String(name)) => Some(name),
        _ => None,
    }
}

/// The name that the instruction at the current position carries as a
/// trailing `Constant`.
pub open spec fn operand_name(s: VmView) -> Option<Seq<char>> {
    let code = code_of(s, frame(s).function);
    let ip = frame(s).ip;
    if ip < code.len() {
        match code[ip as int] {
            OpCode::Constant(k) => name_at(s, k),
            _ => None,
        }
    } else {
        None
    }
}

/// The state with `object` added to the heap; its handle is the old length.
pub open spec fn allocated(s: VmView, object: ObjectView) -> VmView {
    VmView { heap: s.heap.push(object), ..s }
}

// ---------------------------------------------------------------------------
// Upvalues
// ---------------------------------------------------------------------------

pub open spec fn slot_value(stack: Seq<ValueView>, slot: int) -> ValueView {
    if 0 <= slot < stack.len() {
        stack[slot]
    } else {
        ValueView::Nil
    }
}

/// A cell after the slots at or above `threshold` went out of scope.
pub open spec fn closed_cell(cell: UpvalueView, stack: Seq<ValueView>, threshold: int) -> UpvalueView {
    match cell {
        UpvalueView::Open(slot) => if slot >= threshold {
            UpvalueView::Closed(slot_value(stack, slot as int))
        } else {
            cell
        },
        _ => cell,
    }
}

/// The cells after every cell on the open list that points at or above
/// `threshold` was closed over the value in its slot.
pub open spec fn closed_cells(
    cells: Seq<UpvalueView>,
    open: Seq<usize>,
    stack: Seq<ValueView>,
    threshold: int,
) -> Seq<UpvalueView>
    decreases open.len(),
{
    if open.len() == 0 {
        cells
    } else {
        let rest = closed_cells(cells, open.drop_last(), stack, threshold);
        let c = open.last();
        if c < rest.len() {
            rest.update(c as int, closed_cell(rest[c as int], stack, threshold))
        } else {
            rest
        }
    }
}

pub open spec fn close_from(s: VmView, threshold: int) -> VmView {
    VmView { cells: closed_cells(s.cells, s.open_upvalues, s.stack, threshold), ..s }
}

/// Whether entry `i` of the open list is a cell that is open on `slot`.
pub open spec fn open_on(cells: Seq<UpvalueView>, open: Seq<usize>, slot: usize, i: int) -> bool {
    &&& 0 <= i < open.len()
    &&& open[i] < cells.len()
    &&& cells[open[i] as int] == UpvalueView::Open(slot)
}

/// Whether `i` is the first entry of the open list that is open on `slot`.
pub open spec fn first_open_on(cells: Seq<UpvalueView>, open: Seq<usize>, slot: usize, i: int) -> bool {
    &&& open_on(cells, open, slot, i)
    &&& forall|j: int| 0 <= j < i ==> !open_on(cells, open, slot, j)
}

/// The cell that captures `slot`: the first one on the open list that is
/// open on it, or a new one.
pub open spec fn captured(s: VmView, slot: usize) -> (VmView, usize) {
    if exists|i: int| first_open_on(s.cells, s.open_upvalues, slot, i) {
        let i = choose|i: int| first_open_on(s.cells, s.open_upvalues, slot, i);
        (s, s.open_upvalues[i])
    } else {
        (
            VmView {
                cells: s.cells.push(UpvalueView::Open(slot)),
                open_upvalues: s.open_upvalues.push(s.cells.len() as usize),
                ..s
            },
            s.cells.len() as usize,
        )
    }
}

/// Whether a closure can be made from these descriptors in the current frame.
pub open spec fn capturable(s: VmView, descriptors: Seq<UpvalueDescriptor>) -> bool {
    forall|i: int|
        0 <= i < descriptors.len() ==> {
            let d = #[trigger] descriptors[i];
            if d.is_local {
                frame(s).base + d.index <= usize::MAX
            } else {
                d.index < frame(s).upvalues.len()
            }
        }
}

/// The state and the cells after the first `n` descriptors were captured.
pub open spec fn captured_all(s: VmView, descriptors: Seq<UpvalueDescriptor>, n: nat) -> (
    VmView,
    Seq<usize>,
)
    decreases n,
{
    if n == 0 {
        (s, Seq::empty())
    } else {
        let (before, cells) = captured_all(s, descriptors, (n - 1) as nat);
        let d = descriptors[n - 1];
        if d.is_local {
            let (after, cell) = captured(before, (frame(s).base + d.index) as usize);
            (after, cells.push(cell))
        } else {
            (before, cells.push(frame(s).upvalues[d.index as int]))
        }
    }
}

// ---------------------------------------------------------------------------
// Exceptions and returns
// ---------------------------------------------------------------------------

/// The handlers that remain when only `depth` frames are left: those that a
/// deeper frame registered are gone.
pub open spec fn live_handlers(handlers: Seq<Handler>, depth: nat) -> Seq<Handler>
    decreases handlers.len(),
{
    if handlers.len() > 0 && handlers.last().frame_depth > depth {
        live_handlers(handlers.drop_last(), depth)
    } else {
        handlers
    }
}

/// The state after frames were popped until at most `depth` are left, the
/// upvalues of each popped frame closed.
pub open spec fn unwound(s: VmView, depth: nat) -> VmView
    decreases s.frames.len(),
{
    if s.frames.len() > depth {
        unwound(VmView { frames: s.frames.drop_last(), ..close_from(s, frame(s).base as int) }, depth)
    } else {
        s
    }
}

/// The state in which a run ends that nothing caught: no frames, no
/// operands, no handlers, every upvalue closed.
pub open spec fn aborted(s: VmView) -> VmView {
    VmView {
        stack: Seq::empty(),
        frames: Seq::empty(),
        handlers: Seq::empty(),
        pending: PendingView::Idle,
        ..close_from(s, 0)
    }
}

/// Throwing `v`: control goes to the innermost handler, with the frames and
/// operands above it gone; with no handler the run ends.
pub open spec fn throw(s: VmView, v: ValueView) -> Step {
    if s.handlers.len() == 0 {
        (aborted(s), ActionView::Uncaught(v))
    } else {
        let h = s.handlers.last();
        let u = unwound(VmView { handlers: s.handlers.drop_last(), ..s }, h.frame_depth as nat);
        if u.frames.len() == 0 {
            (aborted(u), ActionView::Uncaught(v))
        } else {
            let kept = if h.stack_depth <= u.stack.len() {
                u.stack.take(h.stack_depth as int)
            } else {
                u.stack
            };
            (with_ip(VmView { stack: kept.push(v), ..u }, h.target), ActionView::Continue)
        }
    }
}

/// A runtime error: a throw of its message.
pub open spec fn fault(s: VmView, message: Seq<char>) -> Step {
    throw(s, ValueView::String(message))
}

/// Leaving the current frame with `v`: the cells of its slots are closed,
/// the stack is cut back to the frame's base, and `v` is pushed.
pub open spec fn return_value(s: VmView, v: ValueView) -> Step {
    let base = frame(s).base;
    let closed = close_from(s, base as int);
    let frames = s.frames.drop_last();
    let kept = if base <= s.stack.len() {
        s.stack.take(base as int)
    } else {
        s.stack
    };
    (
        VmView {
            stack: kept.push(v),
            frames,
            handlers: live_handlers(s.handlers, frames.len()),
            ..closed
        },
        if frames.len() == 0 {
            ActionView::Finished
        } else {
            ActionView::Continue
        },
    )
}

/// The root frame running off its end: only the value on top stays.
pub open spec fn finish(s: VmView) -> Step {
    let base = frame(s).base;
    let closed = close_from(s, base as int);
    let stack = if s.stack.len() > base {
        s.stack.take(base as int).push(s.stack.last())
    } else {
        s.stack
    };
    (
        VmView { stack, frames: Seq::empty(), handlers: Seq::empty(), ..closed },
        ActionView::Finished,
    )
}

// ---------------------------------------------------------------------------
// Locals
// ---------------------------------------------------------------------------

/// The stack with `v` in slot `index`, grown with `Nil` where it was shorter.
pub open spec fn stored(stack: Seq<ValueView>, index: int, v: ValueView) -> Seq<ValueView> {
    if index < stack.len() {
        stack.update(index, v)
    } else {
        stack + Seq::new((index - stack.len()) as nat, |i: int| ValueView::Nil).push(v)
    }
}

pub open spec fn op_store_local(s: VmView, slot: usize) -> Step {
    if s.stack.len() == 0 {
        fault(s, STACK_EMPTY@)
    } else {
        let v = s.stack.last();
        let s1 = popped(s, 1);
        let index = frame(s).base + slot;
        if index >= usize::MAX {
            fault(s1, STACK_OVERFLOW@)
        } else {
            (VmView { stack: stored(s1.stack, index, v), ..s1 }, ActionView::Continue)
        }
    }
}

pub open spec fn op_get_upvalue(s: VmView, i: usize) -> Step {
    if i >= frame(s).upvalues.len() || frame(s).upvalues[i as int] >= s.cells.len() {
        fault(s, BAD_UPVALUE@)
    } else {
        match s.cells[frame(s).upvalues[i as int] as int] {
            UpvalueView::Open(slot) => (pushed(s, slot_value(s.stack, slot as int)), ActionView::Continue),
            UpvalueView::Closed(v) => (pushed(s, v), ActionView::Continue),
        }
    }
}

pub open spec fn op_set_upvalue(s: VmView, i: usize) -> Step {
    if s.stack.len() == 0 {
        fault(s, STACK_EMPTY@)
    } else {
        let v = s.stack.last();
        let s1 = popped(s, 1);
        if i >= frame(s).upvalues.len() || frame(s).upvalues[i as int] >= s.cells.len() {
            fault(s1, BAD_UPVALUE@)
        } else {
            let c = frame(s).upvalues[i as int];
            match s.cells[c as int] {
                UpvalueView::Open(slot) => if slot < s1.stack.len() {
                    (VmView { stack: s1.stack.update(slot as int, v), ..s1 }, ActionView::Continue)
                } else {
                    fault(s1, BAD_UPVALUE@)
                },
                UpvalueView::Closed(_) => (
                    VmView { cells: s1.cells.update(c as int, UpvalueView::Closed(v)), ..s1 },
                    ActionView::Continue,
                ),
            }
        }
    }
}

pub open spec fn op_closure(s: VmView, k: usize) -> Step {
    match constant_at(s, k) {
        Some(ValueView::Function(f)) => if f >= s.functions.len() {
            fault(s, NOT_A_FUNCTION@)
        } else {
            let descriptors = s.functions[f as int].upvalue_descriptors;
            if !capturable(s, descriptors) {
                fault(s, BAD_UPVALUE@)
            } else {
                let (s1, upvalues) = captured_all(s, descriptors, descriptors.len());
                (
                    pushed(
                        allocated(s1, ObjectView::Closure { function: f, upvalues }),
                        ValueView::Closure(s1.heap.len() as usize),
                    ),
                    ActionView::Continue,
                )
            }
        },
        _ => fault(s, NOT_A_FUNCTION@),
    }
}

// ---------------------------------------------------------------------------
// Arithmetic and logic
// ---------------------------------------------------------------------------

pub open spec fn op_negate(s: VmView) -> Step {
    if s.stack.len() == 0 {
        fault(s, STACK_EMPTY@)
    } else {
        match s.stack.last() {
            ValueView::Number(n) => (pushed(popped(s, 1), ValueView::Number(n.negated())), ActionView::Continue),
            _ => fault(popped(s, 1), NOT_A_NUMBER@),
        }
    }
}

pub open spec fn op_not(s: VmView) -> Step {
    if s.stack.len() == 0 {
        fault(s, STACK_EMPTY@)
    } else {
        match s.stack.last() {
            ValueView::Boolean(b) => (pushed(popped(s, 1), ValueView::Boolean(!b)), ActionView::Continue),
            _ => fault(popped(s, 1), NOT_A_BOOLEAN@),
        }
    }
}

pub open spec fn op_add(s: VmView) -> Step {
    if s.stack.len() < 2 {
        fault(s, STACK_EMPTY@)
    } else {
        let s2 = popped(s, 2);
        match (peek(s, 1), peek(s, 0)) {
            (ValueView::String(a), ValueView::String(b)) => (pushed(s2, ValueView::String(a + b)), ActionView::Continue),
            (ValueView::Number(a), ValueView::Number(b)) => (
                VmView { pending: PendingView::Arithmetic, ..s2 },
                ActionView::Arithmetic { op: ArithOp::Add, left: a, right: b },
            ),
            (ValueView::Number(n), ValueView::String(t)) => (
                VmView { pending: PendingView::TextBefore(t), ..s2 },
                ActionView::Format { number: n },
            ),
            (ValueView::String(t), ValueView::Number(n)) => (
                VmView { pending: PendingView::TextAfter(t), ..s2 },
                ActionView::Format { number: n },
            ),
            _ => fault(s2, ADD_TYPES@),
        }
    }
}

pub open spec fn op_arithmetic(s: VmView, op: ArithOp) -> Step {
    if s.stack.len() < 2 {
        fault(s, STACK_EMPTY@)
    } else {
        let s2 = popped(s, 2);
        match (peek(s, 1), peek(s, 0)) {
            (ValueView::Number(a), ValueView::Number(b)) => (
                VmView { pending: PendingView::Arithmetic, ..s2 },
                ActionView::Arithmetic { op, left: a, right: b },
            ),
            _ => fault(s2, NOT_A_NUMBER@),
        }
    }
}

pub open spec fn op_equal(s: VmView) -> Step {
    if s.stack.len() < 2 {
        fault(s, STACK_EMPTY@)
    } else {
        (
            pushed(
                popped(s, 2),
                ValueView::Boolean(values_equal(s.heap, peek(s, 1), peek(s, 0), s.heap.len())),
            ),
            ActionView::Continue,
        )
    }
}

/// `Greater` where `swap` is false, `Less` where it is true.
pub open spec fn op_order(s: VmView, swap: bool) -> Step {
    if s.stack.len() < 2 {
        fault(s, STACK_EMPTY@)
    } else {
        let s2 = popped(s, 2);
        let result = if swap {
            exceeds(peek(s, 0), peek(s, 1))
        } else {
            exceeds(peek(s, 1), peek(s, 0))
        };
        match result {
            Some(b) => (pushed(s2, ValueView::Boolean(b)), ActionView::Continue),
            None => fault(s2, NOT_COMPARABLE@),
        }
    }
}

pub open spec fn op_jump_if(s: VmView, target: usize, on_true: bool) -> Step {
    if s.stack.len() == 0 {
        fault(s, STACK_EMPTY@)
    } else if truthy(s.stack.last()) == on_true {
        (with_ip(popped(s, 1), target), ActionView::Continue)
    } else {
        (popped(s, 1), ActionView::Continue)
    }
}

// ---------------------------------------------------------------------------
// Globals
// ---------------------------------------------------------------------------

pub open spec fn op_define_global(s: VmView, k: usize) -> Step {
    match name_at(s, k) {
        None => fault(s, BAD_CONSTANT@),
        Some(name) => if s.stack.len() == 0 {
            fault(s, STACK_EMPTY@)
        } else {
            let s1 = popped(s, 1);
            if lookup(s.globals, name) is Some {
                fault(s1, GLOBAL_DEFINED@)
            } else {
                (VmView { globals: s.globals.push((name, s.stack.last())), ..s1 }, ActionView::Continue)
            }
        },
    }
}

pub open spec fn op_set_global(s: VmView, k: usize) -> Step {
    match name_at(s, k) {
        None => fault(s, BAD_CONSTANT@),
        Some(name) => if s.stack.len() == 0 {
            fault(s, STACK_EMPTY@)
        } else {
            let s1 = popped(s, 1);
            match lookup(s.globals, name) {
                Some(i) => (
                    VmView { globals: s.globals.update(i, (name, s.stack.last())), ..s1 },
                    ActionView::Continue,
                ),
                None => fault(s1, GLOBAL_MISSING@),
            }
        },
    }
}

pub open spec fn op_get_global(s: VmView, k: usize) -> Step {
    match name_at(s, k) {
        None => fault(s, BAD_CONSTANT@),
        Some(name) => match lookup(s.globals, name) {
            Some(i) => (pushed(s, s.globals[i].1), ActionView::Continue),
            None => fault(s, GLOBAL_MISSING@),
        },
    }
}

// ---------------------------------------------------------------------------
// Classes
// ---------------------------------------------------------------------------

/// The function that `class` or the nearest of its ancestors files under
/// `name`. `depth` bounds the length of the parent chain that is walked.
pub open spec fn find_method(heap: Seq<ObjectView>, class: usize, name: Seq<char>, depth: nat) -> Option<
    usize,
>
    decreases depth,
{
    if depth == 0 || class >= heap.len() {
        None
    } else {
        match heap[class as int] {
            ObjectView::Class { methods, parent, .. } => match lookup(methods, name) {
                Some(i) => Some(methods[i].1),
                None => match parent {
                    Some(p) => find_method(heap, p, name, (depth - 1) as nat),
                    None => None,
                },
            },
            _ => None,
        }
    }
}

pub open spec fn is_class(heap: Seq<ObjectView>, c: usize) -> bool {
    c < heap.len() && heap[c as int] is Class
}

pub open spec fn op_class(s: VmView) -> Step {
    match operand_name(s) {
        None => fault(s, BAD_OPERAND@),
        Some(name) => {
            let s1 = with_ip(s, (frame(s).ip + 1) as usize);
            (
                pushed(
                    allocated(
                        s1,
                        ObjectView::Class {
                            name,
                            methods: Seq::empty(),
                            fields: Seq::empty(),
                            parent: None,
                        },
                    ),
                    ValueView::Class(s.heap.len() as usize),
                ),
                ActionView::Continue,
            )
        },
    }
}

pub open spec fn op_inherit(s: VmView) -> Step {
    if s.stack.len() < 2 {
        fault(s, STACK_EMPTY@)
    } else {
        let s1 = popped(s, 1);
        match (peek(s, 1), peek(s, 0)) {
            (ValueView::Class(sub), ValueView::Class(sup)) => if is_class(s.heap, sub) && is_class(
                s.heap,
                sup,
            ) {
                match s.heap[sub as int] {
                    ObjectView::Class { name, methods, fields, parent } => (
                        VmView {
                            heap: s.heap.update(
                                sub as int,
                                ObjectView::Class { name, methods, fields, parent: Some(sup) },
                            ),
                            ..s1
                        },
                        ActionView::Continue,
                    ),
                    _ => fault(s1, NOT_A_CLASS@),
                }
            } else {
                fault(s1, NOT_A_CLASS@)
            },
            _ => fault(s1, NOT_A_CLASS@),
        }
    }
}

/// The function that a value stands for when it is made a method.
pub open spec fn method_function(s: VmView, v: ValueView) -> Option<usize> {
    match v {
        ValueView::Function(f) => Some(f),
        ValueView::Closure(c) => if c < s.heap.len() {
            match s.heap[c as int] {
                ObjectView::Closure { function, .. } => Some(function),
                _ => None,
            }
        } else {
            None
        },
        _ => None,
    }
}

pub open spec fn op_define_method(s: VmView, k: usize) -> Step {
    match name_at(s, k) {
        None => fault(s, BAD_CONSTANT@),
        Some(name) => if s.stack.len() < 2 {
            fault(s, STACK_EMPTY@)
        } else {
            let s1 = popped(s, 1);
            match (peek(s, 1), method_function(s, peek(s, 0))) {
                (ValueView::Class(c), Some(f)) => if c < s.heap.len() {
                    match s.heap[c as int] {
                        ObjectView::Class { name: class_name, methods, fields, parent } => (
                            VmView {
                                heap: s.heap.update(
                                    c as int,
                                    ObjectView::Class {
                                        name: class_name,
                                        methods: with_entry(methods, name, f),
                                        fields,
                                        parent,
                                    },
                                ),
                                ..s1
                            },
                            ActionView::Continue,
                        ),
                        _ => fault(s1, NOT_A_CLASS@),
                    }
                } else {
                    fault(s1, NOT_A_CLASS@)
                },
                (ValueView::Class(_), None) => fault(s1, NOT_A_FUNCTION@),
                _ => fault(s1, NOT_A_CLASS@),
            }
        },
    }
}

/// The built-in that values of this kind carry under `name`.
pub open spec fn builtin_of(v: ValueView, name: Seq<char>) -> Option<Builtin> {
    match v {
        ValueView::Array(_) => if name == ARRAY_ADD@ {
            Some(Builtin::ArrayAdd)
        } else if name == CLEAR@ {
            Some(Builtin::ArrayClear)
        } else {
            None
        },
        ValueView::String(_) => if name == STRING_LENGTH@ {
            Some(Builtin::StringLength)
        } else if name == STRING_SPLIT@ {
            Some(Builtin::StringSplit)
        } else {
            None
        },
        ValueView::Dict(_) => if name == DICT_KEYS@ {
            Some(Builtin::DictKeys)
        } else if name == DICT_VALUES@ {
            Some(Builtin::DictValues)
        } else if name == CLEAR@ {
            Some(Builtin::DictClear)
        } else {
            None
        },
        _ => None,
    }
}

/// Pushing a fresh bound method for `receiver`.
pub open spec fn bind(s: VmView, receiver: ValueView, method: Method) -> Step {
    (
        pushed(
            allocated(s, ObjectView::BoundMethod { receiver, method }),
            ValueView::BoundMethod(s.heap.len() as usize),
        ),
        ActionView::Continue,
    )
}

pub open spec fn op_get_property(s: VmView) -> Step {
    match operand_name(s) {
        None => fault(s, BAD_OPERAND@),
        Some(name) => {
            let s0 = with_ip(s, (frame(s).ip + 1) as usize);
            if s.stack.len() == 0 {
                fault(s0, STACK_EMPTY@)
            } else {
                let receiver = s.stack.last();
                let s1 = popped(s0, 1);
                match receiver {
                    ValueView::Instance(i) => if i < s.heap.len() {
                        match s.heap[i as int] {
                            ObjectView::Instance { class, fields } => match lookup(fields, name) {
                                Some(at) => (pushed(s1, fields[at].1), ActionView::Continue),
                                None => match find_method(s.heap, class, name, s.heap.len()) {
                                    Some(f) => bind(s1, receiver, Method::Function(f)),
                                    None => fault(s1, NO_PROPERTY@),
                                },
                            },
                            _ => fault(s1, NOT_AN_INSTANCE@),
                        }
                    } else {
                        fault(s1, NOT_AN_INSTANCE@)
                    },
                    ValueView::Array(_) | ValueView::String(_) | ValueView::Dict(_) => match builtin_of(
                        receiver,
                        name,
                    ) {
                        Some(b) => bind(s1, receiver, Method::Builtin(b)),
                        None => fault(s1, NO_PROPERTY@),
                    },
                    _ => fault(s1, NOT_AN_INSTANCE@),
                }
            }
        },
    }
}

pub open spec fn op_set_property(s: VmView) -> Step {
    match operand_name(s) {
        None => fault(s, BAD_OPERAND@),
        Some(name) => {
            let s0 = with_ip(s, (frame(s).ip + 1) as usize);
            if s.stack.len() < 2 {
                fault(s0, STACK_EMPTY@)
            } else {
                let s2 = popped(s0, 2);
                match peek(s, 0) {
                    ValueView::Instance(i) => if i < s.heap.len() {
                        match s.heap[i as int] {
                            ObjectView::Instance { class, fields } => (
                                VmView {
                                    heap: s.heap.update(
                                        i as int,
                                        ObjectView::Instance {
                                            class,
                                            fields: with_entry(fields, name, peek(s, 1)),
                                        },
                                    ),
                                    ..s2
                                },
                                ActionView::Continue,
                            ),
                            _ => fault(s2, NOT_AN_INSTANCE@),
                        }
                    } else {
                        fault(s2, NOT_AN_INSTANCE@)
                    },
                    _ => fault(s2, NOT_AN_INSTANCE@),
                }
            }
        },
    }
}

pub open spec fn op_get_super(s: VmView) -> Step {
    match operand_name(s) {
        None => fault(s, BAD_OPERAND@),
        Some(name) => {
            let s0 = with_ip(s, (frame(s).ip + 1) as usize);
            match slot_value(s.stack, frame(s).base as int) {
                ValueView::Instance(i) => if i < s.heap.len() {
                    match s.heap[i as int] {
                        ObjectView::Instance { class, .. } => if class < s.heap.len() {
                            match s.heap[class as int] {
                                ObjectView::Class { parent: Some(p), .. } => match find_method(
                                    s.heap,
                                    p,
                                    name,
                                    s.heap.len(),
                                ) {
                                    Some(f) => bind(s0, ValueView::Instance(i), Method::Function(f)),
                                    None => fault(s0, NO_SUPER@),
                                },
                                _ => fault(s0, NO_SUPER@),
                            }
                        } else {
                            fault(s0, NO_SUPER@)
                        },
                        _ => fault(s0, NOT_AN_INSTANCE@),
                    }
                } else {
                    fault(s0, NOT_AN_INSTANCE@)
                },
                _ => fault(s0, NOT_AN_INSTANCE@),
            }
        },
    }
}

// ---------------------------------------------------------------------------
// Calls
// ---------------------------------------------------------------------------

/// Entering `function` with its `argc` arguments on top of the stack and
/// the callee, or the receiver, in slot `at` below them.
pub open spec fn invoke(
    s: VmView,
    function: usize,
    argc: usize,
    at: int,
    upvalues: Seq<usize>,
    keep_receiver: bool,
) -> Step {
    if function >= s.functions.len() {
        fault(s, NOT_CALLABLE@)
    } else if s.functions[function as int].arity != argc {
        fault(s, ARITY@)
    } else {
        (
            VmView {
                stack: if keep_receiver {
                    s.stack
                } else {
                    s.stack.remove(at)
                },
                frames: s.frames.push(
                    FrameView { function, ip: 0, base: at as usize, upvalues },
                ),
                ..s
            },
            ActionView::Continue,
        )
    }
}

/// Running a built-in on `receiver`; the callee and the arguments are
/// already off the stack.
pub open spec fn call_builtin(s: VmView, b: Builtin, receiver: ValueView, args: Seq<ValueView>) -> Step {
    match b {
        Builtin::ArrayAdd => if args.len() != 1 {
            fault(s, ARG_COUNT@)
        } else {
            match array_of(s, receiver) {
                Some((a, items)) => (
                    pushed(
                        VmView { heap: s.heap.update(a as int, ObjectView::Array(items.push(args[0]))), ..s },
                        ValueView::Nil,
                    ),
                    ActionView::Continue,
                ),
                None => fault(s, BAD_RECEIVER@),
            }
        },
        Builtin::ArrayClear => if args.len() != 0 {
            fault(s, ARG_COUNT@)
        } else {
            match array_of(s, receiver) {
                Some((a, _)) => (
                    pushed(
                        VmView { heap: s.heap.update(a as int, ObjectView::Array(Seq::empty())), ..s },
                        ValueView::Nil,
                    ),
                    ActionView::Continue,
                ),
                None => fault(s, BAD_RECEIVER@),
            }
        },
        Builtin::StringLength => if args.len() != 0 {
            fault(s, ARG_COUNT@)
        } else {
            match receiver {
                ValueView::String(t) => (
                    pushed(s, ValueView::Number(Number::of_count(t.len()))),
                    ActionView::Continue,
                ),
                _ => fault(s, BAD_RECEIVER@),
            }
        },
        Builtin::StringSplit => if args.len() != 1 {
            fault(s, ARG_COUNT@)
        } else {
            match (receiver, args[0]) {
                (ValueView::String(t), ValueView::String(sep)) => (
                    pushed(
                        allocated(
                            s,
                            ObjectView::Array(
                                split_pieces(t, sep).map_values(|p: Seq<char>| ValueView::String(p)),
                            ),
                        ),
                        ValueView::Array(s.heap.len() as usize),
                    ),
                    ActionView::Continue,
                ),
                (ValueView::String(_), _) => fault(s, ARG_TYPE@),
                _ => fault(s, BAD_RECEIVER@),
            }
        },
        Builtin::DictKeys => if args.len() != 0 {
            fault(s, ARG_COUNT@)
        } else {
            match dict_of(s, receiver) {
                Some((_, entries)) => (
                    pushed(
                        allocated(
                            s,
                            ObjectView::Array(
                                entries.map_values(|e: (KeyView, ValueView)| value_of_key(e.0)),
                            ),
                        ),
                        ValueView::Array(s.heap.len() as usize),
                    ),
                    ActionView::Continue,
                ),
                None => fault(s, BAD_RECEIVER@),
            }
        },
        Builtin::DictValues => if args.len() != 0 {
            fault(s, ARG_COUNT@)
        } else {
            match dict_of(s, receiver) {
                Some((_, entries)) => (
                    pushed(
                        allocated(s, ObjectView::Array(entries.map_values(|e: (KeyView, ValueView)| e.1))),
                        ValueView::Array(s.heap.len() as usize),
                    ),
                    ActionView::Continue,
                ),
                None => fault(s, BAD_RECEIVER@),
            }
        },
        Builtin::DictClear => if args.len() != 0 {
            fault(s, ARG_COUNT@)
        } else {
            match dict_of(s, receiver) {
                Some((d, _)) => (
                    pushed(
                        VmView { heap: s.heap.update(d as int, ObjectView::Dict(Seq::empty())), ..s },
                        ValueView::Nil,
                    ),
                    ActionView::Continue,
                ),
                None => fault(s, BAD_RECEIVER@),
            }
        },
    }
}

/// The handle and the items of the array that `v` names.
pub open spec fn array_of(s: VmView, v: ValueView) -> Option<(usize, Seq<ValueView>)> {
    match v {
        ValueView::Array(a) => if a < s.heap.len() {
            match s.heap[a as int] {
                ObjectView::Array(items) => Some((a, items)),
                _ => None,
            }
        } else {
            None
        },
        _ => None,
    }
}

/// The handle and the entries of the dictionary that `v` names.
pub open spec fn dict_of(s: VmView, v: ValueView) -> Option<(usize, Seq<(KeyView, ValueView)>)> {
    match v {
        ValueView::Dict(d) => if d < s.heap.len() {
            match s.heap[d as int] {
                ObjectView::Dict(entries) => Some((d, entries)),
                _ => None,
            }
        } else {
            None
        },
        _ => None,
    }
}

/// The place of the first character at or behind `from` that is not white
/// space; the end of the text where there is none.
pub open spec fn first_ink(text: Seq<char>, from: nat) -> nat
    decreases text.len() - from,
{
    if from < text.len() && crate::text::blank(text[from as int]) {
        first_ink(text, from + 1)
    } else {
        from
    }
}

/// The place behind the last character before `to` that is not white
/// space, and not before `least`.
pub open spec fn last_ink(text: Seq<char>, to: nat, least: nat) -> nat
    decreases to,
{
    if least < to <= text.len() && crate::text::blank(text[to - 1]) {
        last_ink(text, (to - 1) as nat, least)
    } else {
        to
    }
}

/// `text` without the white space at its two ends, as `str::trim` gives
/// it: what stands between the first and the last character that is not
/// white space.
pub open spec fn trimmed(text: Seq<char>) -> Seq<char> {
    let from = first_ink(text, 0);
    if from >= text.len() {
        Seq::empty()
    } else {
        text.subrange(from as int, last_ink(text, text.len(), from) as int)
    }
}

/// `text` with every match of `from` replaced by `to`, as `str::replace`
/// gives it.
pub uninterp spec fn replaced(text: Seq<char>, from: Seq<char>, to: Seq<char>) -> Seq<char>;

/// `text` in upper case, as `str::to_uppercase` gives it.
pub uninterp spec fn uppercased(text: Seq<char>) -> Seq<char>;

/// `text` in lower case, as `str::to_lowercase` gives it.
pub uninterp spec fn lowercased(text: Seq<char>) -> Seq<char>;

pub const SPLIT_ARGS: &'static str = "разделить требует 2 аргумента: строка и разделитель";
pub const TRIM_ARGS: &'static str = "обрезать требует 1 аргумент";
pub const REPLACE_ARGS: &'static str = "заменить требует 3 аргумента";
pub const UPPER_ARGS: &'static str = "верхний_регистр требует 1 аргумент";
pub const LOWER_ARGS: &'static str = "нижний_регистр требует 1 аргумент";
pub const STARTS_ARGS: &'static str = "начинается_с требует 2 аргумента: строка и начало";
pub const NOT_TEXT: &'static str = "Аргумент должен быть строкой";
pub const FIRST_NOT_TEXT: &'static str = "Первый аргумент должен быть строкой";
pub const SECOND_NOT_TEXT: &'static str = "Второй аргумент должен быть строкой";
pub const THIRD_NOT_TEXT: &'static str = "Третий аргумент должен быть строкой";
pub const SEPARATOR_NOT_TEXT: &'static str = "Разделитель должен быть строкой";

/// Whether the machine runs a native function itself: the functions of
/// the strings module only compute.
pub open spec fn computed(kind: NativeKind) -> bool {
    kind is StrSplit || kind is StrTrim || kind is StrReplace || kind is StrUpper || kind is StrLower
        || kind is StrStartsWith
}

/// The result of a function of the strings module: the value it gives,
/// where the arguments are as many and of the kind it takes.
pub open spec fn string_native(s: VmView, kind: NativeKind, args: Seq<ValueView>) -> Step {
    match kind {
        NativeKind::StrSplit => if args.len() != 2 {
            fault(s, SPLIT_ARGS@)
        } else {
            match (args[0], args[1]) {
                (ValueView::String(text), ValueView::String(separator)) => (
                    pushed(
                        allocated(
                            s,
                            ObjectView::Array(
                                split_pieces(text, separator).map_values(|p: Seq<char>| ValueView::String(p)),
                            ),
                        ),
                        ValueView::Array(s.heap.len() as usize),
                    ),
                    ActionView::Continue,
                ),
                (ValueView::String(_), _) => fault(s, SEPARATOR_NOT_TEXT@),
                _ => fault(s, FIRST_NOT_TEXT@),
            }
        },
        NativeKind::StrTrim => if args.len() != 1 {
            fault(s, TRIM_ARGS@)
        } else {
            match args[0] {
                ValueView::String(text) => (pushed(s, ValueView::String(trimmed(text))), ActionView::Continue),
                _ => fault(s, NOT_TEXT@),
            }
        },
        NativeKind::StrReplace => if args.len() != 3 {
            fault(s, REPLACE_ARGS@)
        } else {
            match (args[0], args[1], args[2]) {
                (ValueView::String(text), ValueView::String(from), ValueView::String(to)) => (
                    pushed(s, ValueView::String(replaced(text, from, to))),
                    ActionView::Continue,
                ),
                (ValueView::String(_), ValueView::String(_), _) => fault(s, THIRD_NOT_TEXT@),
                (ValueView::String(_), _, _) => fault(s, SECOND_NOT_TEXT@),
                _ => fault(s, FIRST_NOT_TEXT@),
            }
        },
        NativeKind::StrUpper => if args.len() != 1 {
            fault(s, UPPER_ARGS@)
        } else {
            match args[0] {
                ValueView::String(text) => (pushed(s, ValueView::String(uppercased(text))), ActionView::Continue),
                _ => fault(s, NOT_TEXT@),
            }
        },
        NativeKind::StrLower => if args.len() != 1 {
            fault(s, LOWER_ARGS@)
        } else {
            match args[0] {
                ValueView::String(text) => (pushed(s, ValueView::String(lowercased(text))), ActionView::Continue),
                _ => fault(s, NOT_TEXT@),
            }
        },
        NativeKind::StrStartsWith => if args.len() != 2 {
            fault(s, STARTS_ARGS@)
        } else {
            match (args[0], args[1]) {
                (ValueView::String(text), ValueView::String(start)) => (
                    pushed(s, ValueView::Boolean(crate::text::occurs_at(text, start, 0))),
                    ActionView::Continue,
                ),
                (ValueView::String(_), _) => fault(s, SECOND_NOT_TEXT@),
                _ => fault(s, FIRST_NOT_TEXT@),
            }
        },
        _ => (s, ActionView::Continue),
    }
}

/// Calling a native function; the callee and the arguments are already
/// off the stack. A function that only computes is run at once, any other
/// is asked of the host.
pub open spec fn call_native(s: VmView, id: usize, kind: NativeKind, args: Seq<ValueView>) -> Step {
    if computed(kind) {
        string_native(s, kind, args)
    } else {
        (VmView { pending: PendingView::Native, ..s }, ActionView::CallNative { id, kind, args })
    }
}

pub open spec fn op_call(s: VmView, argc: usize) -> Step {
    if s.stack.len() <= argc {
        fault(s, STACK_EMPTY@)
    } else {
        let at = s.stack.len() - argc - 1;
        let args = s.stack.subrange(at + 1, s.stack.len() as int);
        match s.stack[at] {
            ValueView::Function(f) => invoke(s, f, argc, at, Seq::empty(), false),
            ValueView::Closure(c) => if c < s.heap.len() {
                match s.heap[c as int] {
                    ObjectView::Closure { function, upvalues } => invoke(s, function, argc, at, upvalues, false),
                    _ => fault(s, NOT_CALLABLE@),
                }
            } else {
                fault(s, NOT_CALLABLE@)
            },
            ValueView::Class(c) => if is_class(s.heap, c) {
                let s1 = VmView {
                    stack: s.stack.update(at, ValueView::Instance(s.heap.len() as usize)),
                    ..allocated(s, ObjectView::Instance { class: c, fields: Seq::empty() })
                };
                match find_method(s.heap, c, CONSTRUCTOR@, s.heap.len()) {
                    Some(f) => invoke(s1, f, argc, at, Seq::empty(), true),
                    None => (VmView { stack: s1.stack.take(at + 1), ..s1 }, ActionView::Continue),
                }
            } else {
                fault(s, NOT_CALLABLE@)
            },
            ValueView::BoundMethod(b) => if b < s.heap.len() {
                match s.heap[b as int] {
                    ObjectView::BoundMethod { receiver, method } => match method {
                        Method::Function(f) => invoke(
                            VmView { stack: s.stack.update(at, receiver), ..s },
                            f,
                            argc,
                            at,
                            Seq::empty(),
                            true,
                        ),
                        Method::Builtin(builtin) => call_builtin(
                            VmView { stack: s.stack.take(at), ..s },
                            builtin,
                            receiver,
                            args,
                        ),
                    },
                    _ => fault(s, NOT_CALLABLE@),
                }
            } else {
                fault(s, NOT_CALLABLE@)
            },
            ValueView::NativeFunction(id) => if id < s.natives.len() {
                call_native(VmView { stack: s.stack.take(at), ..s }, id, s.natives[id as int], args)
            } else {
                fault(s, NOT_CALLABLE@)
            },
            _ => fault(s, NOT_CALLABLE@),
        }
    }
}

// ---------------------------------------------------------------------------
// Indexing and aggregates
// ---------------------------------------------------------------------------

/// The bounds of a slice of something `len` long, where they are in order
/// and within it.
pub open spec fn slice_bounds(start: Option<Number>, end: Option<Number>, len: nat) -> Option<(int, int)> {
    let from = match start {
        Some(n) => n.to_index(),
        None => 0,
    };
    let to = match end {
        Some(n) => n.to_index(),
        None => len as int,
    };
    if from > len || to > len || from > to {
        None
    } else {
        Some((from, to))
    }
}

pub open spec fn op_get_index(s: VmView) -> Step {
    if s.stack.len() < 2 {
        fault(s, STACK_EMPTY@)
    } else {
        let s2 = popped(s, 2);
        let object = peek(s, 1);
        let index = peek(s, 0);
        match (object, index) {
            (ValueView::String(t), ValueView::Number(n)) => if n.to_index() < t.len() {
                (
                    pushed(s2, ValueView::String(t.subrange(n.to_index(), n.to_index() + 1))),
                    ActionView::Continue,
                )
            } else {
                fault(s2, OUT_OF_RANGE@)
            },
            (ValueView::String(t), ValueView::Range(start, end)) => match slice_bounds(start, end, t.len()) {
                Some((from, to)) => (pushed(s2, ValueView::String(t.subrange(from, to))), ActionView::Continue),
                None => fault(s2, BAD_SLICE@),
            },
            (ValueView::Array(_), ValueView::Number(n)) => match array_of(s, object) {
                Some((_, items)) => if n.to_index() < items.len() {
                    (pushed(s2, items[n.to_index()]), ActionView::Continue)
                } else {
                    fault(s2, OUT_OF_RANGE@)
                },
                None => fault(s2, NOT_INDEXABLE@),
            },
            (ValueView::Array(_), ValueView::Range(start, end)) => match array_of(s, object) {
                Some((_, items)) => match slice_bounds(start, end, items.len()) {
                    Some((from, to)) => (
                        pushed(
                            allocated(s2, ObjectView::Array(items.subrange(from, to))),
                            ValueView::Array(s.heap.len() as usize),
                        ),
                        ActionView::Continue,
                    ),
                    None => fault(s2, BAD_SLICE@),
                },
                None => fault(s2, NOT_INDEXABLE@),
            },
            (ValueView::Dict(_), _) => match dict_of(s, object) {
                Some((_, entries)) => match key_of(index) {
                    Some(key) => match lookup(entries, key) {
                        Some(at) => (pushed(s2, entries[at].1), ActionView::Continue),
                        None => (pushed(s2, ValueView::Nil), ActionView::Continue),
                    },
                    None => fault(s2, KEY_TYPE@),
                },
                None => fault(s2, NOT_INDEXABLE@),
            },
            _ => fault(s2, NOT_INDEXABLE@),
        }
    }
}

pub open spec fn op_set_index(s: VmView) -> Step {
    if s.stack.len() < 3 {
        fault(s, STACK_EMPTY@)
    } else {
        let s3 = popped(s, 3);
        let object = peek(s, 2);
        let index = peek(s, 1);
        let v = peek(s, 0);
        match (object, index) {
            (ValueView::Array(_), ValueView::Number(n)) => match array_of(s, object) {
                Some((a, items)) => if n.to_index() < items.len() {
                    (
                        VmView {
                            heap: s.heap.update(a as int, ObjectView::Array(items.update(n.to_index(), v))),
                            ..s3
                        },
                        ActionView::Continue,
                    )
                } else {
                    fault(s3, OUT_OF_RANGE@)
                },
                None => fault(s3, NOT_INDEXABLE@),
            },
            (ValueView::Dict(_), _) => match dict_of(s, object) {
                Some((d, entries)) => match key_of(index) {
                    Some(key) => (
                        VmView {
                            heap: s.heap.update(d as int, ObjectView::Dict(with_entry(entries, key, v))),
                            ..s3
                        },
                        ActionView::Continue,
                    ),
                    None => fault(s3, KEY_TYPE@),
                },
                None => fault(s3, NOT_INDEXABLE@),
            },
            _ => fault(s3, NOT_INDEXABLE@),
        }
    }
}

pub open spec fn op_array(s: VmView, n: usize) -> Step {
    if s.stack.len() < n {
        fault(s, STACK_EMPTY@)
    } else {
        let s1 = popped(s, n as int);
        (
            pushed(
                allocated(s1, ObjectView::Array(s.stack.subrange(s.stack.len() - n, s.stack.len() as int))),
                ValueView::Array(s.heap.len() as usize),
            ),
            ActionView::Continue,
        )
    }
}

/// Whether each of the first `n` pairs of `items` has a key that may be one.
pub open spec fn keys_valid(items: Seq<ValueView>, n: nat) -> bool {
    forall|i: int| 0 <= i < n ==> key_of(#[trigger] items[2 * i]) is Some
}

/// The dictionary that the first `n` key-value pairs of `items` build,
/// later pairs replacing earlier ones under the same key.
pub open spec fn dict_from(items: Seq<ValueView>, n: nat) -> Seq<(KeyView, ValueView)>
    decreases n,
{
    if n == 0 {
        Seq::empty()
    } else {
        with_entry(
            dict_from(items, (n - 1) as nat),
            key_of(items[2 * (n - 1)])->Some_0,
            items[2 * (n - 1) + 1],
        )
    }
}

pub open spec fn op_dict(s: VmView, n: usize) -> Step {
    if s.stack.len() < 2 * n {
        fault(s, STACK_EMPTY@)
    } else {
        let s1 = popped(s, 2 * n);
        let items = s.stack.subrange(s.stack.len() - 2 * n, s.stack.len() as int);
        if !keys_valid(items, n as nat) {
            fault(s1, KEY_TYPE@)
        } else {
            (
                pushed(
                    allocated(s1, ObjectView::Dict(dict_from(items, n as nat))),
                    ValueView::Dict(s.heap.len() as usize),
                ),
                ActionView::Continue,
            )
        }
    }
}

// ---------------------------------------------------------------------------
// The step
// ---------------------------------------------------------------------------

/// The effect of one instruction; the instruction pointer already points
/// behind it.
pub open spec fn execute(s: VmView, op: OpCode) -> Step {
    match op {
        OpCode::Constant(k) => match constant_at(s, k) {
            Some(v) => (pushed(s, v), ActionView::Continue),
            None => fault(s, BAD_CONSTANT@),
        },
        OpCode::Pop => if s.stack.len() == 0 {
            fault(s, STACK_EMPTY@)
        } else {
            (popped(s, 1), ActionView::Continue)
        },
        OpCode::Dup => if s.stack.len() == 0 {
            fault(s, STACK_EMPTY@)
        } else {
            (pushed(s, s.stack.last()), ActionView::Continue)
        },
        OpCode::Negate => op_negate(s),
        OpCode::Add => op_add(s),
        OpCode::Sub => op_arithmetic(s, ArithOp::Sub),
        OpCode::Mul => op_arithmetic(s, ArithOp::Mul),
        OpCode::Div => op_arithmetic(s, ArithOp::Div),
        OpCode::Mod => op_arithmetic(s, ArithOp::Mod),
        OpCode::True_ => (pushed(s, ValueView::Boolean(true)), ActionView::Continue),
        OpCode::False_ => (pushed(s, ValueView::Boolean(false)), ActionView::Continue),
        OpCode::Eql => op_equal(s),
        OpCode::Not => op_not(s),
        OpCode::Greater => op_order(s, false),
        OpCode::Less => op_order(s, true),
        OpCode::DefineLocal(slot) => op_store_local(s, slot),
        OpCode::GetLocal(slot) => (
            pushed(s, slot_value(s.stack, frame(s).base + slot)),
            ActionView::Continue,
        ),
        OpCode::SetLocal(slot) => op_store_local(s, slot),
        OpCode::Closure(k, _) => op_closure(s, k),
        OpCode::GetUpvalue(i) => op_get_upvalue(s, i),
        OpCode::SetUpvalue(i) => op_set_upvalue(s, i),
        OpCode::CloseUpvalues(n) => (close_from(s, frame(s).base + n), ActionView::Continue),
        OpCode::Jump(target) => (with_ip(s, target), ActionView::Continue),
        OpCode::JumpIfTrue(target) => op_jump_if(s, target, true),
        OpCode::JumpIfFalse(target) => op_jump_if(s, target, false),
        OpCode::PushExceptionHandler(target) => (
            VmView {
                handlers: s.handlers.push(
                    Handler {
                        target,
                        frame_depth: s.frames.len() as usize,
                        stack_depth: s.stack.len() as usize,
                    },
                ),
                ..s
            },
            ActionView::Continue,
        ),
        OpCode::PopExceptionHandler => if s.handlers.len() == 0 {
            (s, ActionView::Continue)
        } else {
            (VmView { handlers: s.handlers.drop_last(), ..s }, ActionView::Continue)
        },
        OpCode::Throw => if s.stack.len() == 0 {
            fault(s, STACK_EMPTY@)
        } else {
            throw(popped(s, 1), s.stack.last())
        },
        OpCode::Call(argc) => op_call(s, argc),
        OpCode::Return_ => if s.stack.len() == 0 {
            return_value(s, ValueView::Nil)
        } else {
            return_value(popped(s, 1), s.stack.last())
        },
        OpCode::Class => op_class(s),
        OpCode::Inherit => op_inherit(s),
        OpCode::DefineMethod(k) => op_define_method(s, k),
        OpCode::GetProperty => op_get_property(s),
        OpCode::SetProperty => op_set_property(s),
        OpCode::GetSuper => op_get_super(s),
        OpCode::GetIndex => op_get_index(s),
        OpCode::SetIndex => op_set_index(s),
        OpCode::Array(n) => op_array(s, n),
        OpCode::Dict(n) => op_dict(s, n),
        OpCode::DefineGlobal(k) => op_define_global(s, k),
        OpCode::SetGlobal(k) => op_set_global(s, k),
        OpCode::GetGlobal(k) => op_get_global(s, k),
        OpCode::Halt => (s, ActionView::Continue),
    }
}

/// One step of the machine: fetch, advance, execute. A frame that has run
/// off its end returns `Nil`, and the root frame ends the run.
pub open spec fn step(s: VmView) -> Step {
    if !(s.pending is Idle) {
        (s, ActionView::Waiting)
    } else if s.frames.len() == 0 {
        (s, ActionView::Finished)
    } else {
        let code = code_of(s, frame(s).function);
        let ip = frame(s).ip;
        if ip >= code.len() {
            if s.frames.len() == 1 {
                finish(s)
            } else {
                return_value(s, ValueView::Nil)
            }
        } else {
            execute(with_ip(s, (ip + 1) as usize), code[ip as int])
        }
    }
}

/// Taking the host's answer to the request that is pending. An answer of
/// the wrong kind changes nothing, and an answer to nothing is dropped.
pub open spec fn resume(s: VmView, reply: ReplyView) -> Step {
    let idle = VmView { pending: PendingView::Idle, ..s };
    match (s.pending, reply) {
        (PendingView::Idle, _) => (s, ActionView::Continue),
        (PendingView::Arithmetic, ReplyView::Number(n)) => (pushed(idle, ValueView::Number(n)), ActionView::Continue),
        (PendingView::TextAfter(t), ReplyView::Text(x)) => (pushed(idle, ValueView::String(t + x)), ActionView::Continue),
        (PendingView::TextBefore(t), ReplyView::Text(x)) => (pushed(idle, ValueView::String(x + t)), ActionView::Continue),
        (PendingView::Native, ReplyView::Native(Ok(v))) => (pushed(idle, v), ActionView::Continue),
        (PendingView::Native, ReplyView::Native(Err(message))) => fault(idle, message),
        _ => (s, ActionView::Waiting),
    }
}

/// The name that a loaded program carries in the function table.
pub const ROOT_NAME: &'static str = "<main>";

/// A constant of a program that is loaded behind `offset` functions: the
/// number of a function moves up by the offset, anything else stays.
pub open spec fn relocated_value(v: ValueView, offset: nat) -> ValueView {
    match v {
        ValueView::Function(f) => if f + offset <= usize::MAX {
            ValueView::Function((f + offset) as usize)
        } else {
            v
        },
        _ => v,
    }
}

pub open spec fn relocated_values(constants: Seq<ValueView>, offset: nat) -> Seq<ValueView> {
    constants.map_values(|v: ValueView| relocated_value(v, offset))
}

pub open spec fn relocated_function(f: FunctionView, offset: nat) -> FunctionView {
    FunctionView { constants: relocated_values(f.constants, offset), ..f }
}

pub open spec fn relocated_functions(functions: Seq<FunctionView>, offset: nat) -> Seq<FunctionView> {
    functions.map_values(|f: FunctionView| relocated_function(f, offset))
}

/// The state with a program loaded: its functions behind those of the
/// table, the program itself as one more function behind them, and a frame
/// for it on top, its slot 0 at the top of the stack.
pub open spec fn loaded(
    s: VmView,
    opcodes: Seq<OpCode>,
    constants: Seq<ValueView>,
    functions: Seq<FunctionView>,
) -> VmView {
    let offset = s.functions.len();
    VmView {
        functions: (s.functions + relocated_functions(functions, offset)).push(
            FunctionView {
                arity: 0,
                opcodes,
                constants: relocated_values(constants, offset),
                name: ROOT_NAME@,
                upvalue_count: 0,
                upvalue_descriptors: Seq::empty(),
            },
        ),
        frames: s.frames.push(
            FrameView {
                function: (offset + functions.len()) as usize,
                ip: 0,
                base: s.stack.len() as usize,
                upvalues: Seq::empty(),
            },
        ),
        ..s
    }
}

/// Up to `fuel` steps, stopping at the first that asks for anything.
pub open spec fn run(s: VmView, fuel: nat) -> Step
    decreases fuel,
{
    if fuel == 0 {
        (s, ActionView::Continue)
    } else {
        let (next, action) = step(s);
        if action is Continue {
            run(next, (fuel - 1) as nat)
        } else {
            (next, action)
        }
    }
}

} // verus!
