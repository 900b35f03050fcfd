//! What holds of the machine and the generator whatever the program: laws
//! proved from the model.

use vstd::prelude::*;
use crate::codegen;
use crate::codegen::GenView;
use crate::heap::{lemma_has_first, lemma_with_entry, lookup, Method, ObjectView, UpvalueView};
use crate::model::{
    bind, captured, close_from, closed_cell, closed_cells, execute, fault, find_method, first_open_on, frame,
    name_at, op_call, op_define_global, op_get_property, op_get_super, op_get_upvalue, op_set_upvalue, operand_name,
    popped, return_value, slot_value, stored, throw, truthy, unwound, values_equal, with_ip, ActionView, ARITY,
    GLOBAL_DEFINED, Handler, VmView,
};
use crate::opcode::OpCode;
use crate::value::ValueView;

verus! {

// ---------------------------------------------------------------------------
// Scoping
// ---------------------------------------------------------------------------

/// A name that a unit has declared as a local is read from its slot, not
/// from a captured variable and not from a global.
pub proof fn law_declared_local_is_read_from_its_slot(st: GenView, name: Seq<char>)
    requires
        st.scopes.len() > 0,
        codegen::declare_local(st, name) is Some,
    ensures
        ({
            let (declared, slot) = codegen::declare_local(st, name)->Some_0;
            codegen::emit_variable(declared, name, false) == codegen::emit(declared, OpCode::GetLocal(slot))
        }),
{
    reveal(codegen::declare_local);
    reveal(codegen::fresh_local);
    reveal(codegen::emit_variable);
    let (declared, slot) = codegen::declare_local(st, name)->Some_0;
    match lookup(codegen::cur(st).locals, name) {
        Some(i) => {},
        None => {
            lemma_with_entry(codegen::cur(st).locals, name, slot, name);
        },
    }
}

/// A name that the top level has not declared as a local is read from
/// the global that it mangles to.
pub proof fn law_top_level_name_is_read_from_the_global(st: GenView, name: Seq<char>)
    requires
        st.scopes.len() > 0,
        !codegen::cur(st).in_function,
        lookup(codegen::cur(st).locals, name) is None,
    ensures
        codegen::emit_variable(st, name, false) == codegen::emit_global(st, codegen::GlobalOp::Read, name),
{
    reveal(codegen::emit_variable);
}

/// The body of a function starts with its parameters as its only locals:
/// what the unit around it has declared is not among them.
pub proof fn law_function_body_starts_with_its_parameters(
    st: GenView,
    params: Seq<crate::ast::Parameter>,
    is_method: bool,
    name: Seq<char>,
)
    requires
        forall|i: int| 0 <= i < params.len() ==> (#[trigger] params[i]).name@ != name,
    ensures
        lookup(codegen::function_context(st, params, is_method).locals, name) is None,
{
    let start: int = if is_method {
        1
    } else {
        0
    };
    lemma_parameters_only(params, start, params.len(), name);
}

proof fn lemma_parameters_only(params: Seq<crate::ast::Parameter>, start: int, n: nat, name: Seq<char>)
    requires
        n <= params.len(),
        forall|i: int| 0 <= i < params.len() ==> (#[trigger] params[i]).name@ != name,
    ensures
        lookup(codegen::parameter_slots(params, start, n), name) is None,
    decreases n,
{
    if n > 0 {
        lemma_parameters_only(params, start, (n - 1) as nat, name);
        lemma_with_entry(
            codegen::parameter_slots(params, start, (n - 1) as nat),
            params[n - 1].name@,
            (start + n - 1) as usize,
            name,
        );
    }
}

/// What `DefineLocal` stores, `GetLocal` of the same slot reads, and the
/// globals are as they were.
pub proof fn law_local_is_read_as_stored(s: VmView, slot: usize)
    requires
        s.frames.len() > 0,
        0 < s.stack.len() <= usize::MAX,
        frame(s).base + slot < s.stack.len() - 1,
    ensures
        ({
            let (stored, first) = execute(s, OpCode::DefineLocal(slot));
            let (read, second) = execute(stored, OpCode::GetLocal(slot));
            &&& first is Continue
            &&& second is Continue
            &&& read.stack.last() == s.stack.last()
            &&& read.globals == s.globals
        }),
{
}

// ---------------------------------------------------------------------------
// Closures
// ---------------------------------------------------------------------------

/// Whether every entry of the open list is the number of a cell.
pub open spec fn open_list_valid(s: VmView) -> bool {
    forall|i: int| 0 <= i < s.open_upvalues.len() ==> (#[trigger] s.open_upvalues[i]) < s.cells.len()
}

/// Two captures of one slot give one cell: the second changes nothing.
pub proof fn law_captures_of_one_slot_share_the_cell(s: VmView, slot: usize)
    requires
        s.cells.len() < usize::MAX,
        open_list_valid(s),
    ensures
        ({
            let (first, cell) = captured(s, slot);
            captured(first, slot) == (first, cell)
        }),
{
    let (first, cell) = captured(s, slot);
    if exists|i: int| first_open_on(s.cells, s.open_upvalues, slot, i) {
        let i = choose|i: int| first_open_on(s.cells, s.open_upvalues, slot, i);
        let j = choose|j: int| first_open_on(first.cells, first.open_upvalues, slot, j);
        if j < i {
            assert(!crate::model::open_on(s.cells, s.open_upvalues, slot, j));
        }
        if i < j {
            assert(!crate::model::open_on(s.cells, s.open_upvalues, slot, i));
        }
    } else {
        let n = s.open_upvalues.len() as int;
        assert forall|j: int| 0 <= j < n implies !crate::model::open_on(
            first.cells,
            first.open_upvalues,
            slot,
            j,
        ) by {
            if crate::model::open_on(first.cells, first.open_upvalues, slot, j) {
                assert(crate::model::open_on(s.cells, s.open_upvalues, slot, j));
                lemma_some_open_is_first(s, slot, j);
            }
        }
        assert(first_open_on(first.cells, first.open_upvalues, slot, n));
        let j = choose|j: int| first_open_on(first.cells, first.open_upvalues, slot, j);
        if j < n {
            assert(!crate::model::open_on(first.cells, first.open_upvalues, slot, j));
        }
        if n < j {
            assert(!crate::model::open_on(first.cells, first.open_upvalues, slot, n));
        }
    }
}

proof fn lemma_some_open_is_first(s: VmView, slot: usize, at: int)
    requires
        crate::model::open_on(s.cells, s.open_upvalues, slot, at),
    ensures
        exists|i: int| first_open_on(s.cells, s.open_upvalues, slot, i),
    decreases at,
{
    if forall|j: int| 0 <= j < at ==> !crate::model::open_on(s.cells, s.open_upvalues, slot, j) {
        assert(first_open_on(s.cells, s.open_upvalues, slot, at));
    } else {
        let j = choose|j: int| 0 <= j < at && crate::model::open_on(s.cells, s.open_upvalues, slot, j);
        lemma_some_open_is_first(s, slot, j);
    }
}

/// What is written through one upvalue is read through every upvalue of
/// the same cell, while the variable is on the stack and after it has
/// left it.
pub proof fn law_write_through_a_cell_is_read_through_it(s: VmView, i: usize, j: usize)
    requires
        s.frames.len() > 0,
        s.stack.len() > 0,
        i < frame(s).upvalues.len(),
        j < frame(s).upvalues.len(),
        frame(s).upvalues[i as int] == frame(s).upvalues[j as int],
        frame(s).upvalues[i as int] < s.cells.len(),
        s.cells[frame(s).upvalues[i as int] as int] matches UpvalueView::Open(slot) ==> slot < s.stack.len() - 1,
    ensures
        ({
            let (written, first) = op_set_upvalue(s, i);
            let (read, second) = op_get_upvalue(written, j);
            &&& first is Continue
            &&& second is Continue
            &&& read.stack.last() == s.stack.last()
        }),
{
}

/// Closing a cell keeps what was read through it: the value in its slot.
pub proof fn law_closing_keeps_the_value(s: VmView, i: usize, threshold: int)
    requires
        s.frames.len() > 0,
        i < frame(s).upvalues.len(),
        frame(s).upvalues[i as int] < s.cells.len(),
    ensures
        ({
            let cell = s.cells[frame(s).upvalues[i as int] as int];
            let closed = VmView {
                cells: s.cells.update(frame(s).upvalues[i as int] as int, closed_cell(cell, s.stack, threshold)),
                ..s
            };
            op_get_upvalue(closed, i).0.stack.last() == op_get_upvalue(s, i).0.stack.last()
        }),
{
}

// ---------------------------------------------------------------------------
// Short circuit
// ---------------------------------------------------------------------------

/// With a false or `Nil` value on top, `Dup; JumpIfFalse(target)` jumps
/// with the value still on top; with any other value it goes on, and the
/// `Pop` behind it takes the value off. `Dup; JumpIfTrue(target)` mirrors
/// this.
pub proof fn law_short_circuit(s: VmView, target: usize)
    requires
        s.frames.len() > 0,
        s.stack.len() > 0,
    ensures
        ({
            let (doubled, _) = execute(s, OpCode::Dup);
            let if_false = execute(doubled, OpCode::JumpIfFalse(target));
            let if_true = execute(doubled, OpCode::JumpIfTrue(target));
            &&& !truthy(s.stack.last()) ==> if_false == (with_ip(s, target), ActionView::Continue)
            &&& truthy(s.stack.last()) ==> if_false == (s, ActionView::Continue)
            &&& truthy(s.stack.last()) ==> if_true == (with_ip(s, target), ActionView::Continue)
            &&& !truthy(s.stack.last()) ==> if_true == (s, ActionView::Continue)
            &&& execute(s, OpCode::Pop) == (popped(s, 1), ActionView::Continue)
        }),
{
    let (doubled, _) = execute(s, OpCode::Dup);
    assert(doubled.stack.take(doubled.stack.len() - 1) =~= s.stack);
    assert(popped(doubled, 1) == s);
    assert(with_ip(popped(doubled, 1), target) == with_ip(s, target));
}

// ---------------------------------------------------------------------------
// Arity
// ---------------------------------------------------------------------------

/// Calling a function or a closure with the wrong number of arguments
/// throws: it is an exception like any other.
pub proof fn law_wrong_arity_is_thrown(s: VmView, argc: usize)
    requires
        s.stack.len() > argc,
        match s.stack[s.stack.len() - argc - 1] {
            ValueView::Function(f) => f < s.functions.len() && s.functions[f as int].arity != argc,
            ValueView::Closure(c) => c < s.heap.len() && (s.heap[c as int] matches ObjectView::Closure {
                function,
                ..
            } && function < s.functions.len() && s.functions[function as int].arity != argc),
            _ => false,
        },
    ensures
        op_call(s, argc) == throw(s, ValueView::String(ARITY@)),
{
}

// ---------------------------------------------------------------------------
// Method dispatch
// ---------------------------------------------------------------------------

/// Whether the class at `class` files `function` under `name` itself.
pub open spec fn defines(heap: Seq<ObjectView>, class: usize, name: Seq<char>, function: usize) -> bool {
    &&& class < heap.len()
    &&& heap[class as int] matches ObjectView::Class { methods, .. }
    &&& lookup(methods, name) matches Some(i)
    &&& methods[i].1 == function
}

/// Whether the class at `class` has the class at `parent` as its parent.
pub open spec fn extends(heap: Seq<ObjectView>, class: usize, parent: usize) -> bool {
    &&& class < heap.len()
    &&& heap[class as int] matches ObjectView::Class { parent: Some(p), .. }
    &&& p == parent
}

/// Where a class and its parent both define a method, the class's own is
/// found from the class and the parent's from the parent.
pub proof fn law_override_wins(
    heap: Seq<ObjectView>,
    sub: usize,
    sup: usize,
    name: Seq<char>,
    own: usize,
    inherited: usize,
    depth: nat,
)
    requires
        depth > 0,
        extends(heap, sub, sup),
        defines(heap, sub, name, own),
        defines(heap, sup, name, inherited),
    ensures
        find_method(heap, sub, name, depth) == Some(own),
        find_method(heap, sup, name, depth) == Some(inherited),
{
}

/// A method that a class does not define itself is found in its parent.
pub proof fn law_parent_method_is_inherited(
    heap: Seq<ObjectView>,
    sub: usize,
    sup: usize,
    name: Seq<char>,
    inherited: usize,
    depth: nat,
)
    requires
        depth > 1,
        extends(heap, sub, sup),
        heap[sub as int] matches ObjectView::Class { methods, .. } && lookup(methods, name) is None,
        defines(heap, sup, name, inherited),
    ensures
        find_method(heap, sub, name, depth) == Some(inherited),
{
    assert(find_method(heap, sup, name, (depth - 1) as nat) == Some(inherited));
}

/// The function that the class at `class` files under `name` itself.
pub open spec fn own_method(heap: Seq<ObjectView>, class: usize, name: Seq<char>) -> Option<usize> {
    if class < heap.len() {
        match heap[class as int] {
            ObjectView::Class { methods, .. } => match lookup(methods, name) {
                Some(i) => Some(methods[i].1),
                None => None,
            },
            _ => None,
        }
    } else {
        None
    }
}

/// The parent of the class at `class`.
pub open spec fn parent_of(heap: Seq<ObjectView>, class: usize) -> Option<usize> {
    if class < heap.len() {
        match heap[class as int] {
            ObjectView::Class { parent, .. } => parent,
            _ => None,
        }
    } else {
        None
    }
}

/// The `k`-th ancestor of a class, the class itself being the 0th; none
/// where the chain of parents has ended before.
pub open spec fn ancestor(heap: Seq<ObjectView>, class: usize, k: nat) -> Option<usize>
    decreases k,
{
    if k == 0 {
        if crate::model::is_class(heap, class) {
            Some(class)
        } else {
            None
        }
    } else {
        match parent_of(heap, class) {
            Some(p) => ancestor(heap, p, (k - 1) as nat),
            None => None,
        }
    }
}

/// Whether the chain of parents of a class ends within `n` classes.
pub open spec fn chain_ends_within(heap: Seq<ObjectView>, class: usize, n: nat) -> bool
    decreases n,
{
    n > 0 && match parent_of(heap, class) {
        Some(p) => chain_ends_within(heap, p, (n - 1) as nat),
        None => true,
    }
}

/// Whether every class is younger than its parent: it stands behind it
/// on the heap.
pub open spec fn parents_are_older(heap: Seq<ObjectView>) -> bool {
    forall|c: usize| (#[trigger] parent_of(heap, c)) is Some ==> parent_of(heap, c)->Some_0 < c
}

/// Method lookup goes up the chain of parents one class at a time: a
/// class that files the name itself answers with its own function,
/// whatever its ancestors file; any other class answers what its parent
/// answers; and a class without a parent answers nothing.
pub proof fn law_lookup_goes_up_the_chain(heap: Seq<ObjectView>, class: usize, name: Seq<char>, depth: nat)
    requires
        depth > 0,
        crate::model::is_class(heap, class),
    ensures
        find_method(heap, class, name, depth) == match own_method(heap, class, name) {
            Some(f) => Some(f),
            None => match parent_of(heap, class) {
                Some(p) => find_method(heap, p, name, (depth - 1) as nat),
                None => None,
            },
        },
{
}

/// Once the bound reaches the end of the chain of parents, a larger bound
/// finds the same.
pub proof fn law_lookup_needs_no_more_than_the_chain(
    heap: Seq<ObjectView>,
    class: usize,
    name: Seq<char>,
    enough: nat,
    more: nat,
)
    requires
        chain_ends_within(heap, class, enough),
        enough <= more,
    ensures
        find_method(heap, class, name, more) == find_method(heap, class, name, enough),
    decreases enough,
{
    if class < heap.len() && own_method(heap, class, name) is None {
        match parent_of(heap, class) {
            Some(p) => {
                law_lookup_needs_no_more_than_the_chain(heap, p, name, (enough - 1) as nat, (more - 1) as nat);
            },
            None => {},
        }
    }
}

/// Where every class is younger than its parent, the chain of parents of
/// the class at `class` ends within `class + 1` classes.
pub proof fn lemma_chain_of_older_parents_ends(heap: Seq<ObjectView>, class: usize)
    requires
        parents_are_older(heap),
    ensures
        chain_ends_within(heap, class, (class + 1) as nat),
    decreases class,
{
    match parent_of(heap, class) {
        Some(p) => {
            lemma_chain_of_older_parents_ends(heap, p);
            lemma_chain_ends_within_more(heap, p, (p + 1) as nat, class as nat);
        },
        None => {},
    }
}

proof fn lemma_chain_ends_within_more(heap: Seq<ObjectView>, class: usize, n: nat, m: nat)
    requires
        chain_ends_within(heap, class, n),
        n <= m,
    ensures
        chain_ends_within(heap, class, m),
    decreases n,
{
    match parent_of(heap, class) {
        Some(p) => {
            lemma_chain_ends_within_more(heap, p, (n - 1) as nat, (m - 1) as nat);
        },
        None => {},
    }
}

/// The lookup that the machine makes, bounded by the size of the heap, is
/// the lookup along the whole chain wherever every class is younger than
/// its parent: from a class that does not file the name itself it finds
/// what it finds from the parent, and from a class that does, the class's
/// own function.
pub proof fn law_machine_lookup_is_inherited(heap: Seq<ObjectView>, sub: usize, sup: usize, name: Seq<char>)
    requires
        parents_are_older(heap),
        extends(heap, sub, sup),
        heap[sub as int] is Class,
    ensures
        find_method(heap, sub, name, heap.len()) == match own_method(heap, sub, name) {
            Some(f) => Some(f),
            None => find_method(heap, sup, name, heap.len()),
        },
{
    assert(parent_of(heap, sub) == Some(sup));
    assert(sup < sub);
    if own_method(heap, sub, name) is None {
        lemma_chain_of_older_parents_ends(heap, sup);
        lemma_chain_ends_within_more(heap, sup, (sup + 1) as nat, (heap.len() - 1) as nat);
        law_lookup_needs_no_more_than_the_chain(heap, sup, name, (heap.len() - 1) as nat, heap.len());
    }
}

/// `Inherit` keeps every class younger than its parent where the class
/// that inherits is younger than the class it inherits from, as a class
/// that was just declared is.
pub proof fn law_inherit_keeps_parents_older(s: VmView, sub: usize, sup: usize)
    requires
        parents_are_older(s.heap),
        s.stack.len() >= 2,
        s.stack[s.stack.len() - 2] == ValueView::Class(sub),
        s.stack.last() == ValueView::Class(sup),
        sup < sub,
    ensures
        parents_are_older(crate::model::op_inherit(s).0.heap),
        crate::model::is_class(s.heap, sub) && crate::model::is_class(s.heap, sup) ==> parent_of(
            crate::model::op_inherit(s).0.heap,
            sub,
        ) == Some(sup),
{
    let after = crate::model::op_inherit(s).0.heap;
    assert(crate::model::peek(s, 1) == ValueView::Class(sub));
    assert(crate::model::peek(s, 0) == ValueView::Class(sup));
    lemma_throw_keeps_the_heap(crate::model::popped(s, 1), ValueView::String(crate::model::NOT_A_CLASS@));
    assert forall|c: usize| (#[trigger] parent_of(after, c)) is Some implies parent_of(after, c)->Some_0 < c by {
        if after == s.heap {
            assert(parent_of(s.heap, c) is Some);
        } else if c != sub {
            assert(parent_of(after, c) == parent_of(s.heap, c));
        }
    }
}

/// A throw leaves the heap as it is.
proof fn lemma_throw_keeps_the_heap(s: VmView, v: ValueView)
    ensures
        throw(s, v).0.heap == s.heap,
{
    if s.handlers.len() > 0 {
        let h = s.handlers.last();
        let under = VmView { handlers: s.handlers.drop_last(), ..s };
        lemma_unwound_any(under, h.frame_depth as nat);
    }
}

/// Unwinding leaves the heap as it is, whatever the depth.
proof fn lemma_unwound_any(s: VmView, depth: nat)
    ensures
        unwound(s, depth).heap == s.heap,
    decreases s.frames.len(),
{
    if s.frames.len() > depth {
        lemma_unwound_any(VmView { frames: s.frames.drop_last(), ..close_from(s, frame(s).base as int) }, depth);
    }
}

/// What the `k`-th ancestor of a class files under `name` itself; nothing
/// where the class has no such ancestor.
pub open spec fn filed_by_ancestor(heap: Seq<ObjectView>, class: usize, name: Seq<char>, k: nat) -> Option<usize> {
    match ancestor(heap, class, k) {
        Some(a) => own_method(heap, a, name),
        None => None,
    }
}

proof fn lemma_ancestor_of_parent(heap: Seq<ObjectView>, class: usize, p: usize, name: Seq<char>, k: nat)
    requires
        parent_of(heap, class) == Some(p),
    ensures
        filed_by_ancestor(heap, class, name, k + 1) == filed_by_ancestor(heap, p, name, k),
{
    assert(ancestor(heap, class, k + 1) == ancestor(heap, p, k));
}

proof fn lemma_no_class_files_nothing(heap: Seq<ObjectView>, class: usize, name: Seq<char>, k: nat)
    requires
        !crate::model::is_class(heap, class),
    ensures
        filed_by_ancestor(heap, class, name, k) is None,
{
    if k > 0 {
        assert(parent_of(heap, class) is None);
    }
}

/// Lookup finds nothing exactly where no class of the chain files the
/// name: what it finds is filed by some ancestor within the bound, and
/// where the chain ends within the bound and nothing is found, no
/// ancestor files the name.
pub proof fn law_lookup_finds_what_an_ancestor_files(
    heap: Seq<ObjectView>,
    class: usize,
    name: Seq<char>,
    depth: nat,
)
    ensures
        find_method(heap, class, name, depth) is Some ==> exists|k: nat|
            k < depth && #[trigger] filed_by_ancestor(heap, class, name, k) == find_method(heap, class, name, depth),
        find_method(heap, class, name, depth) is None && chain_ends_within(heap, class, depth) ==> forall|k: nat| #[trigger]
            filed_by_ancestor(heap, class, name, k) is None,
    decreases depth,
{
    if depth > 0 && crate::model::is_class(heap, class) {
        if own_method(heap, class, name) is Some {
            assert(filed_by_ancestor(heap, class, name, 0) == find_method(heap, class, name, depth));
        } else {
            match parent_of(heap, class) {
                Some(p) => {
                    law_lookup_finds_what_an_ancestor_files(heap, p, name, (depth - 1) as nat);
                    if find_method(heap, p, name, (depth - 1) as nat) is Some {
                        let k = choose|k: nat|
                            k < depth - 1 && #[trigger] filed_by_ancestor(heap, p, name, k) == find_method(
                                heap,
                                p,
                                name,
                                (depth - 1) as nat,
                            );
                        lemma_ancestor_of_parent(heap, class, p, name, k);
                        assert(k + 1 < depth && filed_by_ancestor(heap, class, name, k + 1) == find_method(
                            heap,
                            class,
                            name,
                            depth,
                        ));
                    }
                    if find_method(heap, class, name, depth) is None && chain_ends_within(heap, class, depth) {
                        assert forall|k: nat| #[trigger] filed_by_ancestor(heap, class, name, k) is None by {
                            if k > 0 {
                                lemma_ancestor_of_parent(heap, class, p, name, (k - 1) as nat);
                            }
                        }
                    }
                },
                None => {
                    if find_method(heap, class, name, depth) is None {
                        assert forall|k: nat| #[trigger] filed_by_ancestor(heap, class, name, k) is None by {
                        }
                    }
                },
            }
        }
    } else {
        if depth > 0 {
            assert forall|k: nat| #[trigger] filed_by_ancestor(heap, class, name, k) is None by {
                lemma_no_class_files_nothing(heap, class, name, k);
            }
        }
    }
}

/// On an instance of a class that overrides a method of its parent, the
/// property gives the class's own method and `super` gives the parent's,
/// both bound to the same instance.
pub proof fn law_method_dispatch(
    s: VmView,
    instance: usize,
    sub: usize,
    sup: usize,
    name: Seq<char>,
    own: usize,
    inherited: usize,
)
    requires
        s.frames.len() > 0,
        s.heap.len() > 0,
        operand_name(s) == Some(name),
        instance < s.heap.len(),
        s.heap[instance as int] matches ObjectView::Instance { class, fields } && class == sub && lookup(
            fields,
            name,
        ) is None,
        extends(s.heap, sub, sup),
        defines(s.heap, sub, name, own),
        defines(s.heap, sup, name, inherited),
    ensures
        s.stack.len() > 0 && s.stack.last() == ValueView::Instance(instance) ==> op_get_property(s) == bind(
            popped(with_ip(s, (frame(s).ip + 1) as usize), 1),
            ValueView::Instance(instance),
            Method::Function(own),
        ),
        slot_value(s.stack, frame(s).base as int) == ValueView::Instance(instance) ==> op_get_super(s) == bind(
            with_ip(s, (frame(s).ip + 1) as usize),
            ValueView::Instance(instance),
            Method::Function(inherited),
        ),
{
    law_override_wins(s.heap, sub, sup, name, own, inherited, s.heap.len());
}

// ---------------------------------------------------------------------------
// Bound methods
// ---------------------------------------------------------------------------

/// Binding the same method to the same receiver twice gives two objects
/// that are not equal to each other and hold the same receiver and method.
pub proof fn law_bound_methods_are_distinct_and_alike(s: VmView, receiver: ValueView, method: Method, depth: nat)
    requires
        s.heap.len() + 1 < usize::MAX,
    ensures
        ({
            let (first, _) = bind(s, receiver, method);
            let (second, _) = bind(first, receiver, method);
            let a = first.stack.last();
            let b = second.stack.last();
            &&& a == ValueView::BoundMethod(s.heap.len() as usize)
            &&& b == ValueView::BoundMethod((s.heap.len() + 1) as usize)
            &&& !values_equal(second.heap, a, b, depth)
            &&& values_equal(second.heap, a, a, depth)
            &&& second.heap[s.heap.len() as int] == second.heap[s.heap.len() as int + 1]
            &&& second.heap[s.heap.len() as int] == (ObjectView::BoundMethod { receiver, method })
        }),
{
}

// ---------------------------------------------------------------------------
// Exceptions
// ---------------------------------------------------------------------------

/// Unwinding to a depth pops frames and closes cells, and nothing else.
pub proof fn lemma_unwound(s: VmView, depth: nat)
    requires
        depth <= s.frames.len(),
    ensures
        unwound(s, depth).frames == s.frames.take(depth as int),
        unwound(s, depth).stack == s.stack,
        unwound(s, depth).heap == s.heap,
        unwound(s, depth).globals == s.globals,
        unwound(s, depth).handlers == s.handlers,
        unwound(s, depth).functions == s.functions,
    decreases s.frames.len(),
{
    if s.frames.len() > depth {
        let next = VmView { frames: s.frames.drop_last(), ..close_from(s, frame(s).base as int) };
        lemma_unwound(next, depth);
        assert(s.frames.drop_last().take(depth as int) =~= s.frames.take(depth as int));
    } else {
        assert(s.frames.take(depth as int) =~= s.frames);
    }
}

/// `PushExceptionHandler` records the depths at the entry of the
/// try-block.
pub proof fn law_handler_records_the_entry(s: VmView, target: usize)
    requires
        s.frames.len() <= usize::MAX,
        s.stack.len() <= usize::MAX,
    ensures
        ({
            let (entered, action) = execute(s, OpCode::PushExceptionHandler(target));
            &&& action is Continue
            &&& entered.handlers.last() == (Handler {
                target,
                frame_depth: s.frames.len() as usize,
                stack_depth: s.stack.len() as usize,
            })
            &&& entered.handlers.drop_last() == s.handlers
        }),
{
    let (entered, _) = execute(s, OpCode::PushExceptionHandler(target));
    assert(entered.handlers.drop_last() =~= s.handlers);
}

/// A throw under a handler lands in the handler's frame at its target:
/// the frames above are gone, the stack is as deep as at the entry of the
/// try-block with the thrown value on top, the handler is used up, and
/// what was written to the heap and the globals before the throw stays.
pub proof fn law_throw_unwinds_to_the_handler(s: VmView, v: ValueView)
    requires
        s.handlers.len() > 0,
        1 <= s.handlers.last().frame_depth <= s.frames.len(),
        s.handlers.last().stack_depth <= s.stack.len(),
    ensures
        ({
            let h = s.handlers.last();
            let (caught, action) = throw(s, v);
            &&& action is Continue
            &&& caught.frames.len() == h.frame_depth
            &&& frame(caught).ip == h.target
            &&& caught.stack == s.stack.take(h.stack_depth as int).push(v)
            &&& caught.stack.len() == h.stack_depth + 1
            &&& caught.handlers == s.handlers.drop_last()
            &&& caught.heap == s.heap
            &&& caught.globals == s.globals
        }),
{
    let h = s.handlers.last();
    lemma_unwound(VmView { handlers: s.handlers.drop_last(), ..s }, h.frame_depth as nat);
}

/// Whether the open list names the cell `c`.
pub open spec fn on_open_list(s: VmView, c: int) -> bool {
    exists|i: int| 0 <= i < s.open_upvalues.len() && #[trigger] s.open_upvalues[i] == c
}

/// What closing from a threshold does to one cell. A closed cell stays as
/// it is, and so does an open cell whose slot lies below the threshold.
/// An open cell that the open list names and whose slot lies at or above
/// the threshold is closed over the value in its slot.
pub proof fn lemma_closed_cells(
    cells: Seq<UpvalueView>,
    open: Seq<usize>,
    stack: Seq<ValueView>,
    threshold: int,
    c: int,
)
    requires
        0 <= c < cells.len(),
    ensures
        closed_cells(cells, open, stack, threshold).len() == cells.len(),
        cells[c] is Closed ==> closed_cells(cells, open, stack, threshold)[c] == cells[c],
        cells[c] matches UpvalueView::Open(slot) ==> {
            let after = closed_cells(cells, open, stack, threshold)[c];
            &&& slot < threshold ==> after == cells[c]
            &&& after == cells[c] || after == UpvalueView::Closed(slot_value(stack, slot as int))
            &&& slot >= threshold && (exists|i: int| 0 <= i < open.len() && #[trigger] open[i] == c) ==> after
                == UpvalueView::Closed(slot_value(stack, slot as int))
        },
    decreases open.len(),
{
    if open.len() > 0 {
        let before = open.drop_last();
        lemma_closed_cells(cells, before, stack, threshold, c);
        let last = open.last();
        if last < cells.len() {
            lemma_closed_cells(cells, before, stack, threshold, last as int);
        }
        if cells[c] is Open && (exists|i: int| 0 <= i < open.len() && #[trigger] open[i] == c) {
            let i = choose|i: int| 0 <= i < open.len() && #[trigger] open[i] == c;
            if i < open.len() - 1 {
                assert(before[i] == c);
            }
        }
    }
}

/// Unwinding leaves every closed cell as it is, and the number of cells.
proof fn lemma_unwound_keeps_closed(s: VmView, depth: nat, c: int)
    requires
        0 <= c < s.cells.len(),
    ensures
        unwound(s, depth).cells.len() == s.cells.len(),
        unwound(s, depth).stack == s.stack,
        unwound(s, depth).open_upvalues == s.open_upvalues,
        s.cells[c] is Closed ==> unwound(s, depth).cells[c] == s.cells[c],
    decreases s.frames.len(),
{
    if s.frames.len() > depth {
        let next = VmView { frames: s.frames.drop_last(), ..close_from(s, frame(s).base as int) };
        lemma_closed_cells(s.cells, s.open_upvalues, s.stack, frame(s).base as int, c);
        lemma_unwound_keeps_closed(next, depth, c);
    }
}

/// Unwinding closes the cells of the frames it pops: an open cell that
/// the open list names and whose slot lies at or above the base of a
/// popped frame is closed over the value that its slot held.
pub proof fn law_unwinding_closes_the_cells_of_popped_frames(s: VmView, depth: nat, k: int, c: int)
    requires
        depth <= k < s.frames.len(),
        0 <= c < s.cells.len(),
        on_open_list(s, c),
        s.cells[c] is Open,
        s.cells[c]->Open_0 >= s.frames[k].base,
    ensures
        unwound(s, depth).cells[c] == UpvalueView::Closed(slot_value(s.stack, s.cells[c]->Open_0 as int)),
    decreases s.frames.len(),
{
    let slot = s.cells[c]->Open_0;
    let top = s.frames.len() - 1;
    let next = VmView { frames: s.frames.drop_last(), ..close_from(s, frame(s).base as int) };
    lemma_closed_cells(s.cells, s.open_upvalues, s.stack, frame(s).base as int, c);
    if next.cells[c] is Closed {
        lemma_unwound_keeps_closed(next, depth, c);
    } else {
        assert(k < top);
        assert(next.frames[k] == s.frames[k]);
        law_unwinding_closes_the_cells_of_popped_frames(next, depth, k, c);
    }
}

/// A throw under a handler closes the cells of the frames it pops, each
/// over the value that its slot held when the value was thrown.
pub proof fn law_throw_closes_the_cells_of_popped_frames(s: VmView, v: ValueView, k: int, c: int)
    requires
        s.handlers.len() > 0,
        1 <= s.handlers.last().frame_depth <= k < s.frames.len(),
        0 <= c < s.cells.len(),
        on_open_list(s, c),
        s.cells[c] is Open,
        s.cells[c]->Open_0 >= s.frames[k].base,
    ensures
        throw(s, v).0.cells[c] == UpvalueView::Closed(slot_value(s.stack, s.cells[c]->Open_0 as int)),
{
    let h = s.handlers.last();
    let under = VmView { handlers: s.handlers.drop_last(), ..s };
    lemma_unwound(under, h.frame_depth as nat);
    assert(on_open_list(under, c));
    law_unwinding_closes_the_cells_of_popped_frames(under, h.frame_depth as nat, k, c);
}

/// `Return_` leaves the frame: the frame is gone, the stack is what lay
/// below the frame's base with the returned value on top, and every open
/// cell that the open list names and whose slot belonged to the frame is
/// closed over the value that its slot held.
pub proof fn law_return_pushes_the_value_and_closes_the_cells(s: VmView, v: ValueView, c: int)
    requires
        s.frames.len() > 0,
        frame(s).base <= s.stack.len(),
        0 <= c < s.cells.len(),
    ensures
        ({
            let left = return_value(s, v).0;
            &&& left.frames == s.frames.drop_last()
            &&& left.stack == s.stack.take(frame(s).base as int).push(v)
            &&& left.stack.len() == frame(s).base + 1
            &&& left.stack[frame(s).base as int] == v
            &&& left.cells.len() == s.cells.len()
            &&& (on_open_list(s, c) && s.cells[c] is Open && s.cells[c]->Open_0 >= frame(s).base) ==> left.cells[c]
                == UpvalueView::Closed(slot_value(s.stack, s.cells[c]->Open_0 as int))
            &&& s.cells[c] is Closed ==> left.cells[c] == s.cells[c]
        }),
{
    lemma_closed_cells(s.cells, s.open_upvalues, s.stack, frame(s).base as int, c);
}

/// A runtime error is a throw of its message: under a handler it is
/// caught like any thrown value.
pub proof fn law_fault_is_a_throw(s: VmView, message: Seq<char>)
    ensures
        fault(s, message) == throw(s, ValueView::String(message)),
{
}

// ---------------------------------------------------------------------------
// Globals
// ---------------------------------------------------------------------------

/// A global can be defined once: the definition of a new name binds it,
/// and a second definition of the same name throws and changes no
/// binding.
pub proof fn law_global_is_defined_once(s: VmView, k: usize, name: Seq<char>)
    requires
        s.frames.len() > 0,
        name_at(s, k) == Some(name),
        s.stack.len() >= 2,
        lookup(s.globals, name) is None,
    ensures
        ({
            let (first, action) = op_define_global(s, k);
            &&& action is Continue
            &&& first.globals == s.globals.push((name, s.stack.last()))
            &&& op_define_global(first, k) == throw(popped(first, 1), ValueView::String(GLOBAL_DEFINED@))
            &&& throw(popped(first, 1), ValueView::String(GLOBAL_DEFINED@)).0.globals == first.globals
        }),
{
    let (first, action) = op_define_global(s, k);
    let n = s.globals.len() as int;
    assert(first.globals[n].0 == name);
    lemma_has_first(first.globals, name, n);
    let t = popped(first, 1);
    if t.handlers.len() > 0 {
        let h = t.handlers.last();
        lemma_unwound_globals(VmView { handlers: t.handlers.drop_last(), ..t }, h.frame_depth as nat);
    }
}

/// Unwinding leaves the globals alone, whatever the depth.
proof fn lemma_unwound_globals(s: VmView, depth: nat)
    ensures
        unwound(s, depth).globals == s.globals,
    decreases s.frames.len(),
{
    if s.frames.len() > depth {
        let next = VmView { frames: s.frames.drop_last(), ..close_from(s, frame(s).base as int) };
        lemma_unwound_globals(next, depth);
    }
}

} // verus!
