//! What holds of every graph, proved from the contracts of the library.

use vstd::prelude::*;
use crate::builder::GraphBuilder;
use crate::error::Fault;
use crate::frame::{cell_at, in_store, FrameView};
use crate::graph::{insertion_order, repeated_order, Graph};
use crate::node::UnsafeNode;
use crate::port::CellAddr;
use crate::wiring::{lemma_output_addr, lemma_resolved, named, output_at, resolve};

verus! {

/// Every input of a graph is wired once, by `build`: to the output that
/// the builder's declarations resolve its reference to. A graph that has
/// the wiring of the built one, as every later state of it has, still reads
/// that same cell.
pub proof fn lemma_bind_once<T>(
    builder: GraphBuilder<T>,
    built: Graph<T>,
    later: Graph<T>,
    i: int,
    k: int,
)
    requires
        builder.yields(&built),
        built.wf(),
        later.same_wiring(&built),
        0 <= i < builder.inputs().len(),
        0 <= k < builder.inputs()[i].len(),
    ensures
        resolve(builder.outputs(), builder.inputs()[i][k]) == Ok::<CellAddr, Fault>(
            later.sources()[i][k],
        ),
{
}

/// What an input is wired to does not move. In a tick, the cell that input
/// `k` of node `i` reads through its frame is the one the graph was wired
/// with; it is a cell of the store the node runs on, and of the store the
/// tick leaves.
pub proof fn lemma_pointer_stability<T>(
    before: Graph<T>,
    after: Graph<T>,
    steps: Seq<Seq<Seq<T>>>,
    i: int,
    k: int,
)
    requires
        before.wf(),
        before.ticked(steps, after.store()),
        after.same_wiring(&before),
        0 <= i < before.nodes().len(),
        0 <= k < before.inputs()[i].len(),
    ensures
        before.frame_of(i, steps[i]).sources[k] == after.sources()[i][k],
        in_store(steps[i], after.sources()[i][k]),
        in_store(after.store(), after.sources()[i][k]),
        before.frame_of(i, steps[i]).input(k) == cell_at(steps[i], after.sources()[i][k]),
{
    let addr = before.sources()[i][k];
    lemma_resolved(before.outputs(), before.inputs()[i][k], addr);
    lemma_shape_kept(before, steps, after.store(), before.nodes().len() as int, addr.node as int);
    lemma_shape_kept(before, steps, after.store(), i, addr.node as int);
}

/// Within a tick no block changes its length.
pub proof fn lemma_shape_kept<T>(
    graph: Graph<T>,
    steps: Seq<Seq<Seq<T>>>,
    end: Seq<Seq<T>>,
    j: int,
    block: int,
)
    requires
        graph.ticked(steps, end),
        0 <= j <= graph.nodes().len(),
        0 <= block < graph.store().len(),
    ensures
        steps[j].len() == graph.store().len(),
        steps[j][block].len() == graph.store()[block].len(),
    decreases j,
{
    if j > 0 {
        lemma_shape_kept(graph, steps, end, j - 1, block);
        assert(graph.step_at(steps, j - 1));
    }
}

/// The output that an input reads carries the name the input references,
/// and has the input's element type.
pub proof fn lemma_type_soundness<T>(graph: Graph<T>, i: int, k: int)
    requires
        graph.wf(),
        0 <= i < graph.nodes().len(),
        0 <= k < graph.inputs()[i].len(),
    ensures
        named(graph.outputs(), graph.sources()[i][k], graph.inputs()[i][k].name),
        output_at(graph.outputs(), graph.sources()[i][k]).token == graph.inputs()[i][k].token,
{
    lemma_resolved(graph.outputs(), graph.inputs()[i][k], graph.sources()[i][k]);
}

/// Two different outputs of a graph have different qualified names.
pub proof fn lemma_unique_qualified_outputs<T>(graph: Graph<T>, a: CellAddr, b: CellAddr)
    requires
        graph.wf(),
        in_store(graph.outputs(), a),
        in_store(graph.outputs(), b),
        a != b,
    ensures
        output_at(graph.outputs(), a).name != output_at(graph.outputs(), b).name,
{
}

/// The insertion order repeated `ticks` times names node `k mod n` at
/// position `k`.
pub proof fn lemma_repeated_order(n: nat, ticks: nat, k: int)
    requires
        0 <= k < n * ticks,
    ensures
        repeated_order(n, ticks).len() == n * ticks,
        repeated_order(n, ticks)[k] == k % (n as int),
    decreases ticks,
{
    lemma_repeated_order_len(n, ticks);
    if ticks > 0 {
        let earlier = (ticks - 1) as nat;
        lemma_repeated_order_len(n, earlier);
        assert(n * ticks == n * earlier + n) by (nonlinear_arith)
            requires
                earlier == ticks - 1,
        ;
        if k < n * earlier {
            lemma_repeated_order(n, earlier, k);
        } else {
            let r = k - n * earlier;
            assert((n * earlier + r) % (n as int) == r) by (nonlinear_arith)
                requires
                    0 <= r < n,
            ;
        }
    }
}

/// The insertion order repeated `ticks` times has `n * ticks` entries.
pub proof fn lemma_repeated_order_len(n: nat, ticks: nat)
    ensures
        repeated_order(n, ticks).len() == n * ticks,
    decreases ticks,
{
    if ticks > 0 {
        let earlier = (ticks - 1) as nat;
        lemma_repeated_order_len(n, earlier);
        assert(n * ticks == n * earlier + n) by (nonlinear_arith)
            requires
                earlier == ticks - 1,
        ;
    } else {
        assert(n * ticks == 0) by (nonlinear_arith)
            requires
                ticks == 0,
        ;
    }
}

/// A run record that starts empty and grows by the insertion order of `n`
/// nodes with every tick is, after `ticks` ticks, that order repeated
/// `ticks` times.
pub proof fn lemma_history(n: nat, history: Seq<Seq<nat>>, ticks: nat)
    requires
        history.len() == ticks + 1,
        history[0] == Seq::<nat>::empty(),
        forall|t: int| 0 <= t < ticks ==> #[trigger] history[t + 1] == history[t] + insertion_order(n),
    ensures
        history[ticks as int] == repeated_order(n, ticks),
    decreases ticks,
{
    if ticks > 0 {
        let earlier = (ticks - 1) as nat;
        lemma_history(n, history.subrange(0, ticks as int), earlier);
    }
}

/// Ticks run the nodes in insertion order. Let `states[0]` be a graph as
/// `build` leaves it, and each further state what `evaluate` makes of the
/// one before. After `ticks` ticks the nodes have run in insertion order,
/// `ticks` times over: run number `k` was of node `k mod n`, where `n` is
/// the number of nodes.
pub proof fn lemma_order_fidelity<T>(states: Seq<Graph<T>>, ticks: nat)
    requires
        states.len() == ticks + 1,
        states[0].executed() == Seq::<nat>::empty(),
        forall|t: int|
            0 <= t < ticks ==> {
                &&& (#[trigger] states[t + 1]).same_wiring(&states[t])
                &&& states[t + 1].executed() == states[t].executed() + insertion_order(
                    states[t].nodes().len(),
                )
            },
    ensures
        states[ticks as int].executed() == repeated_order(states[0].nodes().len(), ticks),
        states[ticks as int].executed().len() == states[0].nodes().len() * ticks,
        forall|k: int|
            0 <= k < states[0].nodes().len() * ticks ==> #[trigger] states[ticks as int].executed()[k]
                == k % (states[0].nodes().len() as int),
{
    let n = states[0].nodes().len();
    let history = Seq::new(states.len(), |t: int| states[t].executed());
    assert forall|t: int| 0 <= t <= ticks implies (#[trigger] states[t]).nodes().len() == n by {
        lemma_same_size(states, ticks, t);
    }
    assert forall|t: int| 0 <= t < ticks implies #[trigger] history[t + 1] == history[t]
        + insertion_order(n) by {
    }
    lemma_history(n, history, ticks);
    lemma_repeated_order_len(n, ticks);
    assert forall|k: int| 0 <= k < n * ticks implies #[trigger] states[ticks as int].executed()[k]
        == k % (n as int) by {
        lemma_repeated_order(n, ticks, k);
    }
}

/// Ticks keep the number of nodes.
pub proof fn lemma_same_size<T>(states: Seq<Graph<T>>, ticks: nat, t: int)
    requires
        states.len() == ticks + 1,
        forall|u: int| 0 <= u < ticks ==> (#[trigger] states[u + 1]).same_wiring(&states[u]),
        0 <= t <= ticks,
    ensures
        states[t].nodes().len() == states[0].nodes().len(),
    decreases t,
{
    if t > 0 {
        lemma_same_size(states, ticks, t - 1);
        assert(states[(t - 1) + 1].same_wiring(&states[t - 1]));
    }
}

/// Building is a function of what was declared. Two builders that hold the
/// same nodes, ports and cells yield graphs with the same wiring and the
/// same cells; whatever course a tick of one may take, it may take of the
/// other.
pub proof fn lemma_build_is_deterministic<T>(
    first: GraphBuilder<T>,
    second: GraphBuilder<T>,
    one: Graph<T>,
    other: Graph<T>,
)
    requires
        first.nodes() == second.nodes(),
        first.store() == second.store(),
        first.outputs() == second.outputs(),
        first.inputs() == second.inputs(),
        first.yields(&one),
        second.yields(&other),
        one.wf(),
        other.wf(),
    ensures
        one.same_wiring(&other),
        one.store() == other.store(),
        one.executed() == other.executed(),
        forall|steps: Seq<Seq<Seq<T>>>, end: Seq<Seq<T>>|
            one.ticked(steps, end) == other.ticked(steps, end),
        agree(one, other),
{
    assert(one.sources() =~~= other.sources()) by {
        assert forall|i: int| 0 <= i < one.sources().len() implies one.sources()[i]
            =~= other.sources()[i] by {
            assert forall|k: int| 0 <= k < one.sources()[i].len() implies one.sources()[i][k]
                == other.sources()[i][k] by {
                assert(resolve(other.outputs(), other.inputs()[i][k]) == Ok::<CellAddr, Fault>(
                    other.sources()[i][k],
                ));
            }
        }
    }
    assert forall|steps: Seq<Seq<Seq<T>>>, end: Seq<Seq<T>>|
        one.ticked(steps, end) == other.ticked(steps, end) by {
        if one.ticked(steps, end) {
            assert forall|i: int| 0 <= i < other.nodes().len() implies #[trigger] other.step_at(
                steps,
                i,
            ) by {
                assert(one.step_at(steps, i));
            }
        }
        if other.ticked(steps, end) {
            assert forall|i: int| 0 <= i < one.nodes().len() implies #[trigger] one.step_at(
                steps,
                i,
            ) by {
                assert(other.step_at(steps, i));
            }
        }
    }
}

/// Once node `i` has run in a tick, its block stays as it left it until the
/// tick ends.
pub proof fn lemma_block_settled<T>(
    graph: Graph<T>,
    steps: Seq<Seq<Seq<T>>>,
    end: Seq<Seq<T>>,
    i: int,
    j: int,
)
    requires
        graph.ticked(steps, end),
        graph.wf(),
        0 <= i < j <= graph.nodes().len(),
    ensures
        steps[j][i] == steps[i + 1][i],
    decreases j,
{
    if j > i + 1 {
        lemma_block_settled(graph, steps, end, i, j - 1);
        assert(graph.step_at(steps, j - 1));
        lemma_shape_kept(graph, steps, end, j - 1, i);
    }
}

/// Until node `j` runs in a tick, its block is as the tick found it: a node
/// that runs before its producer reads what the tick before left.
pub proof fn lemma_block_untouched<T>(
    graph: Graph<T>,
    steps: Seq<Seq<Seq<T>>>,
    end: Seq<Seq<T>>,
    i: int,
    j: int,
)
    requires
        graph.wf(),
        graph.ticked(steps, end),
        0 <= i <= j < graph.nodes().len(),
    ensures
        steps[i][j] == graph.store()[j],
    decreases i,
{
    if i > 0 {
        lemma_block_untouched(graph, steps, end, i - 1, j);
        assert(graph.step_at(steps, i - 1));
        lemma_shape_kept(graph, steps, end, i - 1, j);
    }
}

/// A node that reads its own cell reads what it last wrote: after it has
/// written `value` to its cell `slot`, an input wired to that cell reads
/// `value`; before, the input reads what the cell held. An input wired to
/// another cell reads the same before and after.
pub proof fn lemma_own_write_is_read<T>(view: FrameView<T>, k: int, slot: int, value: T)
    requires
        0 <= view.node < view.store.len(),
        0 <= slot < view.own().len(),
        0 <= k < view.sources.len(),
        in_store(view.store, view.sources[k]),
    ensures
        view.sources[k].node == view.node && view.sources[k].slot == slot ==> view.written(
            slot,
            value,
        ).input(k) == value && view.input(k) == view.own()[slot],
        !(view.sources[k].node == view.node && view.sources[k].slot == slot) ==> view.written(
            slot,
            value,
        ).input(k) == view.input(k),
{
}

/// A pure node repeats itself. Let two ticks follow one another, and let
/// node `i` be a function `f` of the values its inputs read, in the first
/// tick and in the second. If its inputs read the same values in both
/// ticks, its cells hold the same values after both.
pub proof fn lemma_pure_node_repeats<T>(
    start: Graph<T>,
    middle: Graph<T>,
    end: Graph<T>,
    first: Seq<Seq<Seq<T>>>,
    second: Seq<Seq<Seq<T>>>,
    i: int,
    f: spec_fn(Seq<T>) -> Seq<T>,
)
    requires
        start.wf(),
        middle.wf(),
        start.ticked(first, middle.store()),
        middle.same_wiring(&start),
        middle.ticked(second, end.store()),
        0 <= i < start.nodes().len(),
        forall|before: FrameView<T>, after: Seq<T>|
            #[trigger] start.nodes()[i].effect(Seq::empty(), before, after) ==> after == f(
                before.inputs(),
            ),
        forall|before: FrameView<T>, after: Seq<T>|
            #[trigger] middle.nodes()[i].effect(Seq::empty(), before, after) ==> after == f(
                before.inputs(),
            ),
        start.frame_of(i, first[i]).inputs() == middle.frame_of(i, second[i]).inputs(),
    ensures
        middle.store()[i] == end.store()[i],
{
    assert(start.step_at(first, i));
    assert(middle.step_at(second, i));
    lemma_block_settled(start, first, middle.store(), i, start.nodes().len() as int);
    lemma_block_settled(middle, second, end.store(), i, middle.nodes().len() as int);
}

/// Two inputs that reference the same qualified name read the same cell,
/// and so the same value whenever they are read on the same store.
pub proof fn lemma_fan_out<T>(graph: Graph<T>, i: int, k: int, i2: int, k2: int, store: Seq<Seq<T>>)
    requires
        graph.wf(),
        0 <= i < graph.nodes().len(),
        0 <= k < graph.inputs()[i].len(),
        0 <= i2 < graph.nodes().len(),
        0 <= k2 < graph.inputs()[i2].len(),
        graph.inputs()[i][k].name == graph.inputs()[i2][k2].name,
    ensures
        graph.sources()[i][k] == graph.sources()[i2][k2],
        graph.frame_of(i, store).input(k) == graph.frame_of(i2, store).input(k2),
{
    let name = graph.inputs()[i][k].name;
    lemma_resolved(graph.outputs(), graph.inputs()[i][k], graph.sources()[i][k]);
    lemma_resolved(graph.outputs(), graph.inputs()[i2][k2], graph.sources()[i2][k2]);
    lemma_output_addr(graph.outputs(), graph.sources()[i][k], name);
    lemma_output_addr(graph.outputs(), graph.sources()[i2][k2], name);
}

/// Two graphs agree: they have the same wiring, the same cells and the
/// same run record, and node for node the same behaviour.
pub open spec fn agree<T>(one: Graph<T>, other: Graph<T>) -> bool {
    &&& one.same_wiring(&other)
    &&& one.store() == other.store()
    &&& one.executed() == other.executed()
    &&& forall|i: int, seen: Seq<FrameView<T>>, before: FrameView<T>, after: Seq<T>|
        0 <= i < one.nodes().len() ==> #[trigger] one.nodes()[i].effect(seen, before, after)
            == other.nodes()[i].effect(seen, before, after)
}

/// Every node of the graph is deterministic: whatever it has seen, the
/// frame it runs on decides what it leaves in its block.
pub open spec fn deterministic<T>(graph: Graph<T>) -> bool {
    forall|i: int, seen: Seq<FrameView<T>>, before: FrameView<T>, left: Seq<T>, right: Seq<T>|
        0 <= i < graph.nodes().len() && #[trigger] graph.nodes()[i].effect(seen, before, left)
            && #[trigger] graph.nodes()[i].effect(seen, before, right) ==> left == right
}

/// A tick of two graphs that agree, with deterministic nodes, takes the
/// same course up to every step.
pub proof fn lemma_same_course<T>(
    one: Graph<T>,
    other: Graph<T>,
    course: Seq<Seq<Seq<T>>>,
    end: Seq<Seq<T>>,
    other_course: Seq<Seq<Seq<T>>>,
    other_end: Seq<Seq<T>>,
    j: int,
)
    requires
        agree(one, other),
        deterministic(one),
        one.ticked(course, end),
        other.ticked(other_course, other_end),
        0 <= j <= one.nodes().len(),
    ensures
        course[j] == other_course[j],
    decreases j,
{
    if j > 0 {
        let i = j - 1;
        lemma_same_course(one, other, course, end, other_course, other_end, i);
        assert(one.step_at(course, i));
        assert(other.step_at(other_course, i));
        let frame = one.frame_of(i, course[i]);
        assert(frame == other.frame_of(i, other_course[i]));
        assert(one.nodes()[i].effect(Seq::empty(), frame, course[j][i]));
        assert(one.nodes()[i].effect(Seq::empty(), frame, other_course[j][i]));
        assert(course[j][i] == other_course[j][i]);
        assert(course[j] =~= other_course[j]);
    }
}

/// A tick keeps agreement. Let two graphs agree and their nodes be
/// deterministic. Then a tick of the one and a tick of the other take the
/// same course, and what they leave agrees again, with deterministic nodes.
pub proof fn lemma_same_tick<T>(
    one: Graph<T>,
    other: Graph<T>,
    course: Seq<Seq<Seq<T>>>,
    other_course: Seq<Seq<Seq<T>>>,
    next: Graph<T>,
    other_next: Graph<T>,
)
    requires
        agree(one, other),
        deterministic(one),
        one.ticks_to(course, &next),
        other.ticks_to(other_course, &other_next),
    ensures
        course == other_course,
        agree(next, other_next),
        deterministic(next),
{
    let n = one.nodes().len() as int;
    assert forall|j: int| 0 <= j < course.len() implies course[j] == other_course[j] by {
        lemma_same_course(one, other, course, next.store(), other_course, other_next.store(), j);
    }
    assert(course =~= other_course);
    lemma_same_course(one, other, course, next.store(), other_course, other_next.store(), n);
    assert forall|i: int, seen: Seq<FrameView<T>>, before: FrameView<T>, after: Seq<T>|
        0 <= i < next.nodes().len() implies #[trigger] next.nodes()[i].effect(seen, before, after)
        == other_next.nodes()[i].effect(seen, before, after) by {
        assert(one.node_ran(i, one.frame_of(i, course[i]), next.nodes()[i]));
        assert(other.node_ran(i, other.frame_of(i, other_course[i]), other_next.nodes()[i]));
    }
    assert forall|i: int, seen: Seq<FrameView<T>>, before: FrameView<T>, left: Seq<T>, right: Seq<T>|
        0 <= i < next.nodes().len() && #[trigger] next.nodes()[i].effect(seen, before, left)
            && #[trigger] next.nodes()[i].effect(seen, before, right) implies left == right by {
        assert(one.node_ran(i, one.frame_of(i, course[i]), next.nodes()[i]));
    }
}

/// The same declarations give the same ticks. Let two graphs agree at
/// first, as graphs built from the same declarations do, and let their
/// nodes be deterministic. However many ticks each makes, after the same
/// number of ticks the two agree: the same cells hold the same values, the
/// same nodes have run in the same order, and every tick took the same
/// course in both.
pub proof fn lemma_same_ticks<T>(
    states: Seq<Graph<T>>,
    other_states: Seq<Graph<T>>,
    courses: Seq<Seq<Seq<Seq<T>>>>,
    other_courses: Seq<Seq<Seq<Seq<T>>>>,
    ticks: nat,
    t: int,
)
    requires
        states.len() == ticks + 1,
        other_states.len() == ticks + 1,
        courses.len() == ticks,
        other_courses.len() == ticks,
        agree(states[0], other_states[0]),
        deterministic(states[0]),
        forall|u: int|
            0 <= u < ticks ==> (#[trigger] states[u]).ticks_to(courses[u], &states[u + 1]),
        forall|u: int|
            0 <= u < ticks ==> (#[trigger] other_states[u]).ticks_to(
                other_courses[u],
                &other_states[u + 1],
            ),
        0 <= t <= ticks,
    ensures
        agree(states[t], other_states[t]),
        deterministic(states[t]),
        forall|u: int| 0 <= u < t ==> #[trigger] courses[u] == other_courses[u],
    decreases t,
{
    if t > 0 {
        let u = t - 1;
        lemma_same_ticks(states, other_states, courses, other_courses, ticks, u);
        assert(states[u].ticks_to(courses[u], &states[u + 1]));
        assert(other_states[u].ticks_to(other_courses[u], &other_states[u + 1]));
        lemma_same_tick(
            states[u],
            other_states[u],
            courses[u],
            other_courses[u],
            states[t],
            other_states[t],
        );
    }
}

} // verus!
