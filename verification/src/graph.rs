//! The runnable graph: nodes, cells and wiring, evaluated in insertion order.

use vstd::prelude::*;
use vstd::string::*;
use crate::error::Fault;
use crate::frame::{cell_at, in_store, joined, preceded, Frame, FrameView};
use crate::node::{AliasBox, UnsafeNode};
use crate::port::{CellAddr, Port, PortView};
use crate::wiring::{
    find_output, first_named_output, has_output, lemma_resolved, output_at, ports_of, resolve,
    sources_of, store_of, unique_outputs,
};

verus! {

/// The nodes `0, 1, .., n - 1` in the order they were added.
pub open spec fn insertion_order(n: nat) -> Seq<nat> {
    Seq::new(n, |i: int| i as nat)
}

/// The order in which `ticks` ticks run `n` nodes: the insertion order, once
/// per tick.
pub open spec fn repeated_order(n: nat, ticks: nat) -> Seq<nat>
    decreases ticks,
{
    if ticks == 0 {
        Seq::empty()
    } else {
        repeated_order(n, (ticks - 1) as nat) + insertion_order(n)
    }
}

/// A wired graph. It owns the nodes and every cell; the wiring is fixed.
#[verifier::reject_recursive_types(T)]
pub struct Graph<T> {
    nodes: Vec<AliasBox<dyn UnsafeNode<T>>>,
    cells: Vec<Vec<T>>,
    outputs: Vec<Vec<Port>>,
    inputs: Vec<Vec<Port>>,
    sources: Vec<Vec<CellAddr>>,
    executed: Ghost<Seq<nat>>,
}

impl<T> Graph<T> {
    /// The nodes, in insertion order.
    pub closed spec fn nodes(&self) -> Seq<AliasBox<dyn UnsafeNode<T>>> {
        self.nodes@
    }

    /// The cells: one block per node, one cell per output.
    pub closed spec fn store(&self) -> Seq<Seq<T>> {
        store_of(self.cells@)
    }

    /// The outputs of each node, under their qualified names.
    pub closed spec fn outputs(&self) -> Seq<Seq<PortView>> {
        ports_of(self.outputs@)
    }

    /// The inputs of each node; the name of each is the qualified name it
    /// references.
    pub closed spec fn inputs(&self) -> Seq<Seq<PortView>> {
        ports_of(self.inputs@)
    }

    /// The cell that each input of each node reads.
    pub closed spec fn sources(&self) -> Seq<Seq<CellAddr>> {
        sources_of(self.sources@)
    }

    /// The nodes that were run since the graph was built, oldest first.
    pub closed spec fn executed(&self) -> Seq<nat> {
        self.executed@
    }

    /// The graph is consistent: every node has its ports and its block, each
    /// block has one cell per output, no two outputs share a qualified name,
    /// and each input reads the output that its reference resolves to.
    pub open spec fn wf(&self) -> bool {
        let n = self.nodes().len();
        &&& self.outputs().len() == n
        &&& self.inputs().len() == n
        &&& self.sources().len() == n
        &&& self.store().len() == n
        &&& forall|i: int| 0 <= i < n ==> (#[trigger] self.store()[i]).len() == self.outputs()[i].len()
        &&& forall|i: int|
            0 <= i < n ==> (#[trigger] self.sources()[i]).len() == self.inputs()[i].len()
        &&& unique_outputs(self.outputs())
        &&& forall|i: int, k: int|
            0 <= i < n && 0 <= k < self.inputs()[i].len() ==> resolve(
                self.outputs(),
                #[trigger] self.inputs()[i][k],
            ) == Ok::<CellAddr, Fault>(self.sources()[i][k])
    }

    /// What node `i` sees when it runs on `store`.
    pub open spec fn frame_of(&self, i: int, store: Seq<Seq<T>>) -> FrameView<T> {
        FrameView { node: i, store, sources: self.sources()[i] }
    }

    /// `after` is a store that a run of node `i` on `before` may leave: the
    /// blocks of the other nodes are untouched, and the node's own block is
    /// one that its behaviour allows.
    pub open spec fn stepped(&self, i: int, before: Seq<Seq<T>>, after: Seq<Seq<T>>) -> bool {
        &&& after.len() == before.len()
        &&& forall|j: int| 0 <= j < before.len() && j != i ==> after[j] == before[j]
        &&& after[i].len() == before[i].len()
        &&& self.nodes()[i].effect(Seq::empty(), self.frame_of(i, before), after[i])
    }

    /// Step `i` of `steps` is a run of node `i`.
    pub open spec fn step_at(&self, steps: Seq<Seq<Seq<T>>>, i: int) -> bool {
        self.stepped(i, steps[i], steps[i + 1])
    }

    /// `steps` is the course of one tick that starts here and ends with the
    /// store `end`: the nodes run one after the other in insertion order,
    /// each on the store that its predecessor left.
    pub open spec fn ticked(&self, steps: Seq<Seq<Seq<T>>>, end: Seq<Seq<T>>) -> bool {
        &&& steps.len() == self.nodes().len() + 1
        &&& steps[0] == self.store()
        &&& steps[self.nodes().len() as int] == end
        &&& forall|i: int| 0 <= i < self.nodes().len() ==> #[trigger] self.step_at(steps, i)
    }

    /// `later` is node `i` once it has run on `frame`: what it may do from
    /// then on is what node `i` might have done after seeing that frame.
    pub open spec fn node_ran(
        &self,
        i: int,
        frame: FrameView<T>,
        later: AliasBox<dyn UnsafeNode<T>>,
    ) -> bool {
        forall|seen: Seq<FrameView<T>>, before: FrameView<T>, after: Seq<T>|
            #[trigger] later.effect(seen, before, after) == self.nodes()[i].effect(
                preceded(frame, seen),
                before,
                after,
            )
    }

    /// The nodes of `later` are the nodes of `self` once each has run on its
    /// frame in the tick of course `steps`.
    pub open spec fn aged(&self, steps: Seq<Seq<Seq<T>>>, later: &Graph<T>) -> bool {
        &&& later.nodes().len() == self.nodes().len()
        &&& forall|i: int|
            0 <= i < self.nodes().len() ==> #[trigger] self.node_ran(
                i,
                self.frame_of(i, steps[i]),
                later.nodes()[i],
            )
    }

    /// `later` is what one tick of course `steps` makes of `self`: the store
    /// is the one the course ends with, every node has run on its frame, the
    /// wiring is the same, and the run record has grown by the insertion
    /// order.
    pub open spec fn ticks_to(&self, steps: Seq<Seq<Seq<T>>>, later: &Graph<T>) -> bool {
        &&& self.ticked(steps, later.store())
        &&& self.aged(steps, later)
        &&& later.same_wiring(self)
        &&& later.executed() == self.executed() + insertion_order(self.nodes().len())
    }

    /// The wiring of `self` is that of `other`.
    pub open spec fn same_wiring(&self, other: &Graph<T>) -> bool {
        &&& self.nodes().len() == other.nodes().len()
        &&& self.outputs() == other.outputs()
        &&& self.inputs() == other.inputs()
        &&& self.sources() == other.sources()
    }

    /// Puts a graph together from wired parts.
    pub(crate) fn assemble(
        nodes: Vec<AliasBox<dyn UnsafeNode<T>>>,
        cells: Vec<Vec<T>>,
        outputs: Vec<Vec<Port>>,
        inputs: Vec<Vec<Port>>,
        sources: Vec<Vec<CellAddr>>,
    ) -> (graph: Graph<T>)
        ensures
            graph.nodes() == nodes@,
            graph.store() == store_of(cells@),
            graph.outputs() == ports_of(outputs@),
            graph.inputs() == ports_of(inputs@),
            graph.sources() == sources_of(sources@),
            graph.executed() == Seq::<nat>::empty(),
    {
        Graph { nodes, cells, outputs, inputs, sources, executed: Ghost(Seq::empty()) }
    }

    /// The number of nodes.
    pub fn len(&self) -> (n: usize)
        ensures
            n == self.nodes().len(),
    {
        self.nodes.len()
    }

    /// The address of the output called `name`, if there is one.
    pub fn find(&self, name: &str) -> (found: Option<CellAddr>)
        ensures
            match found {
                Some(addr) => first_named_output(self.outputs(), addr, name@),
                None => !has_output(self.outputs(), name@),
            },
    {
        find_output(&self.outputs, &String::from_str(name))
    }

    /// The output at `addr`, if there is one: its qualified name and element
    /// type.
    pub fn output_port(&self, addr: CellAddr) -> (port: Option<&Port>)
        ensures
            match port {
                Some(p) => in_store(self.outputs(), addr) && p.port() == output_at(
                    self.outputs(),
                    addr,
                ),
                None => !in_store(self.outputs(), addr),
            },
    {
        if addr.node < self.outputs.len() && addr.slot < self.outputs[addr.node].len() {
            Some(&self.outputs[addr.node][addr.slot])
        } else {
            None
        }
    }

    /// Input `input` of node `node`, if there is one: the qualified name it
    /// references and its element type.
    pub fn input_port(&self, node: usize, input: usize) -> (port: Option<&Port>)
        ensures
            match port {
                Some(p) => node < self.inputs().len() && input < self.inputs()[node as int].len()
                    && p.port() == self.inputs()[node as int][input as int],
                None => !(node < self.inputs().len() && input < self.inputs()[node as int].len()),
            },
    {
        if node < self.inputs.len() && input < self.inputs[node].len() {
            Some(&self.inputs[node][input])
        } else {
            None
        }
    }

    /// The value that the cell at `addr` holds, if there is such a cell.
    pub fn value(&self, addr: CellAddr) -> (value: Option<&T>)
        ensures
            match value {
                Some(v) => in_store(self.store(), addr) && *v == cell_at(self.store(), addr),
                None => !in_store(self.store(), addr),
            },
    {
        if addr.node < self.cells.len() && addr.slot < self.cells[addr.node].len() {
            Some(&self.cells[addr.node][addr.slot])
        } else {
            None
        }
    }

    /// The address of the cell that input `input` of node `node` reads, if
    /// there is such an input.
    pub fn source(&self, node: usize, input: usize) -> (source: Option<CellAddr>)
        ensures
            match source {
                Some(addr) => node < self.sources().len() && input < self.sources()[node as int].len()
                    && addr == self.sources()[node as int][input as int],
                None => !(node < self.sources().len() && input < self.sources()[node as int].len()),
            },
    {
        if node < self.sources.len() && input < self.sources[node].len() {
            Some(self.sources[node][input])
        } else {
            None
        }
    }

    /// One tick: every node runs once, in insertion order. Each sees the
    /// cells as its predecessors left them, and writes to its own only. The
    /// wiring stays as it is.
    pub fn evaluate(&mut self)
        requires
            old(self).wf(),
        ensures
            final(self).wf(),
            final(self).same_wiring(old(self)),
            exists|steps: Seq<Seq<Seq<T>>>| old(self).ticked(steps, final(self).store()),
            final(self).executed() == old(self).executed() + insertion_order(old(self).nodes().len()),
            exists|steps: Seq<Seq<Seq<T>>>| #[trigger] old(self).ticks_to(steps, final(self)),
    {
        let n = self.nodes.len();
        let ghost mut steps: Seq<Seq<Seq<T>>> = seq![self.store()];
        let mut i: usize = 0;
        while i < n
            invariant
                i <= n,
                old(self).wf(),
                n == old(self).nodes@.len(),
                self.nodes@.len() == n,
                self.cells@.len() == n,
                self.outputs == old(self).outputs,
                self.inputs == old(self).inputs,
                self.sources == old(self).sources,
                forall|j: int| 0 <= j < n ==> self.cells@[j]@.len() == old(self).cells@[j]@.len(),
                forall|j: int| i <= j < n ==> self.nodes@[j] == old(self).nodes@[j],
                steps.len() == i + 1,
                steps[0] == old(self).store(),
                steps[i as int] == self.store(),
                forall|j: int| 0 <= j < i ==> #[trigger] old(self).step_at(steps, j),
                forall|j: int|
                    0 <= j < i ==> #[trigger] old(self).node_ran(
                        j,
                        old(self).frame_of(j, steps[j]),
                        self.nodes@[j],
                    ),
                self.executed@ == old(self).executed@ + insertion_order(i as nat),
            decreases n - i,
        {
            let ghost before = self.store();
            let ghost earlier = steps;
            let ghost nodes_before = self.nodes@;
            let mut own: Vec<T> = Vec::new();
            std::mem::swap(&mut own, &mut self.cells[i]);
            proof {
                assert(joined(self.cells@, i as int, own@) =~= before);
                assert(old(self).sources()[i as int].len() == old(self).inputs()[i as int].len());
                assert forall|k: int| 0 <= k < self.sources@[i as int]@.len() implies in_store(
                    before,
                    #[trigger] self.sources@[i as int]@[k],
                ) by {
                    let input = old(self).inputs()[i as int][k];
                    let addr = old(self).sources()[i as int][k];
                    lemma_resolved(old(self).outputs(), input, addr);
                    assert(before[addr.node as int].len() == old(self).store()[addr.node as int].len());
                }
                assert(old(self).store()[i as int].len() == old(self).outputs()[i as int].len());
            }
            let mut frame = Frame::new(
                i,
                &self.inputs[i],
                &self.sources[i],
                &self.outputs[i],
                &self.cells,
                own,
            );
            self.nodes[i].evaluate(&mut frame);
            let own = frame.into_cells();
            self.cells[i] = own;
            proof {
                let after = self.store();
                steps = steps.push(after);
                self.executed@ = self.executed@.push(i as nat);
                assert(self.executed@ =~= old(self).executed@ + insertion_order((i + 1) as nat));
                assert forall|j: int| 0 <= j < before.len() && j != i implies after[j] == before[j] by {}
                assert forall|j: int| 0 <= j < i + 1 implies #[trigger] old(self).step_at(steps, j) by {
                    if j < i {
                        assert(old(self).step_at(earlier, j));
                    }
                }
                assert forall|j: int| 0 <= j < i + 1 implies #[trigger] old(self).node_ran(
                    j,
                    old(self).frame_of(j, steps[j]),
                    self.nodes@[j],
                ) by {
                    if j < i {
                        assert(self.nodes@[j] == nodes_before[j]);
                        assert(steps[j] == earlier[j]);
                        assert(old(self).node_ran(
                            j,
                            old(self).frame_of(j, earlier[j]),
                            nodes_before[j],
                        ));
                    } else {
                        assert(steps[j] == before);
                        assert(nodes_before[j] == old(self).nodes@[j]);
                    }
                }
            }
            i += 1;
        }
        proof {
            assert(old(self).ticked(steps, self.store()));
            assert(old(self).aged(steps, &*self));
            assert(old(self).ticks_to(steps, &*self));
            assert forall|j: int| 0 <= j < n implies (#[trigger] self.store()[j]).len()
                == self.outputs()[j].len() by {
                assert(old(self).store()[j].len() == old(self).outputs()[j].len());
            }
        }
    }
}

} // verus!
