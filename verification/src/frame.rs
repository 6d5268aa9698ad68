//! The view a running node has of the graph's cells.

use vstd::prelude::*;
use vstd::string::*;
use crate::error::{ErrorKind, Fault, GraphError};
use crate::port::{declared_ports, CellAddr, Input, Output, Port, PortView};

verus! {

/// `addr` names a cell of `store`.
pub open spec fn in_store<T>(store: Seq<Seq<T>>, addr: CellAddr) -> bool {
    addr.node < store.len() && addr.slot < store[addr.node as int].len()
}

/// The value that the cell at `addr` holds in `store`.
pub open spec fn cell_at<T>(store: Seq<Seq<T>>, addr: CellAddr) -> T {
    store[addr.node as int][addr.slot as int]
}

/// What a node sees when it runs: every cell of the graph, which node it is,
/// and the cell each of its inputs reads.
pub struct FrameView<T> {
    pub node: int,
    pub store: Seq<Seq<T>>,
    pub sources: Seq<CellAddr>,
}

impl<T> FrameView<T> {
    /// The node's own cells.
    pub open spec fn own(self) -> Seq<T> {
        self.store[self.node]
    }

    /// The value that the node's input `k` reads.
    pub open spec fn input(self, k: int) -> T {
        cell_at(self.store, self.sources[k])
    }

    /// The values that the node's inputs read, input by input.
    pub open spec fn inputs(self) -> Seq<T> {
        Seq::new(self.sources.len(), |k: int| self.input(k))
    }

    /// The same view after the node has written `value` to its cell `slot`.
    pub open spec fn written(self, slot: int, value: T) -> FrameView<T> {
        FrameView {
            node: self.node,
            store: self.store.update(self.node, self.own().update(slot, value)),
            sources: self.sources,
        }
    }
}

/// The frames `later` with the frame `first` before them.
pub open spec fn preceded<T>(first: FrameView<T>, later: Seq<FrameView<T>>) -> Seq<FrameView<T>> {
    seq![first] + later
}

/// The store that a node sees while its own block is held apart from the
/// blocks of the others.
pub open spec fn joined<T>(shared: Seq<Vec<T>>, node: int, own: Seq<T>) -> Seq<Seq<T>> {
    Seq::new(
        shared.len(),
        |j: int|
            if j == node {
                own
            } else {
                shared[j]@
            },
    )
}

/// The access a node has to the graph's cells while it runs: it reads the
/// cells its inputs are wired to, and reads and writes its own. A read
/// gives what the cell holds at that moment, whoever wrote it.
pub struct Frame<'a, T> {
    node: usize,
    inputs: &'a Vec<Port>,
    sources: &'a Vec<CellAddr>,
    outputs: &'a Vec<Port>,
    shared: &'a Vec<Vec<T>>,
    own: Vec<T>,
}

impl<'a, T> View for Frame<'a, T> {
    type V = FrameView<T>;

    closed spec fn view(&self) -> FrameView<T> {
        FrameView {
            node: self.node as int,
            store: joined(self.shared@, self.node as int, self.own@),
            sources: self.sources@,
        }
    }
}

impl<'a, T> Frame<'a, T> {
    /// The frame is of a node of the graph, has one cell per output and one
    /// source per input, and every source is a cell of the store.
    #[verifier::type_invariant]
    spec fn valid(&self) -> bool {
        &&& self.node < self.shared@.len()
        &&& self.outputs@.len() == self.own@.len()
        &&& self.inputs@.len() == self.sources@.len()
        &&& forall|k: int|
            0 <= k < self.sources@.len() ==> in_store(
                joined(self.shared@, self.node as int, self.own@),
                #[trigger] self.sources@[k],
            )
    }

    /// The node's own cells.
    pub closed spec fn cells(&self) -> Seq<T> {
        self.own@
    }

    /// The node's inputs: reference and element type of each.
    pub closed spec fn ports(&self) -> Seq<PortView> {
        declared_ports(self.inputs@)
    }

    /// The node's outputs: name and element type of each.
    pub closed spec fn outputs(&self) -> Seq<PortView> {
        declared_ports(self.outputs@)
    }

    /// What holds of every frame: the running node is a node of the store,
    /// its block is the one the view shows as its own and has one cell per
    /// output, and each of its inputs has its source, a cell of the store.
    pub open spec fn shaped(&self) -> bool {
        &&& 0 <= self@.node < self@.store.len()
        &&& self.cells() == self@.own()
        &&& self.cells().len() == self.outputs().len()
        &&& self@.sources.len() == self.ports().len()
        &&& forall|k: int|
            0 <= k < self@.sources.len() ==> in_store(self@.store, #[trigger] self@.sources[k])
    }

    /// `input` stands for an input of the running node, of the element type
    /// that the handle expects.
    pub open spec fn reads(&self, input: &Input<T>) -> bool {
        input.slot() matches Some(k) && k < self.ports().len() && self.ports()[k as int].token
            == input.token()
    }

    /// `output` stands for a cell of the running node, of the element type
    /// that the handle was made for.
    pub open spec fn owns(&self, output: &Output<T>) -> bool {
        output.slot() matches Some(s) && s < self.outputs().len() && self.outputs()[s as int].token
            == output.token()
    }

    /// Sets a node's block apart from the others for the time it runs.
    pub(crate) fn new(
        node: usize,
        inputs: &'a Vec<Port>,
        sources: &'a Vec<CellAddr>,
        outputs: &'a Vec<Port>,
        shared: &'a Vec<Vec<T>>,
        own: Vec<T>,
    ) -> (frame: Frame<'a, T>)
        requires
            node < shared@.len(),
            outputs@.len() == own@.len(),
            inputs@.len() == sources@.len(),
            forall|k: int|
                0 <= k < sources@.len() ==> in_store(
                    joined(shared@, node as int, own@),
                    #[trigger] sources@[k],
                ),
        ensures
            frame@ == (FrameView {
                node: node as int,
                store: joined(shared@, node as int, own@),
                sources: sources@,
            }),
            frame.cells() == own@,
            frame.ports() == declared_ports(inputs@),
            frame.outputs() == declared_ports(outputs@),
            frame.shaped(),
    {
        Frame { node, inputs, sources, outputs, shared, own }
    }

    /// Gives the node's block back.
    pub(crate) fn into_cells(self) -> (own: Vec<T>)
        ensures
            own@ == self.cells(),
    {
        self.own
    }

    /// The current value of the cell that `input` is wired to.
    ///
    /// Fails, naming the handle, when `input` does not stand for an input of
    /// the running node.
    pub fn read(&self, input: &Input<T>) -> (value: Result<&T, GraphError>)
        ensures
            self.shaped(),
            match value {
                Ok(v) => {
                    &&& self.reads(input)
                    &&& in_store(self@.store, self@.sources[input.slot().unwrap() as int])
                    &&& *v == self@.input(input.slot().unwrap() as int)
                },
                Err(error) => !self.reads(input) && error@ == (Fault {
                    kind: ErrorKind::UnboundInputRead,
                    subject: input.name(),
                }),
            },
    {
        proof {
            use_type_invariant(self);
        }
        if let Some(k) = input.slot() {
            if k < self.inputs.len() && self.inputs[k].token == input.token() {
                let source = self.sources[k];
                if source.node == self.node {
                    return Ok(&self.own[source.slot]);
                } else {
                    return Ok(&self.shared[source.node][source.slot]);
                }
            }
        }
        Err(GraphError::new(ErrorKind::UnboundInputRead, input.declared_name().clone()))
    }

    /// The current value of the node's own cell `output`, if the handle
    /// stands for one.
    pub fn get(&self, output: &Output<T>) -> (value: Option<&T>)
        ensures
            self.shaped(),
            self.owns(output) ==> output.slot().unwrap() < self.cells().len(),
            match value {
                Some(v) => self.owns(output) && *v == self.cells()[output.slot().unwrap() as int],
                None => !self.owns(output),
            },
    {
        proof {
            use_type_invariant(self);
        }
        if let Some(s) = output.slot() {
            if s < self.outputs.len() && self.outputs[s].token == output.token() {
                return Some(&self.own[s]);
            }
        }
        None
    }

    /// Writes `value` to the node's own cell `output`. Where the handle
    /// stands for no cell of the running node nothing is written, and the
    /// value comes back.
    pub fn set(&mut self, output: &Output<T>, value: T) -> (outcome: Result<(), T>)
        ensures
            old(self).shaped(),
            final(self).shaped(),
            old(self).owns(output) ==> output.slot().unwrap() < old(self).cells().len(),
            final(self).ports() == old(self).ports(),
            final(self).outputs() == old(self).outputs(),
            match outcome {
                Ok(_) => {
                    &&& old(self).owns(output)
                    &&& final(self)@ == old(self)@.written(output.slot().unwrap() as int, value)
                    &&& final(self).cells() == old(self).cells().update(
                        output.slot().unwrap() as int,
                        value,
                    )
                },
                Err(back) => {
                    &&& !old(self).owns(output)
                    &&& back == value
                    &&& final(self)@ == old(self)@
                    &&& final(self).cells() == old(self).cells()
                },
            },
    {
        proof {
            use_type_invariant(&*self);
        }
        if let Some(s) = output.slot() {
            if s < self.outputs.len() && self.outputs[s].token == output.token() {
                self.own[s] = value;
                assert(self@.store =~= old(self)@.written(s as int, value).store);
                return Ok(());
            }
        }
        Err(value)
    }
}

} // verus!
