//! Collecting declared nodes and wiring them into a graph.

use vstd::prelude::*;
use vstd::string::*;
use crate::attributes::{find_name, named_at, repeats_at};
use crate::error::{ErrorKind, Fault, GraphError};
use crate::frame::in_store;
use crate::graph::Graph;
use crate::node::{AliasBox, DeclaredNode, UnsafeNode};
use crate::port::{
    declared_ports, declared_values, qualified, qualified_name, Attribute, CellAddr, Port, PortView,
};
use crate::wiring::{
    find_output, has_output, named, output_at, ports_of, resolve, resolve_input, store_of,
    unique_outputs,
};

verus! {

/// The outputs of a node under their qualified names.
pub open spec fn qualified_ports(instance: Seq<char>, ports: Seq<PortView>) -> Seq<PortView> {
    Seq::new(
        ports.len(),
        |s: int| PortView { name: qualified(instance, ports[s].name), token: ports[s].token },
    )
}

/// Output `s` of a node to be added cannot be added: its qualified name is
/// that of an output of the graph, or of an earlier output of the node.
pub open spec fn collides(outputs: Seq<Seq<PortView>>, fresh: Seq<PortView>, s: int) -> bool {
    0 <= s < fresh.len() && (has_output(outputs, fresh[s].name) || repeats_at(fresh, s))
}

/// Output `s` is the first of the node that cannot be added.
pub open spec fn is_first_collision(outputs: Seq<Seq<PortView>>, fresh: Seq<PortView>, s: int) -> bool {
    collides(outputs, fresh, s) && forall|t: int| 0 <= t < s ==> !collides(outputs, fresh, t)
}

/// Input `(i2, k2)` is wired before input `(i, k)`: nodes in insertion
/// order, the inputs of a node in the order they were declared.
pub open spec fn wired_before(i2: int, k2: int, i: int, k: int) -> bool {
    i2 < i || (i2 == i && k2 < k)
}

/// Every output of `fresh` can be added to `outputs`: none collides.
pub open spec fn accepted(outputs: Seq<Seq<PortView>>, fresh: Seq<PortView>) -> bool {
    forall|s: int| 0 <= s < fresh.len() ==> !collides(outputs, fresh, s)
}

/// Every input of `inputs` can be wired to `outputs`.
pub open spec fn all_wired(outputs: Seq<Seq<PortView>>, inputs: Seq<Seq<PortView>>) -> bool {
    forall|i: int, k: int|
        0 <= i < inputs.len() && 0 <= k < inputs[i].len() ==> resolve(
            outputs,
            #[trigger] inputs[i][k],
        ) is Ok
}

/// Input `k` of node `i` is the first of `inputs` that cannot be wired to
/// `outputs`.
pub open spec fn first_unwired(
    outputs: Seq<Seq<PortView>>,
    inputs: Seq<Seq<PortView>>,
    i: int,
    k: int,
) -> bool {
    &&& 0 <= i < inputs.len()
    &&& 0 <= k < inputs[i].len()
    &&& resolve(outputs, inputs[i][k]) is Err
    &&& forall|i2: int, k2: int|
        0 <= i2 < inputs.len() && 0 <= k2 < inputs[i2].len() && wired_before(i2, k2, i, k)
            ==> resolve(outputs, #[trigger] inputs[i2][k2]) is Ok
}

/// Outputs that collide with nothing leave the names unique.
pub proof fn lemma_grown_unique(outputs: Seq<Seq<PortView>>, fresh: Seq<PortView>)
    requires
        unique_outputs(outputs),
        forall|s: int| 0 <= s < fresh.len() ==> !collides(outputs, fresh, s),
    ensures
        unique_outputs(outputs.push(fresh)),
{
    let grown = outputs.push(fresh);
    let n = outputs.len() as int;
    assert forall|a: CellAddr, b: CellAddr|
        #![trigger in_store(grown, a), in_store(grown, b)]
        in_store(grown, a) && in_store(grown, b) && a != b implies output_at(grown, a).name
        != output_at(grown, b).name by {
        if output_at(grown, a).name == output_at(grown, b).name {
            if a.node < n && b.node < n {
                assert(in_store(outputs, a) && in_store(outputs, b));
            } else if a.node < n {
                assert(named(outputs, a, fresh[b.slot as int].name));
                assert(collides(outputs, fresh, b.slot as int));
            } else if b.node < n {
                assert(named(outputs, b, fresh[a.slot as int].name));
                assert(collides(outputs, fresh, a.slot as int));
            } else if a.slot < b.slot {
                assert(named_at(fresh, a.slot as int, fresh[b.slot as int].name));
                assert(collides(outputs, fresh, b.slot as int));
            } else {
                assert(named_at(fresh, b.slot as int, fresh[a.slot as int].name));
                assert(collides(outputs, fresh, a.slot as int));
            }
        }
    }
}

/// Collects declared nodes under instance names, then wires them.
#[verifier::reject_recursive_types(T)]
pub struct GraphBuilder<T> {
    nodes: Vec<AliasBox<dyn UnsafeNode<T>>>,
    cells: Vec<Vec<T>>,
    outputs: Vec<Vec<Port>>,
    inputs: Vec<Vec<Port>>,
}

impl<T> GraphBuilder<T> {
    /// The nodes, in insertion order.
    pub closed spec fn nodes(&self) -> Seq<AliasBox<dyn UnsafeNode<T>>> {
        self.nodes@
    }

    /// The cells with their initial values: one block per node.
    pub closed spec fn store(&self) -> Seq<Seq<T>> {
        store_of(self.cells@)
    }

    /// The outputs of each node, under their qualified names.
    pub closed spec fn outputs(&self) -> Seq<Seq<PortView>> {
        ports_of(self.outputs@)
    }

    /// The inputs of each node, still to be wired; the name of each is the
    /// qualified name it references.
    pub closed spec fn inputs(&self) -> Seq<Seq<PortView>> {
        ports_of(self.inputs@)
    }

    /// The builder is consistent: every node has its ports and its block,
    /// each block has one cell per output, and no two outputs share a
    /// qualified name.
    pub open spec fn wf(&self) -> bool {
        let n = self.nodes().len();
        &&& self.outputs().len() == n
        &&& self.inputs().len() == n
        &&& self.store().len() == n
        &&& forall|i: int| 0 <= i < n ==> (#[trigger] self.store()[i]).len() == self.outputs()[i].len()
        &&& unique_outputs(self.outputs())
    }

    /// A node that declares `outputs` can be added under the instance name
    /// `name`: none of its qualified names is taken.
    pub open spec fn accepts(&self, name: Seq<char>, outputs: Seq<PortView>) -> bool {
        accepted(self.outputs(), qualified_ports(name, outputs))
    }

    /// Every input can be wired: it references an output that there is, of
    /// its own element type.
    pub open spec fn wires(&self) -> bool {
        all_wired(self.outputs(), self.inputs())
    }

    /// Input `k` of node `i` is the first that cannot be wired.
    pub open spec fn fails_first_at(&self, i: int, k: int) -> bool {
        first_unwired(self.outputs(), self.inputs(), i, k)
    }

    /// `graph` holds what the builder held: the nodes in the same order,
    /// their ports, and the cells with their initial values; and no node of
    /// it has run.
    pub open spec fn yields(&self, graph: &Graph<T>) -> bool {
        &&& graph.nodes() == self.nodes()
        &&& graph.store() == self.store()
        &&& graph.outputs() == self.outputs()
        &&& graph.inputs() == self.inputs()
        &&& graph.executed() == Seq::<nat>::empty()
    }

    /// An empty builder.
    pub fn new() -> (builder: GraphBuilder<T>)
        ensures
            builder.wf(),
            builder.nodes().len() == 0,
    {
        GraphBuilder { nodes: Vec::new(), cells: Vec::new(), outputs: Vec::new(), inputs: Vec::new() }
    }

    /// The number of nodes added so far.
    pub fn len(&self) -> (n: usize)
        ensures
            n == self.nodes().len(),
    {
        self.nodes.len()
    }

    /// Adds a declared node under the instance name `name`.
    ///
    /// The node becomes the last of the builder. Its outputs are known from
    /// then on as `<name>.<port>`, its cells hold their initial values, and
    /// its inputs wait to be wired. None of the qualified names may be
    /// taken; `try_add` is for a caller who cannot tell.
    pub fn add(&mut self, name: &str, declared_node: DeclaredNode<T>)
        requires
            old(self).wf(),
            old(self).accepts(name@, declared_node.outputs()),
        ensures
            final(self).wf(),
            final(self).nodes() == old(self).nodes().push(declared_node.node()),
            final(self).store() == old(self).store().push(declared_node.values()),
            final(self).outputs() == old(self).outputs().push(
                qualified_ports(name@, declared_node.outputs()),
            ),
            final(self).inputs() == old(self).inputs().push(declared_node.inputs()),
    {
        match self.try_add(name, declared_node) {
            Ok(_) => {},
            Err(_) => unreached(),
        }
    }

    /// Adds a declared node under the instance name `name`, if its qualified
    /// names are free.
    ///
    /// Succeeds exactly when the builder accepts the node, and then does what
    /// `add` does. Where one of the qualified names is taken, the first such
    /// name is reported and the builder stays as it was.
    pub fn try_add(&mut self, name: &str, declared_node: DeclaredNode<T>) -> (result: Result<
        (),
        GraphError,
    >)
        requires
            old(self).wf(),
        ensures
            final(self).wf(),
            result is Ok == old(self).accepts(name@, declared_node.outputs()),
            match result {
                Ok(_) => {
                    let fresh = qualified_ports(name@, declared_node.outputs());
                    &&& final(self).nodes() == old(self).nodes().push(declared_node.node())
                    &&& final(self).store() == old(self).store().push(declared_node.values())
                    &&& final(self).outputs() == old(self).outputs().push(fresh)
                    &&& final(self).inputs() == old(self).inputs().push(declared_node.inputs())
                },
                Err(error) => {
                    let fresh = qualified_ports(name@, declared_node.outputs());
                    &&& exists|s: int|
                        is_first_collision(old(self).outputs(), fresh, s) && error@ == (Fault {
                            kind: ErrorKind::DuplicateQualifiedOutput,
                            subject: fresh[s].name,
                        })
                    &&& final(self).nodes() == old(self).nodes()
                    &&& final(self).store() == old(self).store()
                    &&& final(self).outputs() == old(self).outputs()
                    &&& final(self).inputs() == old(self).inputs()
                },
            },
    {
        let (node, attrs) = declared_node.into_parts();
        let (inputs, declared) = attrs.into_parts();
        let ghost all = qualified_ports(name@, declared_node.outputs());
        let ghost values_all = declared_values(declared@);
        let mut fresh: Vec<Port> = Vec::new();
        let mut s: usize = 0;
        while s < declared.len()
            invariant
                s <= declared.len(),
                *self == *old(self),
                old(self).wf(),
                all == qualified_ports(name@, declared_ports(declared@)),
                all == qualified_ports(name@, declared_node.outputs()),
                fresh.len() == s,
                declared_ports(fresh@) == all.subrange(0, s as int),
                forall|t: int| 0 <= t < s ==> !collides(self.outputs(), all, t),
            decreases declared.len() - s,
        {
            let port_name = qualified_name(name, declared[s].name.as_str());
            let ghost so_far = declared_ports(fresh@);
            let taken = find_output(&self.outputs, &port_name).is_some();
            let repeated = find_name(&fresh, &port_name).is_some();
            proof {
                if repeated {
                    let j = choose|j: int| named_at(so_far, j, port_name@);
                    assert(named_at(all, j, all[s as int].name));
                } else if repeats_at(all, s as int) {
                    let j = choose|j: int| 0 <= j < s && named_at(all, j, all[s as int].name);
                    assert(named_at(so_far, j, port_name@));
                }
            }
            if taken || repeated {
                assert(is_first_collision(self.outputs(), all, s as int));
                return Err(GraphError::new(ErrorKind::DuplicateQualifiedOutput, port_name));
            }
            fresh.push(Attribute { name: port_name, token: declared[s].token, value: () });
            s += 1;
        }
        let mut values: Vec<T> = Vec::new();
        for attribute in it: declared
            invariant
                it.seq().len() == values_all.len(),
                values.len() == it.index(),
                forall|i: int| 0 <= i < it.index() ==> #[trigger] values@[i] == it.seq()[i].value,
                forall|i: int| 0 <= i < it.seq().len() ==> #[trigger] values_all[i] == it.seq()[i].value,
        {
            values.push(attribute.value);
        }
        assert(values@ =~= declared_node.values());
        assert(declared_ports(fresh@) =~= all);
        self.nodes.push(node);
        self.cells.push(values);
        self.outputs.push(fresh);
        self.inputs.push(inputs);
        proof {
            lemma_grown_unique(old(self).outputs(), all);
            assert(self.outputs() =~= old(self).outputs().push(all));
            assert forall|i: int| 0 <= i < self.nodes().len() implies (#[trigger] self.store()[i]).len()
                == self.outputs()[i].len() by {
                if i < old(self).nodes().len() {
                    assert(old(self).store()[i].len() == old(self).outputs()[i].len());
                }
            }
        }
        Ok(())
    }

    /// Wires every input and hands the graph over.
    ///
    /// Each input is wired to the output that carries the qualified name it
    /// references. Every input must be one that can be wired; `try_build` is
    /// for a caller who cannot tell.
    pub fn build(self) -> (graph: Graph<T>)
        requires
            self.wf(),
            self.wires(),
        ensures
            graph.wf(),
            self.yields(&graph),
    {
        match self.try_build() {
            Ok(graph) => graph,
            Err(_) => {
                proof {
                    let (i, k) = choose|i: int, k: int| self.fails_first_at(i, k);
                    assert(resolve(self.outputs(), self.inputs()[i][k]) is Ok);
                }
                unreached()
            },
        }
    }

    /// Wires every input and hands the graph over, if every input can be
    /// wired.
    ///
    /// Succeeds exactly when every input can be wired, and then does what
    /// `build` does. Otherwise the inputs are taken node by node in insertion
    /// order, and within a node in the order they were declared; the first
    /// that references no output, or an output of another element type, is
    /// reported, and there is no graph then.
    pub fn try_build(self) -> (result: Result<Graph<T>, GraphError>)
        requires
            self.wf(),
        ensures
            result is Ok == self.wires(),
            match result {
                Ok(graph) => graph.wf() && self.yields(&graph),
                Err(error) => exists|i: int, k: int|
                    self.fails_first_at(i, k) && resolve(self.outputs(), self.inputs()[i][k])
                        == Err::<CellAddr, Fault>(error@),
            },
    {
        let ghost outputs = self.outputs();
        let ghost inputs = self.inputs();
        let mut sources: Vec<Vec<CellAddr>> = Vec::new();
        let mut i: usize = 0;
        while i < self.inputs.len()
            invariant
                i <= self.inputs.len(),
                self.wf(),
                outputs == self.outputs(),
                inputs == self.inputs(),
                sources.len() == i,
                forall|j: int| 0 <= j < i ==> (#[trigger] sources@[j])@.len() == inputs[j].len(),
                forall|j: int, k: int|
                    0 <= j < i && 0 <= k < inputs[j].len() ==> resolve(
                        outputs,
                        #[trigger] inputs[j][k],
                    ) == Ok::<CellAddr, Fault>(sources@[j]@[k]),
            decreases self.inputs.len() - i,
        {
            let node_inputs = &self.inputs[i];
            let mut block: Vec<CellAddr> = Vec::new();
            let mut k: usize = 0;
            while k < node_inputs.len()
                invariant
                    i < self.inputs.len(),
                    k <= node_inputs.len(),
                    node_inputs == &self.inputs[i as int],
                    self.wf(),
                    outputs == self.outputs(),
                    inputs == self.inputs(),
                    sources.len() == i,
                    block.len() == k,
                    forall|j: int, k2: int|
                        0 <= j < i && 0 <= k2 < inputs[j].len() ==> resolve(
                            outputs,
                            #[trigger] inputs[j][k2],
                        ) is Ok,
                    forall|k2: int|
                        0 <= k2 < k ==> resolve(outputs, #[trigger] inputs[i as int][k2]) == Ok::<
                            CellAddr,
                            Fault,
                        >(block@[k2]),
                decreases node_inputs.len() - k,
            {
                match resolve_input(&self.outputs, &node_inputs[k]) {
                    Ok(addr) => {
                        block.push(addr);
                    },
                    Err(error) => {
                        assert(self.fails_first_at(i as int, k as int));
                        return Err(error);
                    },
                }
                k += 1;
            }
            sources.push(block);
            i += 1;
        }
        let graph = Graph::assemble(self.nodes, self.cells, self.outputs, self.inputs, sources);
        proof {
            assert forall|j: int| 0 <= j < graph.nodes().len() implies (#[trigger] graph.sources()[j]).len()
                == graph.inputs()[j].len() by {
            }
            assert forall|j: int, k: int|
                0 <= j < graph.nodes().len() && 0 <= k < graph.inputs()[j].len() implies resolve(
                graph.outputs(),
                #[trigger] graph.inputs()[j][k],
            ) == Ok::<CellAddr, Fault>(graph.sources()[j][k]) by {
            }
        }
        Ok(graph)
    }
}

/// The outputs of named nodes under their qualified names, node by node.
pub open spec fn named_outputs<T>(named: Seq<(String, DeclaredNode<T>)>) -> Seq<Seq<PortView>> {
    Seq::new(named.len(), |j: int| qualified_ports(named[j].0@, named[j].1.outputs()))
}

/// The inputs of named nodes, node by node.
pub open spec fn named_inputs<T>(named: Seq<(String, DeclaredNode<T>)>) -> Seq<Seq<PortView>> {
    Seq::new(named.len(), |j: int| named[j].1.inputs())
}

/// Node `j` can be added after the nodes before it: none of its qualified
/// names is taken by them or repeated.
pub open spec fn node_accepted<T>(named: Seq<(String, DeclaredNode<T>)>, j: int) -> bool {
    accepted(named_outputs(named).take(j), named_outputs(named)[j])
}

/// Every node can be added after the nodes before it.
pub open spec fn all_accepted<T>(named: Seq<(String, DeclaredNode<T>)>) -> bool {
    forall|j: int| 0 <= j < named.len() ==> #[trigger] node_accepted(named, j)
}

/// Output `s` of node `j` is the first output of the first node that cannot
/// be added.
pub open spec fn first_refusal<T>(named: Seq<(String, DeclaredNode<T>)>, j: int, s: int) -> bool {
    &&& 0 <= j < named.len()
    &&& forall|i: int| 0 <= i < j ==> #[trigger] node_accepted(named, i)
    &&& is_first_collision(named_outputs(named).take(j), named_outputs(named)[j], s)
}

/// `fault` is why the named nodes give no graph: the first output of the
/// first node that cannot be added is a duplicate; or, where every node can
/// be added, the first input that cannot be wired fails as `resolve` says.
pub open spec fn is_load_fault<T>(named: Seq<(String, DeclaredNode<T>)>, fault: Fault) -> bool {
    ||| exists|j: int, s: int|
        #![trigger first_refusal(named, j, s)]
        first_refusal(named, j, s) && fault == (Fault {
            kind: ErrorKind::DuplicateQualifiedOutput,
            subject: named_outputs(named)[j][s].name,
        })
    ||| all_accepted(named) && exists|i: int, k: int|
        #![trigger first_unwired(named_outputs(named), named_inputs(named), i, k)]
        first_unwired(named_outputs(named), named_inputs(named), i, k) && resolve(
            named_outputs(named),
            named_inputs(named)[i][k],
        ) == Err::<CellAddr, Fault>(fault)
}

/// Why the named nodes give no graph, if they give none.
pub open spec fn load_fault<T>(named: Seq<(String, DeclaredNode<T>)>) -> Option<Fault> {
    if exists|fault: Fault| is_load_fault(named, fault) {
        Some(choose|fault: Fault| is_load_fault(named, fault))
    } else {
        None
    }
}

/// `graph` is the graph of the named nodes: it holds them in their order,
/// each with its cells, its inputs, and its outputs under the names
/// qualified by its own; the graph is consistent and none of its nodes has
/// run.
pub open spec fn is_graph_of<T>(graph: Graph<T>, named: Seq<(String, DeclaredNode<T>)>) -> bool {
    &&& graph.wf()
    &&& graph.executed() == Seq::<nat>::empty()
    &&& graph.nodes().len() == named.len()
    &&& forall|j: int|
        0 <= j < named.len() ==> {
            &&& graph.nodes()[j] == (#[trigger] named[j]).1.node()
            &&& graph.store()[j] == named[j].1.values()
            &&& graph.inputs()[j] == named[j].1.inputs()
            &&& graph.outputs()[j] == qualified_ports(named[j].0@, named[j].1.outputs())
        }
}

/// Two reasons why named nodes give no graph are the same reason.
pub proof fn lemma_load_fault_unique<T>(
    named: Seq<(String, DeclaredNode<T>)>,
    first: Fault,
    second: Fault,
)
    requires
        is_load_fault(named, first),
        is_load_fault(named, second),
    ensures
        first == second,
{
    let outputs = named_outputs(named);
    let inputs = named_inputs(named);
    let refused = |f: Fault|
        exists|j: int, s: int|
            #![trigger first_refusal(named, j, s)]
            first_refusal(named, j, s) && f == (Fault {
                kind: ErrorKind::DuplicateQualifiedOutput,
                subject: outputs[j][s].name,
            });
    if refused(first) || refused(second) {
        let f = if refused(first) {
            first
        } else {
            second
        };
        let (j, s) = choose|j: int, s: int|
            #![trigger first_refusal(named, j, s)]
            first_refusal(named, j, s) && f == (Fault {
                kind: ErrorKind::DuplicateQualifiedOutput,
                subject: outputs[j][s].name,
            });
        assert(collides(outputs.take(j), outputs[j], s));
        assert(!node_accepted(named, j));
        assert(!all_accepted(named));
        assert(refused(first) && refused(second));
        let (j1, s1) = choose|j: int, s: int|
            #![trigger first_refusal(named, j, s)]
            first_refusal(named, j, s) && first == (Fault {
                kind: ErrorKind::DuplicateQualifiedOutput,
                subject: outputs[j][s].name,
            });
        let (j2, s2) = choose|j: int, s: int|
            #![trigger first_refusal(named, j, s)]
            first_refusal(named, j, s) && second == (Fault {
                kind: ErrorKind::DuplicateQualifiedOutput,
                subject: outputs[j][s].name,
            });
        assert(collides(outputs.take(j1), outputs[j1], s1));
        assert(collides(outputs.take(j2), outputs[j2], s2));
        if j1 < j2 {
            assert(node_accepted(named, j1));
        } else if j2 < j1 {
            assert(node_accepted(named, j2));
        }
        assert(j1 == j2);
        if s1 < s2 {
            assert(!collides(outputs.take(j2), outputs[j2], s1));
        } else if s2 < s1 {
            assert(!collides(outputs.take(j1), outputs[j1], s2));
        }
        assert(s1 == s2);
    } else {
        let (i1, k1) = choose|i: int, k: int|
            #![trigger first_unwired(outputs, inputs, i, k)]
            first_unwired(outputs, inputs, i, k) && resolve(outputs, inputs[i][k]) == Err::<
                CellAddr,
                Fault,
            >(first);
        let (i2, k2) = choose|i: int, k: int|
            #![trigger first_unwired(outputs, inputs, i, k)]
            first_unwired(outputs, inputs, i, k) && resolve(outputs, inputs[i][k]) == Err::<
                CellAddr,
                Fault,
            >(second);
        if wired_before(i1, k1, i2, k2) {
            assert(resolve(outputs, inputs[i1][k1]) is Ok);
        } else if wired_before(i2, k2, i1, k1) {
            assert(resolve(outputs, inputs[i2][k2]) is Ok);
        }
        assert(i1 == i2 && k1 == k2);
    }
}

/// A reason why named nodes give no graph is the reason.
pub proof fn lemma_load_fault<T>(named: Seq<(String, DeclaredNode<T>)>, fault: Fault)
    requires
        is_load_fault(named, fault),
    ensures
        load_fault(named) == Some(fault),
{
    let chosen = choose|fault: Fault| is_load_fault(named, fault);
    lemma_load_fault_unique(named, chosen, fault);
}

/// Named nodes that can all be added and wired have no reason to give no
/// graph.
pub proof fn lemma_no_load_fault<T>(named: Seq<(String, DeclaredNode<T>)>)
    requires
        all_accepted(named),
        all_wired(named_outputs(named), named_inputs(named)),
    ensures
        load_fault(named) is None,
{
    let outputs = named_outputs(named);
    let inputs = named_inputs(named);
    assert forall|fault: Fault| !is_load_fault(named, fault) by {
        if is_load_fault(named, fault) {
            if exists|j: int, s: int|
                #![trigger first_refusal(named, j, s)]
                first_refusal(named, j, s) && fault == (Fault {
                    kind: ErrorKind::DuplicateQualifiedOutput,
                    subject: outputs[j][s].name,
                }) {
                let (j, s) = choose|j: int, s: int|
                    #![trigger first_refusal(named, j, s)]
                    first_refusal(named, j, s) && fault == (Fault {
                        kind: ErrorKind::DuplicateQualifiedOutput,
                        subject: outputs[j][s].name,
                    });
                assert(collides(outputs.take(j), outputs[j], s));
                assert(node_accepted(named, j));
            } else {
                let (i, k) = choose|i: int, k: int|
                    #![trigger first_unwired(outputs, inputs, i, k)]
                    first_unwired(outputs, inputs, i, k) && resolve(outputs, inputs[i][k])
                        == Err::<CellAddr, Fault>(fault);
                assert(resolve(outputs, inputs[i][k]) is Ok);
            }
        }
    }
}

/// Builds the graph of named nodes.
///
/// The nodes are added in order, each under its name, and then the inputs
/// are wired. There is a graph exactly when nothing is at fault, and it is
/// the graph of the named nodes; otherwise the fault is reported: the first
/// duplicate among the qualified outputs, or else the first input that
/// cannot be wired.
pub fn graph_from_nodes<T>(named: Vec<(String, DeclaredNode<T>)>) -> (result: Result<
    Graph<T>,
    GraphError,
>)
    ensures
        result is Ok == (load_fault(named@) is None),
        match result {
            Ok(graph) => is_graph_of(graph, named@),
            Err(error) => load_fault(named@) == Some(error@),
        },
{
    let ghost all = named@;
    let ghost outputs = named_outputs(all);
    let ghost inputs = named_inputs(all);
    let mut builder: GraphBuilder<T> = GraphBuilder::new();
    let mut count: usize = 0;
    let total = named.len();
    for pair in it: named
        invariant
            it.seq() == all,
            all.len() == total,
            outputs == named_outputs(all),
            inputs == named_inputs(all),
            count == it.index(),
            builder.wf(),
            builder.nodes().len() == count,
            builder.outputs() == outputs.take(count as int),
            builder.inputs() == inputs.take(count as int),
            forall|j: int| 0 <= j < count ==> #[trigger] node_accepted(all, j),
            forall|j: int|
                0 <= j < count ==> builder.nodes()[j] == (#[trigger] all[j]).1.node()
                    && builder.store()[j] == all[j].1.values(),
    {
        let ghost before = builder;
        let (name, node) = pair;
        assert(qualified_ports(name@, node.outputs()) == outputs[count as int]);
        match builder.try_add(name.as_str(), node) {
            Err(error) => {
                proof {
                    let s = choose|s: int|
                        is_first_collision(before.outputs(), outputs[count as int], s) && error@
                            == (Fault {
                            kind: ErrorKind::DuplicateQualifiedOutput,
                            subject: outputs[count as int][s].name,
                        });
                    assert(first_refusal(all, count as int, s));
                    assert(is_load_fault(all, error@));
                    lemma_load_fault(all, error@);
                }
                return Err(error);
            },
            Ok(_) => {
                proof {
                    assert(node_accepted(all, count as int));
                    assert(builder.outputs() =~= outputs.take(count + 1));
                    assert(builder.inputs() =~= inputs.take(count + 1));
                }
            },
        }
        count += 1;
    }
    proof {
        assert(outputs.take(count as int) =~= outputs);
        assert(inputs.take(count as int) =~= inputs);
    }
    let ghost full = builder;
    match builder.try_build() {
        Ok(graph) => {
            proof {
                lemma_no_load_fault(all);
            }
            Ok(graph)
        },
        Err(error) => {
            proof {
                let (i, k) = choose|i: int, k: int|
                    full.fails_first_at(i, k) && resolve(full.outputs(), full.inputs()[i][k])
                        == Err::<CellAddr, Fault>(error@);
                assert(first_unwired(outputs, inputs, i, k));
                assert(is_load_fault(all, error@));
                lemma_load_fault(all, error@);
            }
            Err(error)
        },
    }
}

} // verus!
