//! Wiring: which output a reference names, and whether an input may read it.

use vstd::prelude::*;
use vstd::string::*;
use crate::error::{ErrorKind, Fault, GraphError};
use crate::frame::in_store;
use crate::port::{declared_ports, CellAddr, Port, PortView};

verus! {

/// The ports of the nodes of a graph, node by node.
pub open spec fn ports_of(blocks: Seq<Vec<Port>>) -> Seq<Seq<PortView>> {
    Seq::new(blocks.len(), |i: int| declared_ports(blocks[i]@))
}

/// The cells of the nodes of a graph, node by node.
pub open spec fn store_of<T>(blocks: Seq<Vec<T>>) -> Seq<Seq<T>> {
    Seq::new(blocks.len(), |i: int| blocks[i]@)
}

/// The addresses of the nodes of a graph, node by node.
pub open spec fn sources_of(blocks: Seq<Vec<CellAddr>>) -> Seq<Seq<CellAddr>> {
    Seq::new(blocks.len(), |i: int| blocks[i]@)
}

/// The output at `addr`.
pub open spec fn output_at(outputs: Seq<Seq<PortView>>, addr: CellAddr) -> PortView {
    outputs[addr.node as int][addr.slot as int]
}

/// `addr` is the address of an output called `name`.
pub open spec fn named(outputs: Seq<Seq<PortView>>, addr: CellAddr, name: Seq<char>) -> bool {
    in_store(outputs, addr) && output_at(outputs, addr).name == name
}

/// Some output is called `name`.
pub open spec fn has_output(outputs: Seq<Seq<PortView>>, name: Seq<char>) -> bool {
    exists|addr: CellAddr| named(outputs, addr, name)
}

/// No two outputs share a name.
pub open spec fn unique_outputs(outputs: Seq<Seq<PortView>>) -> bool {
    forall|a: CellAddr, b: CellAddr|
        #![trigger in_store(outputs, a), in_store(outputs, b)]
        in_store(outputs, a) && in_store(outputs, b) && a != b ==> output_at(outputs, a).name
            != output_at(outputs, b).name
}

/// The address of an output called `name`.
pub open spec fn output_addr(outputs: Seq<Seq<PortView>>, name: Seq<char>) -> CellAddr {
    choose|addr: CellAddr| named(outputs, addr, name)
}

/// Wiring one input: it reads the output that carries the name it
/// references, provided there is one and it has the input's element type.
pub open spec fn resolve(outputs: Seq<Seq<PortView>>, input: PortView) -> Result<CellAddr, Fault> {
    if !has_output(outputs, input.name) {
        Err(Fault { kind: ErrorKind::UnresolvedInput, subject: input.name })
    } else if output_at(outputs, output_addr(outputs, input.name)).token != input.token {
        Err(Fault { kind: ErrorKind::TypeMismatch, subject: input.name })
    } else {
        Ok(output_addr(outputs, input.name))
    }
}

/// Where names are unique, an output is found by its name.
pub proof fn lemma_output_addr(outputs: Seq<Seq<PortView>>, addr: CellAddr, name: Seq<char>)
    requires
        unique_outputs(outputs),
        named(outputs, addr, name),
    ensures
        has_output(outputs, name),
        output_addr(outputs, name) == addr,
{
}

/// What a wired input reads: an output that carries the name the input
/// references, of the input's element type.
pub proof fn lemma_resolved(outputs: Seq<Seq<PortView>>, input: PortView, addr: CellAddr)
    requires
        resolve(outputs, input) == Ok::<CellAddr, Fault>(addr),
    ensures
        named(outputs, addr, input.name),
        output_at(outputs, addr).token == input.token,
{
}

/// `a` comes before `b`: nodes in insertion order, the cells of a node in
/// the order they were declared.
pub open spec fn comes_before(a: CellAddr, b: CellAddr) -> bool {
    a.node < b.node || (a.node == b.node && a.slot < b.slot)
}

/// `addr` is the first address of an output called `name`.
pub open spec fn first_named_output(
    outputs: Seq<Seq<PortView>>,
    addr: CellAddr,
    name: Seq<char>,
) -> bool {
    named(outputs, addr, name) && forall|other: CellAddr|
        comes_before(other, addr) ==> !named(outputs, other, name)
}

/// The first address of an output called `name`, if there is one. Where
/// names are unique it is the only one.
pub fn find_output(outputs: &Vec<Vec<Port>>, name: &String) -> (found: Option<CellAddr>)
    ensures
        match found {
            Some(addr) => first_named_output(ports_of(outputs@), addr, name@),
            None => !has_output(ports_of(outputs@), name@),
        },
{
    let ghost all = ports_of(outputs@);
    let mut node: usize = 0;
    while node < outputs.len()
        invariant
            node <= outputs.len(),
            all == ports_of(outputs@),
            forall|addr: CellAddr| addr.node < node ==> !named(all, addr, name@),
        decreases outputs.len() - node,
    {
        let block = &outputs[node];
        let mut slot: usize = 0;
        while slot < block.len()
            invariant
                node < outputs.len(),
                slot <= block.len(),
                block == &outputs[node as int],
                all == ports_of(outputs@),
                forall|addr: CellAddr| addr.node < node ==> !named(all, addr, name@),
                forall|addr: CellAddr|
                    addr.node == node && addr.slot < slot ==> !named(all, addr, name@),
            decreases block.len() - slot,
        {
            if block[slot].name == *name {
                return Some(CellAddr { node, slot });
            }
            slot += 1;
        }
        node += 1;
    }
    None
}

/// Binding an input to an output at `source`: the input reads that cell,
/// provided the output has the input's element type.
pub open spec fn bound(input: PortView, output: PortView, source: CellAddr) -> Result<
    CellAddr,
    Fault,
> {
    if output.token == input.token {
        Ok(source)
    } else {
        Err(Fault { kind: ErrorKind::TypeMismatch, subject: input.name })
    }
}

/// Binds `input` to the output `output`, which stands at `source`.
///
/// Succeeds exactly when the two have the same element type, and the input
/// then reads the cell at `source`; otherwise the mismatch is reported under
/// the name the input references.
pub fn bind(input: &Port, output: &Port, source: CellAddr) -> (result: Result<
    CellAddr,
    GraphError,
>)
    ensures
        result is Ok == (output.token == input.token),
        match result {
            Ok(addr) => bound(input.port(), output.port(), source) == Ok::<CellAddr, Fault>(addr),
            Err(error) => bound(input.port(), output.port(), source) == Err::<CellAddr, Fault>(
                error@,
            ),
        },
{
    if output.token == input.token {
        Ok(source)
    } else {
        Err(GraphError::new(ErrorKind::TypeMismatch, input.name.clone()))
    }
}

/// Wiring an input is binding it to the output of the name it references,
/// where names are unique and there is such an output.
pub proof fn lemma_resolve_binds(outputs: Seq<Seq<PortView>>, input: PortView, addr: CellAddr)
    requires
        unique_outputs(outputs),
        named(outputs, addr, input.name),
    ensures
        resolve(outputs, input) == bound(input, output_at(outputs, addr), addr),
        resolve(outputs, input) is Ok == (output_at(outputs, addr).token == input.token),
{
    lemma_output_addr(outputs, addr, input.name);
}

/// Wires one input against uniquely named outputs.
pub fn resolve_input(outputs: &Vec<Vec<Port>>, input: &Port) -> (result: Result<CellAddr, GraphError>)
    requires
        unique_outputs(ports_of(outputs@)),
    ensures
        match result {
            Ok(addr) => resolve(ports_of(outputs@), input.port()) == Ok::<CellAddr, Fault>(addr),
            Err(error) => resolve(ports_of(outputs@), input.port()) == Err::<CellAddr, Fault>(error@),
        },
{
    match find_output(outputs, &input.name) {
        None => Err(GraphError::new(ErrorKind::UnresolvedInput, input.name.clone())),
        Some(addr) => {
            proof {
                lemma_resolve_binds(ports_of(outputs@), input.port(), addr);
            }
            bind(input, &outputs[addr.node][addr.slot], addr)
        },
    }
}

} // verus!
