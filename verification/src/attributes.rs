//! What a node declares: its ports, and the renames to apply to them.

use vstd::prelude::*;
use vstd::string::*;
use crate::error::{ErrorKind, Fault, GraphError};
use crate::port::{declared_ports, declared_values, Attribute, Input, Output, PortView};

verus! {

/// Position `j` of `ports` holds a port called `name`.
pub open spec fn named_at(ports: Seq<PortView>, j: int, name: Seq<char>) -> bool {
    0 <= j < ports.len() && ports[j].name == name
}

/// Some port of `ports` is called `name`.
pub open spec fn has_name(ports: Seq<PortView>, name: Seq<char>) -> bool {
    exists|j: int| named_at(ports, j, name)
}

/// Position `j` is the first of `ports` that holds a port called `name`.
pub open spec fn is_first_named(ports: Seq<PortView>, j: int, name: Seq<char>) -> bool {
    named_at(ports, j, name) && forall|i: int| 0 <= i < j ==> !named_at(ports, i, name)
}

/// The first position of `ports` that holds a port called `name`.
pub open spec fn first_named(ports: Seq<PortView>, name: Seq<char>) -> int {
    choose|j: int| is_first_named(ports, j, name)
}

/// No two ports of `ports` share a name.
pub open spec fn distinct_names(ports: Seq<PortView>) -> bool {
    forall|i: int, j: int| 0 <= i < j < ports.len() ==> ports[i].name != ports[j].name
}

/// The port at position `j` repeats the name of an earlier one.
pub open spec fn repeats_at(ports: Seq<PortView>, j: int) -> bool {
    0 <= j < ports.len() && exists|i: int| 0 <= i < j && named_at(ports, i, ports[j].name)
}

/// Position `j` is the first whose port repeats an earlier name.
pub open spec fn is_first_repeat(ports: Seq<PortView>, j: int) -> bool {
    repeats_at(ports, j) && forall|i: int| 0 <= i < j ==> !repeats_at(ports, i)
}

/// The first position whose port repeats an earlier name.
pub open spec fn first_repeat(ports: Seq<PortView>) -> int {
    choose|j: int| is_first_repeat(ports, j)
}

/// A port list is accepted when its names are distinct; otherwise the first
/// repeated name is reported as a duplicate port.
pub open spec fn checked_distinct(ports: Seq<PortView>) -> Result<(), Fault> {
    if distinct_names(ports) {
        Ok(())
    } else {
        Err(Fault { kind: ErrorKind::DuplicatePort, subject: ports[first_repeat(ports)].name })
    }
}

/// Another port than the one at `j` is called `name`.
pub open spec fn taken_elsewhere(ports: Seq<PortView>, j: int, name: Seq<char>) -> bool {
    exists|k: int| k != j && named_at(ports, k, name)
}

/// One rename: the first port called `from` is called `to` afterwards and
/// keeps its place and element type. It fails when no port is called `from`,
/// or when another port is already called `to`.
pub open spec fn renamed(ports: Seq<PortView>, from: Seq<char>, to: Seq<char>) -> Result<
    Seq<PortView>,
    Fault,
> {
    if !has_name(ports, from) {
        Err(Fault { kind: ErrorKind::UnknownRename, subject: from })
    } else {
        let j = first_named(ports, from);
        if taken_elsewhere(ports, j, to) {
            Err(Fault { kind: ErrorKind::DuplicatePort, subject: to })
        } else {
            Ok(ports.update(j, PortView { name: to, token: ports[j].token }))
        }
    }
}

/// The renames applied one after the other, in the order they were asked
/// for, stopping at the first that fails.
pub open spec fn renamed_all(ports: Seq<PortView>, renames: Seq<(Seq<char>, Seq<char>)>) -> Result<
    Seq<PortView>,
    Fault,
>
    decreases renames.len(),
{
    if renames.len() == 0 {
        Ok(ports)
    } else {
        match renamed(ports, renames[0].0, renames[0].1) {
            Ok(next) => renamed_all(next, renames.drop_first()),
            Err(fault) => Err(fault),
        }
    }
}

/// What a declaration amounts to: both port lists must have distinct names,
/// then the input renames and the output renames are applied. The result is
/// the pair of final port lists, or the first failure in that order.
pub open spec fn declared(
    inputs: Seq<PortView>,
    input_renames: Seq<(Seq<char>, Seq<char>)>,
    outputs: Seq<PortView>,
    output_renames: Seq<(Seq<char>, Seq<char>)>,
) -> Result<(Seq<PortView>, Seq<PortView>), Fault> {
    match checked_distinct(inputs) {
        Err(fault) => Err(fault),
        Ok(_) => match checked_distinct(outputs) {
            Err(fault) => Err(fault),
            Ok(_) => match renamed_all(inputs, input_renames) {
                Err(fault) => Err(fault),
                Ok(ins) => match renamed_all(outputs, output_renames) {
                    Err(fault) => Err(fault),
                    Ok(outs) => Ok((ins, outs)),
                },
            },
        },
    }
}

/// The first position is determined by being first.
pub proof fn lemma_first_named(ports: Seq<PortView>, j: int, name: Seq<char>)
    requires
        is_first_named(ports, j, name),
    ensures
        has_name(ports, name),
        first_named(ports, name) == j,
{
}

/// The first repeat is determined by being first, and excludes distinctness.
pub proof fn lemma_first_repeat(ports: Seq<PortView>, j: int)
    requires
        is_first_repeat(ports, j),
    ensures
        !distinct_names(ports),
        first_repeat(ports) == j,
{
}

/// Where no port repeats an earlier name, the names are distinct.
pub proof fn lemma_no_repeat(ports: Seq<PortView>)
    requires
        forall|j: int| 0 <= j < ports.len() ==> !repeats_at(ports, j),
    ensures
        distinct_names(ports),
{
    assert forall|i: int, j: int| 0 <= i < j < ports.len() implies ports[i].name != ports[j].name by {
        assert(!repeats_at(ports, j));
        if ports[i].name == ports[j].name {
            assert(named_at(ports, i, ports[j].name));
        }
    }
}

/// A rename that succeeds keeps distinct names distinct.
pub proof fn lemma_renamed_distinct(ports: Seq<PortView>, from: Seq<char>, to: Seq<char>)
    requires
        distinct_names(ports),
        renamed(ports, from, to) is Ok,
    ensures
        distinct_names(renamed(ports, from, to)->Ok_0),
        renamed(ports, from, to)->Ok_0.len() == ports.len(),
{
    let j = first_named(ports, from);
    let w = choose|w: int| named_at(ports, w, from);
    lemma_least_named(ports, w, from);
    let next = renamed(ports, from, to)->Ok_0;
    assert forall|a: int, b: int| 0 <= a < b < next.len() implies next[a].name != next[b].name by {
        if a == j {
            if ports[b].name == to {
                assert(named_at(ports, b, to));
            }
        } else if b == j {
            if ports[a].name == to {
                assert(named_at(ports, a, to));
            }
        }
    }
}

/// Where some port is called `name`, a first one is.
pub proof fn lemma_least_named(ports: Seq<PortView>, w: int, name: Seq<char>)
    requires
        named_at(ports, w, name),
    ensures
        is_first_named(ports, first_named(ports, name), name),
        first_named(ports, name) <= w,
    decreases w,
{
    if forall|i: int| 0 <= i < w ==> !named_at(ports, i, name) {
        lemma_first_named(ports, w, name);
    } else {
        let i = choose|i: int| 0 <= i < w && named_at(ports, i, name);
        lemma_least_named(ports, i, name);
    }
}

/// Renames that all succeed keep distinct names distinct, and keep the
/// number of ports.
pub proof fn lemma_renamed_all_distinct(ports: Seq<PortView>, renames: Seq<(Seq<char>, Seq<char>)>)
    requires
        distinct_names(ports),
        renamed_all(ports, renames) is Ok,
    ensures
        distinct_names(renamed_all(ports, renames)->Ok_0),
        renamed_all(ports, renames)->Ok_0.len() == ports.len(),
    decreases renames.len(),
{
    if renames.len() > 0 {
        lemma_renamed_distinct(ports, renames[0].0, renames[0].1);
        lemma_renamed_all_distinct(
            renamed(ports, renames[0].0, renames[0].1)->Ok_0,
            renames.drop_first(),
        );
    }
}

/// Renames fail in two ways only.
pub proof fn lemma_renamed_all_faults(ports: Seq<PortView>, renames: Seq<(Seq<char>, Seq<char>)>)
    requires
        renamed_all(ports, renames) is Err,
    ensures
        renamed_all(ports, renames)->Err_0.kind == ErrorKind::UnknownRename || renamed_all(
            ports,
            renames,
        )->Err_0.kind == ErrorKind::DuplicatePort,
    decreases renames.len(),
{
    if renames.len() > 0 {
        if let Ok(next) = renamed(ports, renames[0].0, renames[0].1) {
            lemma_renamed_all_faults(next, renames.drop_first());
        }
    }
}

/// The first declaration called `name`, if any.
pub fn find_name<V>(attrs: &Vec<Attribute<V>>, name: &String) -> (found: Option<usize>)
    ensures
        match found {
            Some(j) => is_first_named(declared_ports(attrs@), j as int, name@),
            None => !has_name(declared_ports(attrs@), name@),
        },
{
    let ghost ports = declared_ports(attrs@);
    let mut j: usize = 0;
    while j < attrs.len()
        invariant
            j <= attrs.len(),
            ports == declared_ports(attrs@),
            forall|i: int| 0 <= i < j ==> !named_at(ports, i, name@),
        decreases attrs.len() - j,
    {
        if attrs[j].name == *name {
            return Some(j);
        }
        j += 1;
    }
    None
}

/// The first declaration called `name` that is not the one at `skip`, if
/// any.
pub fn find_name_elsewhere<V>(attrs: &Vec<Attribute<V>>, skip: usize, name: &String) -> (found:
    Option<usize>)
    ensures
        found is Some == taken_elsewhere(declared_ports(attrs@), skip as int, name@),
        found matches Some(k) ==> {
            &&& k != skip
            &&& named_at(declared_ports(attrs@), k as int, name@)
            &&& forall|i: int|
                0 <= i < k && i != skip ==> !named_at(declared_ports(attrs@), i, name@)
        },
{
    let ghost ports = declared_ports(attrs@);
    let mut k: usize = 0;
    while k < attrs.len()
        invariant
            k <= attrs.len(),
            ports == declared_ports(attrs@),
            forall|i: int| 0 <= i < k && i != skip ==> !named_at(ports, i, name@),
        decreases attrs.len() - k,
    {
        if k != skip && attrs[k].name == *name {
            assert(named_at(ports, k as int, name@));
            return Some(k);
        }
        k += 1;
    }
    None
}

/// The first declaration that repeats the name of an earlier one, if any.
pub fn find_repeat<V>(attrs: &Vec<Attribute<V>>) -> (found: Option<usize>)
    ensures
        match found {
            Some(j) => is_first_repeat(declared_ports(attrs@), j as int),
            None => distinct_names(declared_ports(attrs@)),
        },
{
    let ghost ports = declared_ports(attrs@);
    let mut j: usize = 0;
    while j < attrs.len()
        invariant
            j <= attrs.len(),
            ports == declared_ports(attrs@),
            forall|i: int| 0 <= i < j ==> !repeats_at(ports, i),
        decreases attrs.len() - j,
    {
        assert(named_at(ports, j as int, ports[j as int].name));
        if let Some(i) = find_name(attrs, &attrs[j].name) {
            if i < j {
                return Some(j);
            }
        }
        j += 1;
    }
    proof {
        lemma_no_repeat(ports);
    }
    None
}


/// The inputs a node publishes, in the order it declares them.
pub struct InputAttributes {
    data: Vec<Attribute<()>>,
}

impl View for InputAttributes {
    type V = Seq<PortView>;

    closed spec fn view(&self) -> Seq<PortView> {
        declared_ports(self.data@)
    }
}

impl InputAttributes {
    /// No input yet.
    pub fn new() -> (inputs: InputAttributes)
        ensures
            inputs@ == Seq::<PortView>::empty(),
    {
        InputAttributes { data: Vec::new() }
    }

    /// Publishes `input` under `name`, as the next input of the node, and
    /// makes the handle stand for that input.
    pub fn add<T>(&mut self, name: &str, input: &mut Input<T>)
        ensures
            final(self)@ == old(self)@.push(PortView { name: name@, token: old(input).token() }),
            final(input).token() == old(input).token(),
            final(input).slot() == Some(old(self)@.len() as usize),
            final(input).name() == name@,
    {
        let slot = self.data.len();
        let token = input.declare(slot, String::from_str(name));
        self.data.push(Attribute { name: String::from_str(name), token, value: () });
    }
}

/// The outputs a node publishes, in the order it declares them, each with
/// the initial value of its cell.
pub struct OutputAttributes<T> {
    data: Vec<Attribute<T>>,
}

impl<T> OutputAttributes<T> {
    /// The declared ports.
    pub closed spec fn ports(&self) -> Seq<PortView> {
        declared_ports(self.data@)
    }

    /// The initial values of the declared cells.
    pub closed spec fn values(&self) -> Seq<T> {
        declared_values(self.data@)
    }

    /// No output yet.
    pub fn new() -> (outputs: OutputAttributes<T>)
        ensures
            outputs.ports() == Seq::<PortView>::empty(),
            outputs.values() == Seq::<T>::empty(),
    {
        OutputAttributes { data: Vec::new() }
    }

    /// Publishes `output` under `name`, as the next cell of the node's block.
    /// The cell takes over the initial value, and the handle stands for the
    /// cell from then on. An output that was declared before has no value
    /// left to give: nothing changes then, and the answer is `false`.
    pub fn add(&mut self, name: &str, output: &mut Output<T>) -> (declared: bool)
        ensures
            declared == old(output).initial().is_some(),
            final(output).token() == old(output).token(),
            declared ==> {
                &&& final(self).ports() == old(self).ports().push(
                    PortView { name: name@, token: old(output).token() },
                )
                &&& final(self).values() == old(self).values().push(old(output).initial().unwrap())
                &&& final(output).slot() == Some(old(self).ports().len() as usize)
                &&& final(output).initial() is None
            },
            !declared ==> {
                &&& final(self).ports() == old(self).ports()
                &&& final(self).values() == old(self).values()
                &&& *final(output) == *old(output)
            },
    {
        let slot = self.data.len();
        match output.declare(slot) {
            None => false,
            Some((token, value)) => {
                self.data.push(Attribute { name: String::from_str(name), token, value });
                true
            },
        }
    }
}

/// One pending rename.
pub struct Rename {
    pub from: String,
    pub to: String,
}

/// The names of a list of pending renames.
pub open spec fn rename_views(renames: Seq<Rename>) -> Seq<(Seq<char>, Seq<char>)> {
    Seq::new(renames.len(), |k: int| (renames[k].from@, renames[k].to@))
}

/// The renames a node asks for while it is being made. They are applied, in
/// the order they were asked for, once the node's ports have been declared.
pub struct AttributeTransformer {
    data: Vec<Rename>,
}

impl View for AttributeTransformer {
    type V = Seq<(Seq<char>, Seq<char>)>;

    closed spec fn view(&self) -> Seq<(Seq<char>, Seq<char>)> {
        rename_views(self.data@)
    }
}

impl Default for AttributeTransformer {
    fn default() -> (transformer: AttributeTransformer)
        ensures
            transformer@ == Seq::<(Seq<char>, Seq<char>)>::empty(),
    {
        AttributeTransformer { data: Vec::new() }
    }
}

impl AttributeTransformer {
    /// Asks for the port called `old_name` to be called `new_name`.
    pub fn rename(&mut self, old_name: &str, new_name: &str)
        ensures
            final(self)@ == old(self)@.push((old_name@, new_name@)),
    {
        self.data.push(Rename { from: String::from_str(old_name), to: String::from_str(new_name) });
    }

    /// Applies the pending renames to declared ports. What comes with each
    /// port stays with it.
    pub fn transform<V>(&self, attrs: Vec<Attribute<V>>) -> (result: Result<
        Vec<Attribute<V>>,
        GraphError,
    >)
        ensures
            match result {
                Ok(done) => {
                    &&& renamed_all(declared_ports(attrs@), self@) == Ok::<Seq<PortView>, Fault>(
                        declared_ports(done@),
                    )
                    &&& declared_values(done@) == declared_values(attrs@)
                },
                Err(error) => renamed_all(declared_ports(attrs@), self@) == Err::<
                    Seq<PortView>,
                    Fault,
                >(error@),
            },
    {
        let ghost all = self@;
        let mut ports = attrs;
        let mut k: usize = 0;
        assert(all.subrange(0, all.len() as int) =~= all);
        while k < self.data.len()
            invariant
                k <= self.data.len(),
                all == self@,
                all.len() == self.data.len(),
                renamed_all(declared_ports(attrs@), all) == renamed_all(
                    declared_ports(ports@),
                    all.subrange(k as int, all.len() as int),
                ),
                declared_values(ports@) == declared_values(attrs@),
            decreases self.data.len() - k,
        {
            let ghost before = declared_ports(ports@);
            let ghost rest = all.subrange(k as int, all.len() as int);
            let from = &self.data[k].from;
            let to = &self.data[k].to;
            assert(rest.drop_first() =~= all.subrange(k + 1, all.len() as int));
            match find_name(&ports, from) {
                None => {
                    return Err(GraphError::new(ErrorKind::UnknownRename, from.clone()));
                },
                Some(j) => {
                    proof {
                        lemma_first_named(before, j as int, from@);
                    }
                    if find_name_elsewhere(&ports, j, to).is_some() {
                        return Err(GraphError::new(ErrorKind::DuplicatePort, to.clone()));
                    }
                    ports[j].name = to.clone();
                    assert(declared_ports(ports@) =~= before.update(
                        j as int,
                        PortView { name: to@, token: before[j as int].token },
                    ));
                },
            }
            k += 1;
        }
        Ok(ports)
    }
}

/// The renames of a node under declaration: those of its inputs and those of
/// its outputs.
pub struct Attributes {
    pub inputs: AttributeTransformer,
    pub outputs: AttributeTransformer,
}

impl Default for Attributes {
    fn default() -> (attrs: Attributes)
        ensures
            attrs.inputs@ == Seq::<(Seq<char>, Seq<char>)>::empty(),
            attrs.outputs@ == Seq::<(Seq<char>, Seq<char>)>::empty(),
    {
        Attributes { inputs: AttributeTransformer::default(), outputs: AttributeTransformer::default() }
    }
}

/// The ports of a declared node, after renaming: what the graph wires by.
pub struct NodeAttributes<T> {
    inputs: Vec<Attribute<()>>,
    outputs: Vec<Attribute<T>>,
}

impl<T> NodeAttributes<T> {
    /// The inputs; the name of each is the qualified name it reads from.
    pub closed spec fn inputs(&self) -> Seq<PortView> {
        declared_ports(self.inputs@)
    }

    /// The outputs, under their local names.
    pub closed spec fn outputs(&self) -> Seq<PortView> {
        declared_ports(self.outputs@)
    }

    /// The initial values of the output cells.
    pub closed spec fn values(&self) -> Seq<T> {
        declared_values(self.outputs@)
    }

    /// The declarations themselves: the inputs, then the outputs with the
    /// initial values of their cells.
    pub fn into_parts(self) -> (parts: (Vec<Attribute<()>>, Vec<Attribute<T>>))
        ensures
            declared_ports(parts.0@) == self.inputs(),
            declared_ports(parts.1@) == self.outputs(),
            declared_values(parts.1@) == self.values(),
    {
        (self.inputs, self.outputs)
    }

    /// Checks what a node has published and applies its renames.
    ///
    /// Succeeds exactly when `declared` does, with the port lists it gives;
    /// the cells keep their initial values. The names of each list are then
    /// distinct.
    pub fn new(input_attrs: InputAttributes, output_attrs: OutputAttributes<T>, attrs: &Attributes) -> (result:
        Result<NodeAttributes<T>, GraphError>)
        ensures
            match result {
                Ok(node) => {
                    &&& declared(input_attrs@, attrs.inputs@, output_attrs.ports(), attrs.outputs@)
                        == Ok::<(Seq<PortView>, Seq<PortView>), Fault>(
                        (node.inputs(), node.outputs()),
                    )
                    &&& node.values() == output_attrs.values()
                    &&& distinct_names(node.inputs())
                    &&& distinct_names(node.outputs())
                    &&& node.outputs().len() == node.values().len()
                },
                Err(error) => {
                    &&& declared(input_attrs@, attrs.inputs@, output_attrs.ports(), attrs.outputs@)
                        == Err::<(Seq<PortView>, Seq<PortView>), Fault>(error@)
                    &&& error.kind == ErrorKind::DuplicatePort || error.kind
                        == ErrorKind::UnknownRename
                },
            },
    {
        if let Some(j) = find_repeat(&input_attrs.data) {
            proof {
                lemma_first_repeat(input_attrs@, j as int);
            }
            return Err(GraphError::new(ErrorKind::DuplicatePort, input_attrs.data[j].name.clone()));
        }
        if let Some(j) = find_repeat(&output_attrs.data) {
            proof {
                lemma_first_repeat(output_attrs.ports(), j as int);
            }
            return Err(GraphError::new(ErrorKind::DuplicatePort, output_attrs.data[j].name.clone()));
        }
        let inputs = match attrs.inputs.transform(input_attrs.data) {
            Ok(inputs) => inputs,
            Err(error) => {
                proof {
                    lemma_renamed_all_faults(input_attrs@, attrs.inputs@);
                }
                return Err(error);
            },
        };
        let outputs = match attrs.outputs.transform(output_attrs.data) {
            Ok(outputs) => outputs,
            Err(error) => {
                proof {
                    lemma_renamed_all_faults(output_attrs.ports(), attrs.outputs@);
                }
                return Err(error);
            },
        };
        proof {
            lemma_renamed_all_distinct(input_attrs@, attrs.inputs@);
            lemma_renamed_all_distinct(output_attrs.ports(), attrs.outputs@);
        }
        Ok(NodeAttributes { inputs, outputs })
    }
}

} // verus!
