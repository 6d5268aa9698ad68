//! Ports: names, type tokens, cell addresses, and the handles a node keeps.

use core::marker::PhantomData;
use vstd::prelude::*;
use vstd::string::*;

verus! {

/// The identity of an element type. Two ports have the same element type
/// exactly when their tokens are equal.
#[derive(Clone, Copy, Debug, PartialEq, Eq, Structural)]
pub struct TypeToken {
    pub id: u64,
}

/// The address of an output cell: the position of its node in the graph and
/// the position of the cell in that node's block. It never changes once the
/// node has been added.
#[derive(Clone, Copy, Debug, PartialEq, Eq, Structural)]
pub struct CellAddr {
    pub node: usize,
    pub slot: usize,
}

/// The mathematical content of a port: its name and element type.
pub struct PortView {
    pub name: Seq<char>,
    pub token: TypeToken,
}

/// A port as a node declares it: name, element type, and what comes with it
/// (nothing for an input, the initial value of the cell for an output).
pub struct Attribute<V> {
    pub name: String,
    pub token: TypeToken,
    pub value: V,
}

impl<V> Attribute<V> {
    /// The port that is declared.
    pub open spec fn port(&self) -> PortView {
        PortView { name: self.name@, token: self.token }
    }
}

/// A port as the graph records it: a declaration that nothing comes with.
pub type Port = Attribute<()>;

/// The ports of a list of declarations.
pub open spec fn declared_ports<V>(attrs: Seq<Attribute<V>>) -> Seq<PortView> {
    Seq::new(attrs.len(), |i: int| attrs[i].port())
}

/// What comes with each declaration of a list.
pub open spec fn declared_values<V>(attrs: Seq<Attribute<V>>) -> Seq<V> {
    Seq::new(attrs.len(), |i: int| attrs[i].value)
}

/// `<instance>.<port>`: the name under which the graph knows an output.
pub open spec fn qualified(instance: Seq<char>, port: Seq<char>) -> Seq<char> {
    instance + seq!['.'] + port
}

/// Builds the qualified name of a port of a node instance.
pub fn qualified_name(instance: &str, port: &str) -> (name: String)
    ensures
        name@ == qualified(instance@, port@),
{
    proof {
        reveal_strlit(".");
    }
    let mut name = String::from_str(instance);
    name.append(".");
    name.append(port);
    name
}

/// Proof of the right to create input handles. Only a declaration in
/// progress holds one.
#[derive(Clone, Copy)]
pub struct InputMaker {
    seal: (),
}

impl InputMaker {
    pub(crate) fn new() -> InputMaker {
        InputMaker { seal: () }
    }
}

/// The handle a node keeps on one of its inputs. It says which input of the
/// node is meant; where that input reads from is the graph's knowledge.
pub struct Input<T> {
    token: TypeToken,
    slot: Option<usize>,
    name: String,
    phantom: PhantomData<T>,
}

impl<T> Input<T> {
    /// What `token` gives.
    pub closed spec fn spec_token(&self) -> TypeToken {
        self.token
    }

    /// What `slot` gives.
    pub closed spec fn spec_slot(&self) -> Option<usize> {
        self.slot
    }

    /// The name the input was declared under (empty before).
    pub closed spec fn name(&self) -> Seq<char> {
        self.name@
    }

    /// The element type the input expects.
    #[verifier::when_used_as_spec(spec_token)]
    pub fn token(&self) -> (token: TypeToken)
        ensures
            token == self.token(),
    {
        self.token
    }

    /// The position of the input among its node's inputs, once declared.
    #[verifier::when_used_as_spec(spec_slot)]
    pub fn slot(&self) -> (slot: Option<usize>)
        ensures
            slot == self.slot(),
    {
        self.slot
    }

    /// The name the input was declared under, for diagnostics.
    pub fn declared_name(&self) -> (name: &String)
        ensures
            name@ == self.name(),
    {
        &self.name
    }

    /// A fresh handle: of the given element type, declared nowhere.
    pub fn new(_maker: InputMaker, token: TypeToken) -> (input: Input<T>)
        ensures
            input.token() == token,
            input.slot() is None,
            input.name() == Seq::<char>::empty(),
    {
        Input { token, slot: None, name: String::new(), phantom: PhantomData }
    }

    /// Records where the input was declared; gives its element type.
    pub(crate) fn declare(&mut self, slot: usize, name: String) -> (token: TypeToken)
        ensures
            token == old(self).token(),
            final(self).token() == old(self).token(),
            final(self).slot() == Some(slot),
            final(self).name() == name@,
    {
        self.slot = Some(slot);
        self.name = name;
        self.token
    }
}

/// One output of a node. Until it is declared it owns the cell's initial
/// value; from then on the value lives in the node's block and this is the
/// handle the owning node reads and writes it by.
pub struct Output<T> {
    token: TypeToken,
    slot: Option<usize>,
    initial: Option<T>,
}

impl<T> Output<T> {
    /// What `token` gives.
    pub closed spec fn spec_token(&self) -> TypeToken {
        self.token
    }

    /// What `slot` gives.
    pub closed spec fn spec_slot(&self) -> Option<usize> {
        self.slot
    }

    /// The element type of the cell.
    #[verifier::when_used_as_spec(spec_token)]
    pub fn token(&self) -> (token: TypeToken)
        ensures
            token == self.token(),
    {
        self.token
    }

    /// The position of the cell in its node's block, once declared.
    #[verifier::when_used_as_spec(spec_slot)]
    pub fn slot(&self) -> (slot: Option<usize>)
        ensures
            slot == self.slot(),
    {
        self.slot
    }

    /// The value the cell will start with, until it is declared.
    pub closed spec fn initial(&self) -> Option<T> {
        self.initial
    }

    /// An undeclared output that holds its cell's initial value.
    pub fn new(token: TypeToken, value: T) -> (output: Output<T>)
        ensures
            output.token() == token,
            output.slot() is None,
            output.initial() == Some(value),
    {
        Output { token, slot: None, initial: Some(value) }
    }

    /// An undeclared output whose cell will start with the default value of
    /// its type.
    pub fn with_default(token: TypeToken) -> (output: Output<T>) where T: Default
        ensures
            output.token() == token,
            output.slot() is None,
            output.initial() matches Some(value) && call_ensures(T::default, (), value),
    {
        Output { token, slot: None, initial: Some(T::default()) }
    }

    /// Gives up the initial value, if it is still there, and records where
    /// the cell was declared.
    pub(crate) fn declare(&mut self, slot: usize) -> (given: Option<(TypeToken, T)>)
        ensures
            final(self).token() == old(self).token(),
            match given {
                Some((token, value)) => {
                    &&& old(self).initial() == Some(value)
                    &&& token == old(self).token()
                    &&& final(self).slot() == Some(slot)
                    &&& final(self).initial() is None
                },
                None => old(self).initial() is None && *final(self) == *old(self),
            },
    {
        match self.initial.take() {
            None => None,
            Some(value) => {
                self.slot = Some(slot);
                Some((self.token, value))
            },
        }
    }
}

} // verus!
