//! Nodes: what a user implements, and how a node is packaged for the graph.

use vstd::prelude::*;
use crate::attributes::{
    distinct_names, Attributes, InputAttributes, NodeAttributes, OutputAttributes,
};
use crate::error::{ErrorKind, GraphError};
use crate::frame::{preceded, Frame, FrameView};
use crate::port::{InputMaker, PortView};

verus! {

/// A node behind its uniform entry point: whatever its own types are, the
/// graph runs it through `evaluate`.
pub trait UnsafeNode<T> {
    /// What a run may do: once the node has run on the frames `seen`, one
    /// after the other, `after` is a possible content of its block when the
    /// next run starts from `before`. With no frame seen this is the run at
    /// hand. A node that says nothing may do anything.
    open spec fn effect(&self, seen: Seq<FrameView<T>>, before: FrameView<T>, after: Seq<T>) -> bool {
        true
    }

    /// Runs the node once. A frame offers no way to add or remove a cell, so
    /// the node's block keeps its length. What the node may do from now on
    /// is what it might have done before, once it had seen this frame.
    fn evaluate(&mut self, frame: &mut Frame<'_, T>)
        ensures
            final(frame).cells().len() == old(frame).cells().len(),
            old(self).effect(Seq::empty(), old(frame)@, final(frame).cells()),
            forall|seen: Seq<FrameView<T>>, before: FrameView<T>, after: Seq<T>|
                #[trigger] final(self).effect(seen, before, after) == old(self).effect(
                    preceded(old(frame)@, seen),
                    before,
                    after,
                ),
    ;
}

/// A composite of output handles, one per output of a node.
pub trait OutputStruct<T> {
    /// Publishes every output of the composite.
    fn declare_outputs(&mut self, outputs: &mut OutputAttributes<T>);
}

/// A composite of input handles, one per input of a node.
pub trait InputStruct: Sized {
    /// Makes the composite, every handle fresh.
    fn new(maker: InputMaker) -> Self;

    /// Publishes every input of the composite.
    fn declare_inputs(&mut self, inputs: &mut InputAttributes);
}

/// What a user writes to define a node.
pub trait ComputationalNode: Sized {
    /// The type of the values in the cells of the graph the node is for.
    type Value;

    type Outputs: OutputStruct<Self::Value>;

    type Inputs: InputStruct;

    /// What the node is made from.
    type InitInfo;

    /// What a run may do, as in [`UnsafeNode::effect`].
    open spec fn effect(
        &self,
        inputs: &Self::Inputs,
        outputs: &Self::Outputs,
        seen: Seq<FrameView<Self::Value>>,
        before: FrameView<Self::Value>,
        after: Seq<Self::Value>,
    ) -> bool {
        true
    }

    /// Makes the node and its outputs, each output holding the initial value
    /// of its cell, and asks for the renames the node wants.
    fn make(init_info: Self::InitInfo, attrs: &mut Attributes) -> (made: (Self, Self::Outputs));

    /// Runs the node once: it reads through `inputs` and writes through
    /// `outputs`, both by way of `frame`.
    fn evaluate(
        &mut self,
        inputs: &Self::Inputs,
        outputs: &Self::Outputs,
        frame: &mut Frame<'_, Self::Value>,
    )
        ensures
            final(frame).cells().len() == old(frame).cells().len(),
            old(self).effect(inputs, outputs, Seq::empty(), old(frame)@, final(frame).cells()),
            forall|seen: Seq<FrameView<Self::Value>>, before: FrameView<Self::Value>, after: Seq<Self::Value>|
                #[trigger] final(self).effect(inputs, outputs, seen, before, after) == old(
                    self,
                ).effect(inputs, outputs, preceded(old(frame)@, seen), before, after),
    ;
}

/// A user's node together with its handles, as one unit.
pub struct ErasedNode<N: ComputationalNode> {
    node: N,
    inputs: N::Inputs,
    outputs: N::Outputs,
}

impl<N: ComputationalNode> UnsafeNode<N::Value> for ErasedNode<N> {
    closed spec fn effect(
        &self,
        seen: Seq<FrameView<N::Value>>,
        before: FrameView<N::Value>,
        after: Seq<N::Value>,
    ) -> bool {
        self.node.effect(&self.inputs, &self.outputs, seen, before, after)
    }

    fn evaluate(&mut self, frame: &mut Frame<'_, N::Value>) {
        self.node.evaluate(&self.inputs, &self.outputs, frame);
    }
}

/// The owner of a node on the heap. Moving the handle does not move the
/// node.
pub struct AliasBox<N: ?Sized> {
    boxed: Box<N>,
}

impl<N: ?Sized> AliasBox<N> {
    /// What the handle owns.
    pub closed spec fn held(&self) -> &N {
        &*self.boxed
    }

    /// Takes over what the box owns.
    pub fn new(boxed: Box<N>) -> (handle: AliasBox<N>)
        ensures
            handle.held() == &*boxed,
    {
        AliasBox { boxed }
    }
}

impl<T, N: UnsafeNode<T> + ?Sized> UnsafeNode<T> for AliasBox<N> {
    closed spec fn effect(&self, seen: Seq<FrameView<T>>, before: FrameView<T>, after: Seq<T>) -> bool {
        self.boxed.effect(seen, before, after)
    }

    fn evaluate(&mut self, frame: &mut Frame<'_, T>) {
        self.boxed.evaluate(frame);
    }
}

/// A node ready to be added to a graph: the node, and the ports it
/// declared.
#[verifier::reject_recursive_types(T)]
pub struct DeclaredNode<T> {
    node: AliasBox<dyn UnsafeNode<T>>,
    attrs: NodeAttributes<T>,
}

impl<T> DeclaredNode<T> {
    /// The inputs; the name of each is the qualified name it reads from.
    pub closed spec fn inputs(&self) -> Seq<PortView> {
        self.attrs.inputs()
    }

    /// The outputs, under their local names.
    pub closed spec fn outputs(&self) -> Seq<PortView> {
        self.attrs.outputs()
    }

    /// The initial values of the output cells.
    pub closed spec fn values(&self) -> Seq<T> {
        self.attrs.values()
    }

    /// The node.
    pub closed spec fn node(&self) -> AliasBox<dyn UnsafeNode<T>> {
        self.node
    }

    /// The node and its ports, apart again.
    pub fn into_parts(self) -> (parts: (AliasBox<dyn UnsafeNode<T>>, NodeAttributes<T>))
        ensures
            parts.0 == self.node(),
            parts.1.inputs() == self.inputs(),
            parts.1.outputs() == self.outputs(),
            parts.1.values() == self.values(),
    {
        (self.node, self.attrs)
    }

    /// Puts a node together with the ports it declared.
    pub fn new(node: AliasBox<dyn UnsafeNode<T>>, attrs: NodeAttributes<T>) -> (declared: DeclaredNode<
        T,
    >)
        ensures
            declared.node() == node,
            declared.inputs() == attrs.inputs(),
            declared.outputs() == attrs.outputs(),
            declared.values() == attrs.values(),
    {
        DeclaredNode { node, attrs }
    }
}

/// Declares a node: makes it, lets it publish its ports, applies its
/// renames.
pub trait ComputationalNodeMaker {
    type InitInfo;

    type Value;

    /// What the node publishes is its own affair, so the result says what
    /// holds of any declaration that succeeds, and which failures there are:
    /// the names of the inputs are distinct, so are those of the outputs,
    /// and every output has its cell; a failure is a duplicate port or an
    /// unknown rename. `NodeAttributes::new` says which it is.
    fn declare(init_info: Self::InitInfo) -> (declared: Result<DeclaredNode<Self::Value>, GraphError>)
        ensures
            declared matches Ok(node) ==> {
                &&& distinct_names(node.inputs())
                &&& distinct_names(node.outputs())
                &&& node.outputs().len() == node.values().len()
            },
            declared matches Err(error) ==> error.kind == ErrorKind::DuplicatePort || error.kind
                == ErrorKind::UnknownRename,
    ;
}

impl<N: ComputationalNode + 'static> ComputationalNodeMaker for N {
    type InitInfo = N::InitInfo;

    type Value = N::Value;

    fn declare(init_info: Self::InitInfo) -> (declared: Result<DeclaredNode<Self::Value>, GraphError>) {
        let mut inputs = N::Inputs::new(InputMaker::new());
        let mut attrs = Attributes::default();
        let (node, mut outputs) = N::make(init_info, &mut attrs);
        let mut input_attrs = InputAttributes::new();
        let mut output_attrs = OutputAttributes::new();
        inputs.declare_inputs(&mut input_attrs);
        outputs.declare_outputs(&mut output_attrs);
        match NodeAttributes::new(input_attrs, output_attrs, &attrs) {
            Err(error) => Err(error),
            Ok(node_attrs) => {
                let erased: Box<dyn UnsafeNode<N::Value>> = Box::new(ErasedNode { node, inputs, outputs });
                Ok(DeclaredNode::new(AliasBox::new(erased), node_attrs))
            },
        }
    }
}

} // verus!
