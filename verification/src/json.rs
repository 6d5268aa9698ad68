//! Graphs from JSON descriptions.
//!
//! A description is an array of objects, one per node. An object names the
//! kind of its node under `__type__` and the instance under `__name__`, both
//! as strings; its other members are what the node is made from.

use vstd::prelude::*;
use vstd::string::*;
use crate::builder::{graph_from_nodes, is_graph_of, load_fault};
use crate::error::{Fault, GraphError};
use crate::graph::Graph;
use crate::node::DeclaredNode;

verus! {

#[verifier::external_type_specification]
#[verifier::external_body]
pub struct ExValue(serde_json::Value);

#[verifier::external_type_specification]
#[verifier::external_body]
#[verifier::reject_recursive_types(K)]
#[verifier::reject_recursive_types(V)]
pub struct ExMap<K, V>(serde_json::Map<K, V>);

/// The keys of the members of a JSON object.
pub uninterp spec fn member_keys(object: serde_json::Map<String, serde_json::Value>) -> Set<Seq<char>>;

/// The members of a JSON object that are strings: the text of each, by key.
pub uninterp spec fn member_texts(object: serde_json::Map<String, serde_json::Value>) -> Map<
    Seq<char>,
    Seq<char>,
>;

/// `serde_json::Map::remove`, for a member that is wanted as text.
///
/// Believed of it: after the call the object has the members it had, but
/// for the one under `key`; and the result is the text of that member where
/// it was a string, and nothing where there was no such member or it was
/// not a string.
#[verifier::external_body]
fn take_text(object: &mut serde_json::Map<String, serde_json::Value>, key: &str) -> (text: Option<
    String,
>)
    ensures
        member_keys(*final(object)) == member_keys(*old(object)).remove(key@),
        member_texts(*final(object)) == member_texts(*old(object)).remove(key@),
        match text {
            Some(t) => member_texts(*old(object)).contains_key(key@) && t@ == member_texts(
                *old(object),
            )[key@],
            None => !member_texts(*old(object)).contains_key(key@),
        },
{
    match object.remove(key) {
        Some(serde_json::Value::String(text)) => Some(text),
        _ => None,
    }
}

/// What the head of a node's description says.
pub struct NodeHeader {
    /// The kind of node, as the factory knows it.
    pub type_key: String,
    /// The instance name.
    pub name: String,
}

/// The object names a kind of node and an instance, both as strings.
pub open spec fn has_header(object: serde_json::Map<String, serde_json::Value>) -> bool {
    member_texts(object).contains_key("__type__"@) && member_texts(object).contains_key(
        "__name__"@,
    )
}

/// Takes the head off a node's description.
///
/// The members `__type__` and `__name__` leave the object, whatever they
/// are. There is a header exactly when both were strings, and it holds
/// their texts.
pub fn take_header(object: &mut serde_json::Map<String, serde_json::Value>) -> (header: Option<
    NodeHeader,
>)
    ensures
        member_keys(*final(object)) == member_keys(*old(object)).remove("__type__"@).remove(
            "__name__"@,
        ),
        member_texts(*final(object)) == member_texts(*old(object)).remove("__type__"@).remove(
            "__name__"@,
        ),
        header is Some == has_header(*old(object)),
        header matches Some(h) ==> h.type_key@ == member_texts(*old(object))["__type__"@]
            && h.name@ == member_texts(*old(object))["__name__"@],
{
    proof {
        reveal_strlit("__type__");
        reveal_strlit("__name__");
        assert("__type__"@[2] != "__name__"@[2]);
    }
    let type_key = take_text(object, "__type__");
    let name = take_text(object, "__name__");
    match (type_key, name) {
        (Some(type_key), Some(name)) => Some(NodeHeader { type_key, name }),
        _ => None,
    }
}

/// Why a description gave no graph.
#[derive(Debug, PartialEq, Eq)]
pub enum LoadError {
    /// The entry of this number lacks a string under `__type__` or under
    /// `__name__`.
    Header(usize),
    /// The factory made no node for the entry of this number.
    Factory(usize),
    /// The nodes could not be put together: two outputs share a qualified
    /// name, or an input cannot be wired.
    Graph(GraphError),
}

/// `key` and `rest` are what the factory is handed for `entry`: the text
/// under `__type__`, and the entry without its header.
pub open spec fn handed_over(
    entry: serde_json::Map<String, serde_json::Value>,
    key: &String,
    rest: serde_json::Map<String, serde_json::Value>,
) -> bool {
    &&& key@ == member_texts(entry)["__type__"@]
    &&& member_keys(rest) == member_keys(entry).remove("__type__"@).remove("__name__"@)
    &&& member_texts(rest) == member_texts(entry).remove("__type__"@).remove("__name__"@)
}

/// `made` is the named node of `entry`: the entry has its header, the name
/// is the text under `__name__`, and the node is one that the factory gives
/// for what it is handed.
pub open spec fn made_by<T, F>(
    factory: F,
    entry: serde_json::Map<String, serde_json::Value>,
    made: (String, DeclaredNode<T>),
) -> bool where
    F: Fn(&String, serde_json::Map<String, serde_json::Value>) -> Option<DeclaredNode<T>>,
 {
    &&& has_header(entry)
    &&& made.0@ == member_texts(entry)["__name__"@]
    &&& exists|key: &String, rest: serde_json::Map<String, serde_json::Value>|
        #![trigger handed_over(entry, key, rest)]
        handed_over(entry, key, rest) && call_ensures(factory, (key, rest), Some(made.1))
}

/// The factory may give no node for `entry`, which has its header.
pub open spec fn left_unmade<T, F>(
    factory: F,
    entry: serde_json::Map<String, serde_json::Value>,
) -> bool where
    F: Fn(&String, serde_json::Map<String, serde_json::Value>) -> Option<DeclaredNode<T>>,
 {
    &&& has_header(entry)
    &&& exists|key: &String, rest: serde_json::Map<String, serde_json::Value>|
        #![trigger handed_over(entry, key, rest)]
        handed_over(entry, key, rest) && call_ensures(
            factory,
            (key, rest),
            None::<DeclaredNode<T>>,
        )
}

/// `made` holds the named nodes of the first entries, one each, in order.
pub open spec fn made_in_order<T, F>(
    factory: F,
    entries: Seq<serde_json::Map<String, serde_json::Value>>,
    made: Seq<(String, DeclaredNode<T>)>,
) -> bool where
    F: Fn(&String, serde_json::Map<String, serde_json::Value>) -> Option<DeclaredNode<T>>,
 {
    &&& made.len() <= entries.len()
    &&& forall|j: int| 0 <= j < made.len() ==> made_by(factory, entries[j], #[trigger] made[j])
}

/// `graph` is the graph of nodes that the factory gives for the entries,
/// one each, in order, under the instance names of their headers.
pub open spec fn is_graph_from<T, F>(
    factory: F,
    entries: Seq<serde_json::Map<String, serde_json::Value>>,
    graph: Graph<T>,
) -> bool where
    F: Fn(&String, serde_json::Map<String, serde_json::Value>) -> Option<DeclaredNode<T>>,
 {
    exists|made: Seq<(String, DeclaredNode<T>)>|
        #![trigger is_graph_of(graph, made)]
        {
            &&& made.len() == entries.len()
            &&& made_in_order(factory, entries, made)
            &&& load_fault(made) is None
            &&& is_graph_of(graph, made)
        }
}

/// `fault` is why the nodes that the factory gives for the entries, one
/// each, in order, under the instance names of their headers, give no graph.
pub open spec fn is_fault_from<T, F>(
    factory: F,
    entries: Seq<serde_json::Map<String, serde_json::Value>>,
    fault: Fault,
) -> bool where
    F: Fn(&String, serde_json::Map<String, serde_json::Value>) -> Option<DeclaredNode<T>>,
 {
    exists|made: Seq<(String, DeclaredNode<T>)>|
        #![trigger made_in_order(factory, entries, made)]
        {
            &&& made.len() == entries.len()
            &&& made_in_order(factory, entries, made)
            &&& load_fault(made) == Some(fault)
        }
}

/// The factory gives a node for each of the first `count` entries.
pub open spec fn made_up_to<T, F>(
    factory: F,
    entries: Seq<serde_json::Map<String, serde_json::Value>>,
    count: int,
) -> bool where
    F: Fn(&String, serde_json::Map<String, serde_json::Value>) -> Option<DeclaredNode<T>>,
 {
    exists|made: Seq<(String, DeclaredNode<T>)>|
        made.len() == count && #[trigger] made_in_order(factory, entries, made)
}

/// Builds the graph that a description describes.
///
/// The entries are taken in order. Each gives its header; the factory makes
/// the node from the kind the header names and from what is left of the
/// entry. The first entry without a header is reported, or else the first
/// for which the factory gives no node. Where every entry has its node, the
/// result is that of `graph_from_nodes` for the nodes made, each under the
/// instance name of its header.
pub fn graph_from_entries<T, F>(
    entries: Vec<serde_json::Map<String, serde_json::Value>>,
    factory: F,
) -> (result: Result<Graph<T>, LoadError>) where
    F: Fn(&String, serde_json::Map<String, serde_json::Value>) -> Option<DeclaredNode<T>>,

    requires
        forall|type_key: &String, rest: serde_json::Map<String, serde_json::Value>|
            call_requires(factory, (type_key, rest)),
    ensures
        entries@.len() == 0 ==> result is Ok,
        entries@.len() > 0 && !has_header(entries@[0]) ==> result == Err::<Graph<T>, LoadError>(
            LoadError::Header(0),
        ),
        match result {
            Ok(graph) => is_graph_from(factory, entries@, graph),
            Err(LoadError::Header(i)) => {
                &&& i < entries@.len()
                &&& !has_header(entries@[i as int])
                &&& made_up_to::<T, F>(factory, entries@, i as int)
            },
            Err(LoadError::Factory(i)) => {
                &&& i < entries@.len()
                &&& left_unmade::<T, F>(factory, entries@[i as int])
                &&& made_up_to::<T, F>(factory, entries@, i as int)
            },
            Err(LoadError::Graph(error)) => is_fault_from::<T, F>(factory, entries@, error@),
        },
{
    let ghost all = entries@;
    let total = entries.len();
    let mut named: Vec<(String, DeclaredNode<T>)> = Vec::new();
    let mut count: usize = 0;
    for entry in it: entries
        invariant
            it.seq() == all,
            all.len() == total,
            count == it.index(),
            named@.len() == count,
            made_in_order(factory, all, named@),
            count > 0 ==> has_header(all[0]),
            forall|type_key: &String, rest: serde_json::Map<String, serde_json::Value>|
                call_requires(factory, (type_key, rest)),
    {
        let mut object = entry;
        match take_header(&mut object) {
            None => {
                return Err(LoadError::Header(count));
            },
            Some(header) => {
                let NodeHeader { type_key, name } = header;
                let ghost rest = object;
                assert(handed_over(all[count as int], &type_key, rest));
                match factory(&type_key, object) {
                    None => {
                        return Err(LoadError::Factory(count));
                    },
                    Some(node) => {
                        let ghost earlier = named@;
                        named.push((name, node));
                        proof {
                            assert(made_by(factory, all[count as int], named@[count as int]));
                            assert forall|j: int| 0 <= j < named@.len() implies made_by(
                                factory,
                                all[j],
                                #[trigger] named@[j],
                            ) by {
                                if j < count {
                                    assert(named@[j] == earlier[j]);
                                }
                            }
                        }
                    },
                }
            },
        }
        count += 1;
    }
    let ghost made = named@;
    match graph_from_nodes(named) {
        Ok(graph) => {
            assert(is_graph_of(graph, made));
            Ok(graph)
        },
        Err(error) => Err(LoadError::Graph(error)),
    }
}

} // verus!
