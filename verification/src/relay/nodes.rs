//! The built-in relay nodes, and the list of nodes that is used in the end.
use vstd::prelude::*;

use crate::text;

verus! {

/// The built-in relay nodes.
pub const DEFAULT_NODES: [&'static str; 2] = [
    "tcp://cgk1.clusters.zeabur.com:22171",
    "tcp://tcp.ap-northeast-1.clawcloudrun.com:45146",
];

/// The built-in relay nodes.
pub open spec fn default_node_texts() -> Seq<Seq<char>> {
    seq![
        "tcp://cgk1.clusters.zeabur.com:22171"@,
        "tcp://tcp.ap-northeast-1.clawcloudrun.com:45146"@,
    ]
}

/// The texts of a list that may be missing; none where it is.
pub open spec fn texts_or_none(list: Option<&[String]>) -> Seq<Seq<char>> {
    match list {
        Some(strings) => text::texts(strings@),
        None => Seq::empty(),
    }
}

/// The list of nodes that is used: the given nodes, or the built-in ones where none are given,
/// and behind them the additional nodes.
pub open spec fn resolved(
    override_nodes: Option<Seq<Seq<char>>>,
    additional: Seq<Seq<char>>,
) -> Seq<Seq<char>> {
    (match override_nodes {
        Some(given) => given,
        None => default_node_texts(),
    }) + additional
}

/// The built-in relay nodes.
pub fn default_nodes() -> (nodes: Vec<String>)
    ensures
        text::texts(nodes@) == default_node_texts(),
{
    let mut nodes: Vec<String> = Vec::new();
    nodes.push(DEFAULT_NODES[0].to_owned());
    nodes.push(DEFAULT_NODES[1].to_owned());
    assert(text::texts(nodes@) =~= default_node_texts());
    nodes
}

/// The list of nodes that is used: the given nodes, or the built-in ones where none are given,
/// and behind them the additional nodes.
pub fn resolve(override_nodes: Option<&[String]>, additional: Option<&[String]>) -> (nodes: Vec<
    String,
>)
    ensures
        text::texts(nodes@) == resolved(
            match override_nodes {
                Some(given) => Some(text::texts(given@)),
                None => None,
            },
            texts_or_none(additional),
        ),
{
    let mut nodes = match override_nodes {
        Some(given) => text::copy_texts(given),
        None => default_nodes(),
    };
    let ghost first = text::texts(nodes@);
    if let Some(more) = additional {
        let mut copies = text::copy_texts(more);
        nodes.append(&mut copies);
        assert(text::texts(nodes@) =~= first + text::texts(more@));
    } else {
        assert(first + texts_or_none(additional) =~= first);
    }
    nodes
}

// ---------------------------------------------------------------------------------------
// Laws
// ---------------------------------------------------------------------------------------
/// Every node that is given is used, at its place, and every additional one behind them, at its
/// place; nothing else is used, unless no nodes are given: then the two built-in ones stand in
/// front.
pub proof fn all_given_nodes_are_used(
    override_nodes: Option<Seq<Seq<char>>>,
    additional: Seq<Seq<char>>,
)
    ensures
        ({
            let used = resolved(override_nodes, additional);
            let first = match override_nodes {
                Some(given) => given.len(),
                None => 2,
            };
            &&& used.len() == first + additional.len()
            &&& forall|i: int| 0 <= i < additional.len() ==> used[first + i] == #[trigger] additional[i]
            &&& override_nodes matches Some(given) ==> forall|i: int|
                0 <= i < given.len() ==> used[i] == #[trigger] given[i]
            &&& override_nodes is None ==> {
                &&& used[0] == "tcp://cgk1.clusters.zeabur.com:22171"@
                &&& used[1] == "tcp://tcp.ap-northeast-1.clawcloudrun.com:45146"@
            }
        }),
{
}

} // verus!
