//! JSON values as the extractor reads them, and their scalars in document order.
use vstd::prelude::*;

verus! {

broadcast use vstd::std_specs::vec::axiom_vec_decreases_to_view, vstd::seq::axiom_seq_index_decreases;

/// A JSON value as the extractor reads it: objects and arrays by their members, and
/// every other value (string, number, boolean, null) by the text it is shown as.
pub enum JsonNode {
    Object(Vec<(String, JsonNode)>),
    Array(Vec<JsonNode>),
    Scalar(String),
}

/// A scalar of a JSON value: the path of keys and indices that leads to it, and its text.
pub type Leaf = (Seq<Seq<char>>, Seq<char>);

/// The decimal digits of `n`.
pub open spec fn decimal(n: nat) -> Seq<char>
    decreases n,
{
    if n < 10 {
        seq![(('0' as u8) + (n as u8)) as char]
    } else {
        decimal(n / 10) + seq![(('0' as u8) + ((n % 10) as u8)) as char]
    }
}

/// The scalars of `node`, in document order, with their paths from `path` on.
pub open spec fn leaves(node: JsonNode, path: Seq<Seq<char>>) -> Seq<Leaf>
    decreases node, 0int,
{
    match node {
        JsonNode::Scalar(t) => seq![(path, t@)],
        JsonNode::Object(members) => member_leaves(members@, path, members@.len() as int),
        JsonNode::Array(items) => item_leaves(items@, path, items@.len() as int),
    }
}

/// The scalars of the first `n` members of an object.
pub open spec fn member_leaves(members: Seq<(String, JsonNode)>, path: Seq<Seq<char>>, n: int) -> Seq<
    Leaf,
>
    decreases members, n,
{
    if n <= 0 || n > members.len() {
        Seq::empty()
    } else {
        member_leaves(members, path, n - 1) + leaves(members[n - 1].1, path.push(members[n - 1].0@))
    }
}

/// The scalars of the first `n` items of an array; an item's path segment is its index.
pub open spec fn item_leaves(items: Seq<JsonNode>, path: Seq<Seq<char>>, n: int) -> Seq<Leaf>
    decreases items, n,
{
    if n <= 0 || n > items.len() {
        Seq::empty()
    } else {
        item_leaves(items, path, n - 1) + leaves(items[n - 1], path.push(decimal((n - 1) as nat)))
    }
}

} // verus!
