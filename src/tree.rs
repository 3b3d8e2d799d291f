//! Random span trees of bounded depth, grown in an arena of parent indices.
use vstd::prelude::*;
use vstd::multiset::Multiset;

use crate::config::SpanOrder;
use crate::ids::SpanId;
use crate::random::{random_below, shuffle};

verus! {

/// A span id and its optional parent id.
#[derive(Debug, Clone, Copy)]
pub struct SpanRef {
    pub span_id: SpanId,
    pub parent_id: Option<SpanId>,
}

/// Depth of node `i` found by following parent indices to the root (depth 0).
pub open spec fn node_depth(parents: Seq<usize>, i: int) -> nat
    decreases i,
{
    if i <= 0 || i >= parents.len() || parents[i] >= i {
        0
    } else {
        node_depth(parents, parents[i] as int) + 1
    }
}

/// `nodes`, in construction order, form one tree rooted at `root` whose
/// non-root node `i` hangs below the earlier node `parents[i]`, and no node
/// lies deeper than `depth`.
pub open spec fn is_span_tree(nodes: Seq<SpanRef>, parents: Seq<usize>, root: SpanId, depth: nat) -> bool {
    &&& nodes.len() >= 1
    &&& parents.len() == nodes.len()
    &&& nodes[0].span_id == root
    &&& nodes[0].parent_id is None
    &&& forall|i: int|
        0 < i < nodes.len() ==> {
            &&& #[trigger] parents[i] < i
            &&& nodes[i].parent_id == Some(nodes[parents[i] as int].span_id)
        }
    &&& forall|i: int| 0 <= i < nodes.len() ==> #[trigger] node_depth(parents, i) <= depth
}

/// `out` is `nodes` arranged as `order` asks: as built, reversed, or shuffled.
pub open spec fn is_arranged(order: SpanOrder, nodes: Seq<SpanRef>, out: Seq<SpanRef>) -> bool {
    match order {
        SpanOrder::Pre => out == nodes,
        SpanOrder::Post => out == nodes.reverse(),
        SpanOrder::Random => out.to_multiset() == nodes.to_multiset(),
    }
}

proof fn lemma_depth_push(parents: Seq<usize>, x: usize, i: int)
    requires
        0 <= i < parents.len(),
    ensures
        node_depth(parents.push(x), i) == node_depth(parents, i),
    decreases i,
{
    let q = parents.push(x);
    assert(q[i] == parents[i]);
    if i > 0 && parents[i] < i {
        lemma_depth_push(parents, x, parents[i] as int);
    }
}

/// The parent for a new span when the random draw fell on node `index`: that
/// node where it lies above the deepest level `depth`, else the nearest
/// earlier node that does.
pub fn nearest_open_node(levels: &Vec<usize>, index: usize, depth: usize) -> (r: usize)
    requires
        index < levels@.len(),
        levels@[0] < depth,
    ensures
        r <= index,
        levels@[r as int] < depth,
        forall|j: int| r < j <= index ==> #[trigger] levels@[j] >= depth,
{
    let mut i = index;
    while levels[i] >= depth
        invariant
            i <= index < levels@.len(),
            levels@[0] < depth,
            forall|j: int| i < j <= index ==> #[trigger] levels@[j] >= depth,
        decreases i,
    {
        i = i - 1;
    }
    i
}

/// Grows a random tree of `len` spans below the root `root`, no deeper than
/// `depth`: each new span is attached to a random earlier span, or, where that
/// one already lies at the deepest level, to the nearest earlier span above it.
/// Returns the spans in construction order and the index of each one's parent
/// (the root's entry is unused).
pub fn build_span_tree(root: SpanId, len: usize, depth: usize) -> (r: (Vec<SpanRef>, Vec<usize>))
    requires
        len >= 1,
        depth >= 1,
    ensures
        r.0@.len() == len,
        is_span_tree(r.0@, r.1@, root, depth as nat),
{
    let mut levels: Vec<usize> = Vec::new();
    let mut parents: Vec<usize> = Vec::new();
    let mut nodes: Vec<SpanRef> = Vec::new();
    levels.push(0);
    parents.push(0);
    nodes.push(SpanRef { span_id: root, parent_id: None });
    while nodes.len() < len
        invariant
            1 <= nodes@.len() <= len,
            levels@.len() == nodes@.len(),
            parents@.len() == nodes@.len(),
            depth >= 1,
            levels@[0] == 0,
            nodes@[0].span_id == root,
            nodes@[0].parent_id is None,
            forall|i: int|
                0 < i < nodes@.len() ==> {
                    &&& #[trigger] parents@[i] < i
                    &&& nodes@[i].parent_id == Some(nodes@[parents@[i] as int].span_id)
                },
            forall|i: int|
                0 <= i < nodes@.len() ==> {
                    &&& #[trigger] levels@[i] <= depth
                    &&& node_depth(parents@, i) == levels@[i]
                },
        decreases len - nodes@.len(),
    {
        let drawn = random_below(nodes.len() as u64) as usize;
        let index = nearest_open_node(&levels, drawn, depth);
        let level = levels[index] + 1;
        let parent_id = nodes[index].span_id;
        let ghost old_parents = parents@;
        let ghost old_levels = levels@;
        levels.push(level);
        parents.push(index);
        nodes.push(SpanRef { span_id: SpanId::generate(), parent_id: Some(parent_id) });
        proof {
            assert forall|i: int| 0 <= i < old_parents.len() implies node_depth(parents@, i)
                == node_depth(old_parents, i) by {
                lemma_depth_push(old_parents, index, i);
            }
            let n = old_parents.len() as int;
            assert(parents@[n] == index);
            assert(node_depth(parents@, n) == node_depth(parents@, index as int) + 1);
            assert forall|i: int| 0 <= i < nodes@.len() implies {
                &&& #[trigger] levels@[i] <= depth
                &&& node_depth(parents@, i) == levels@[i]
            } by {
                if i < n {
                    assert(levels@[i] == old_levels[i]);
                }
            }
        }
    }
    assert forall|i: int| 0 <= i < nodes@.len() implies #[trigger] node_depth(parents@, i)
        <= depth by {
        assert(levels@[i] <= depth);
    }
    (nodes, parents)
}

/// A span tree has exactly one node without a parent, its root, and every
/// node lies at most `depth` parent links below it.
pub proof fn lemma_span_tree_single_root(nodes: Seq<SpanRef>, parents: Seq<usize>, root: SpanId, depth: nat)
    requires
        is_span_tree(nodes, parents, root, depth),
    ensures
        forall|i: int| 0 <= i < nodes.len() ==> (#[trigger] nodes[i].parent_id is None <==> i == 0),
        forall|i: int| 0 <= i < nodes.len() ==> #[trigger] node_depth(parents, i) <= depth,
{
    assert forall|i: int| 0 <= i < nodes.len() implies (#[trigger] nodes[i].parent_id is None <==> i
        == 0) by {
        if i > 0 {
            assert(parents[i] < i);
        }
    }
}

proof fn lemma_reverse_multiset<A>(s: Seq<A>)
    ensures
        s.reverse().to_multiset() == s.to_multiset(),
    decreases s.len(),
{
    broadcast use vstd::seq_lib::group_to_multiset_ensures;
    if s.len() == 0 {
        assert(s.reverse() =~= s);
    } else {
        let t = s.drop_last();
        let x = s.last();
        lemma_reverse_multiset(t);
        assert(s.reverse() =~= seq![x] + t.reverse());
        assert(s =~= t + seq![x]);
        vstd::seq_lib::lemma_multiset_commutative(seq![x], t.reverse());
        vstd::seq_lib::lemma_multiset_commutative(t, seq![x]);
        assert(seq![x].to_multiset().add(t.to_multiset()) =~= t.to_multiset().add(
            seq![x].to_multiset(),
        ));
    }
}

/// Whatever the order, the arranged spans are the built spans, each as often.
pub proof fn lemma_arranged_is_permutation(order: SpanOrder, nodes: Seq<SpanRef>, out: Seq<SpanRef>)
    requires
        is_arranged(order, nodes, out),
    ensures
        out.to_multiset() == nodes.to_multiset(),
        out.len() == nodes.len(),
{
    broadcast use vstd::seq_lib::group_to_multiset_ensures;
    if order == SpanOrder::Post {
        lemma_reverse_multiset(nodes);
    }
    assert(out.len() == out.to_multiset().len());
    assert(nodes.len() == nodes.to_multiset().len());
}

/// Whatever the order, the arranged spans keep the tree's shape: the root is
/// among them and is the only span without a parent, every parent id names a
/// span among them, and every span is a span of the tree as built, no deeper
/// than `depth`.
pub proof fn lemma_arranged_tree(
    order: SpanOrder,
    nodes: Seq<SpanRef>,
    parents: Seq<usize>,
    root: SpanId,
    depth: nat,
    out: Seq<SpanRef>,
)
    requires
        is_span_tree(nodes, parents, root, depth),
        is_arranged(order, nodes, out),
    ensures
        out.len() == nodes.len(),
        out.contains(nodes[0]),
        nodes[0].span_id == root && nodes[0].parent_id is None,
        forall|i: int| #![trigger out[i]] 0 <= i < out.len() ==> exists|k: int|
            0 <= k < nodes.len() && out[i] == nodes[k] && #[trigger] node_depth(parents, k) <= depth,
        forall|i: int| 0 <= i < out.len() && (#[trigger] out[i]).parent_id is None ==> out[i] == nodes[0],
        forall|i: int| 0 <= i < out.len() && (#[trigger] out[i]).parent_id is Some ==> exists|j: int|
            0 <= j < out.len() && Some(out[j].span_id) == out[i].parent_id,
{
    broadcast use vstd::seq_lib::group_to_multiset_ensures;
    lemma_arranged_is_permutation(order, nodes, out);
    assert(nodes.contains(nodes[0]));
    assert(out.to_multiset().count(nodes[0]) > 0);
    assert forall|i: int| 0 <= i < out.len() implies nodes.contains(#[trigger] out[i]) by {
        assert(out.contains(out[i]));
        assert(nodes.to_multiset().count(out[i]) > 0);
    }
    assert forall|i: int| #![trigger out[i]] 0 <= i < out.len() implies exists|k: int|
        0 <= k < nodes.len() && out[i] == nodes[k] && #[trigger] node_depth(parents, k) <= depth by {
        assert(nodes.contains(out[i]));
        let k = choose|k: int| 0 <= k < nodes.len() && nodes[k] == out[i];
        assert(node_depth(parents, k) <= depth);
    }
    assert forall|i: int| 0 <= i < out.len() && (#[trigger] out[i]).parent_id is None implies out[i]
        == nodes[0] by {
        assert(nodes.contains(out[i]));
        let k = choose|k: int| 0 <= k < nodes.len() && nodes[k] == out[i];
        if k > 0 {
            assert(parents[k] < k);
        }
    }
    assert forall|i: int| 0 <= i < out.len() && (#[trigger] out[i]).parent_id is Some implies exists|j: int|
        0 <= j < out.len() && Some(out[j].span_id) == out[i].parent_id by {
        assert(nodes.contains(out[i]));
        let k = choose|k: int| 0 <= k < nodes.len() && nodes[k] == out[i];
        assert(k > 0);
        assert(parents[k] < k);
        let p = nodes[parents[k] as int];
        assert(nodes.contains(p));
        assert(nodes.to_multiset().count(p) > 0);
        assert(out.contains(p));
    }
}

/// Arranges spans built in construction order as `order` asks: `Pre` keeps
/// them, `Post` reverses them so that children precede their parents, and
/// `Random` shuffles them.
pub fn arrange_span_refs(nodes: Vec<SpanRef>, order: SpanOrder) -> (r: Vec<SpanRef>)
    ensures
        is_arranged(order, nodes@, r@),
{
    match order {
        SpanOrder::Pre => nodes,
        SpanOrder::Post => {
            let mut out: Vec<SpanRef> = Vec::new();
            let mut i: usize = nodes.len();
            while i > 0
                invariant
                    i <= nodes@.len(),
                    out@ == nodes@.subrange(i as int, nodes@.len() as int).reverse(),
                decreases i,
            {
                i = i - 1;
                out.push(nodes[i]);
                assert(nodes@.subrange(i as int, nodes@.len() as int).reverse() =~= nodes@.subrange(
                    i + 1,
                    nodes@.len() as int,
                ).reverse().push(nodes@[i as int]));
            }
            assert(nodes@.subrange(0, nodes@.len() as int) =~= nodes@);
            out
        },
        SpanOrder::Random => {
            let mut out = nodes;
            shuffle(&mut out);
            out
        },
    }
}

} // verus!
