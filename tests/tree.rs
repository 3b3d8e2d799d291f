use spangen::config::SpanOrder;
use spangen::ids::SpanId;
use spangen::tree::{arrange_span_refs, build_span_tree, nearest_open_node, SpanRef};

fn depth_of(parents: &[usize], mut i: usize) -> usize {
    let mut d = 0;
    while i != 0 {
        i = parents[i];
        d += 1;
    }
    d
}

fn depth_by_ids(nodes: &[SpanRef], i: usize) -> usize {
    let mut d = 0;
    let mut cur = nodes[i];
    while let Some(p) = cur.parent_id {
        cur = *nodes.iter().find(|n| n.span_id == p).unwrap();
        d += 1;
    }
    d
}

#[test]
fn single_span_tree_is_the_root_alone() {
    let root = SpanId::generate();
    let (nodes, _) = build_span_tree(root, 1, 1);
    assert_eq!(nodes.len(), 1);
    assert_eq!(nodes[0].span_id, root);
    assert!(nodes[0].parent_id.is_none());
}

#[test]
fn tree_has_requested_size_one_root_and_bounded_depth() {
    for &(n, d) in &[(2usize, 1usize), (17, 3), (100, 1), (100, 2), (250, 5)] {
        let root = SpanId::generate();
        let (nodes, parents) = build_span_tree(root, n, d);
        assert_eq!(nodes.len(), n);
        assert_eq!(nodes.iter().filter(|s| s.parent_id.is_none()).count(), 1);
        assert!(nodes[0].parent_id.is_none());
        for i in 0..n {
            assert!(depth_of(&parents, i) <= d);
            assert!(depth_by_ids(&nodes, i) <= d);
            if i > 0 {
                assert!(parents[i] < i);
                assert_eq!(nodes[i].parent_id, Some(nodes[parents[i]].span_id));
            }
        }
    }
}

#[test]
fn depth_one_attaches_everything_to_the_root() {
    let root = SpanId::generate();
    let (nodes, _) = build_span_tree(root, 40, 1);
    for node in &nodes[1..] {
        assert_eq!(node.parent_id, Some(root));
    }
}

#[test]
fn pre_order_keeps_construction_order() {
    let (nodes, _) = build_span_tree(SpanId::generate(), 30, 3);
    let out = arrange_span_refs(nodes.clone(), SpanOrder::Pre);
    let a: Vec<SpanId> = nodes.iter().map(|s| s.span_id).collect();
    let b: Vec<SpanId> = out.iter().map(|s| s.span_id).collect();
    assert_eq!(a, b);
}

#[test]
fn post_order_is_the_exact_reverse() {
    let (nodes, _) = build_span_tree(SpanId::generate(), 30, 3);
    let out = arrange_span_refs(nodes.clone(), SpanOrder::Post);
    let mut a: Vec<SpanId> = nodes.iter().map(|s| s.span_id).collect();
    a.reverse();
    let b: Vec<SpanId> = out.iter().map(|s| s.span_id).collect();
    assert_eq!(a, b);
    assert!(out.last().unwrap().parent_id.is_none());
}

#[test]
fn random_order_is_a_permutation() {
    let (nodes, _) = build_span_tree(SpanId::generate(), 50, 4);
    let out = arrange_span_refs(nodes.clone(), SpanOrder::Random);
    assert_eq!(out.len(), nodes.len());
    for node in &nodes {
        let found = out.iter().filter(|s| s.span_id == node.span_id).count();
        assert_eq!(found, 1);
        let same = out.iter().find(|s| s.span_id == node.span_id).unwrap();
        assert_eq!(same.parent_id, node.parent_id);
    }
    assert_eq!(out.iter().filter(|s| s.parent_id.is_none()).count(), 1);
}

#[test]
fn parent_search_walks_back_to_the_nearest_open_node() {
    let levels = vec![0, 1, 2, 2, 1, 2, 2];
    assert_eq!(nearest_open_node(&levels, 6, 2), 4);
    assert_eq!(nearest_open_node(&levels, 4, 2), 4);
    assert_eq!(nearest_open_node(&levels, 3, 2), 1);
    assert_eq!(nearest_open_node(&levels, 3, 1), 0);
    assert_eq!(nearest_open_node(&levels, 0, 1), 0);
}

#[test]
fn arranged_trees_keep_one_root_and_present_parents() {
    for order in [SpanOrder::Pre, SpanOrder::Post, SpanOrder::Random] {
        let root = SpanId::generate();
        let (nodes, _) = build_span_tree(root, 60, 3);
        let out = arrange_span_refs(nodes, order);
        assert_eq!(out.len(), 60);
        let roots: Vec<&SpanRef> = out.iter().filter(|s| s.parent_id.is_none()).collect();
        assert_eq!(roots.len(), 1);
        assert_eq!(roots[0].span_id, root);
        for s in &out {
            if let Some(p) = s.parent_id {
                assert!(out.iter().any(|q| q.span_id == p));
            }
            assert!(depth_by_ids(&out, out.iter().position(|q| q.span_id == s.span_id).unwrap()) <= 3);
        }
    }
}
