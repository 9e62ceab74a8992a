use zebra_crosslink::viz_graph::{VizGraph, VizNodeInit};
use zebra_crosslink::viz_logic::NodeKind;

fn h(b: u8) -> [u8; 32] {
    [b; 32]
}

fn bc(height: u32, hash: u8) -> VizNodeInit {
    VizNodeInit { kind: NodeKind::BC, parent: None, hash: Some(h(hash)), height: Some(height) }
}

#[test]
fn viz_graph_child_before_parent_is_linked_later() {
    let mut g = VizGraph::new();
    assert_eq!(g.push_node(bc(5, 5), Some(h(4))), 0);
    assert_eq!(g.nodes[0].parent, None);
    assert_eq!(g.missing_bc_parents, vec![(h(4), 0)]);
    assert_eq!((g.bc_lo, g.bc_hi), (Some(0), Some(0)));

    assert_eq!(g.push_node(bc(4, 4), Some(h(3))), 1);
    assert_eq!(g.nodes[0].parent, Some(1));
    assert_eq!(g.nodes[1].parent, None);
    assert_eq!(g.missing_bc_parents, vec![(h(3), 1)]);
    assert_eq!((g.bc_lo, g.bc_hi), (Some(1), Some(0)));
}

#[test]
fn viz_graph_parent_before_child_is_linked_at_once() {
    let mut g = VizGraph::new();
    g.push_node(bc(4, 4), Some([0; 32]));
    assert!(g.missing_bc_parents.is_empty());
    assert_eq!(g.push_node(bc(5, 5), Some(h(4))), 1);
    assert_eq!(g.nodes[1].parent, Some(0));
    assert!(g.missing_bc_parents.is_empty());
    assert_eq!((g.bc_lo, g.bc_hi), (Some(0), Some(1)));
    // a parent at the wrong height is not linked
    assert_eq!(g.push_node(bc(9, 9), Some(h(5))), 2);
    assert_eq!(g.nodes[2].parent, None);
    assert_eq!(g.bc_hi, Some(2));
}

#[test]
fn viz_graph_bft_nodes_take_height_from_parent() {
    let mut g = VizGraph::new();
    g.push_node(bc(7, 7), None);
    let first = VizNodeInit { kind: NodeKind::BFT, parent: None, hash: Some(h(0xa1)), height: Some(1) };
    assert_eq!(g.push_node(first, None), 1);
    let second = VizNodeInit { kind: NodeKind::BFT, parent: Some(1), hash: Some(h(0xa2)), height: None };
    assert_eq!(g.push_node(second, None), 2);
    assert_eq!(g.nodes[2].height, 2);
    assert_eq!(g.nodes[2].parent, Some(1));
    assert_eq!((g.bc_lo, g.bc_hi), (Some(0), Some(0)));
    assert_eq!(g.find_node_by_hash(NodeKind::BFT, &h(0xa2)), Some(2));
    assert_eq!(g.find_node_by_hash(NodeKind::BC, &h(0xa2)), None);
    assert_eq!(g.find_node_by_hash(NodeKind::BC, &h(7)), Some(0));
    assert_eq!(g.find_bc_node_i_by_height(7), Some(0));
    assert_eq!(g.find_bc_node_i_by_height(1), None);
}

#[test]
fn viz_graph_clear_nodes_empties_everything() {
    let mut g = VizGraph::new();
    g.push_node(bc(5, 5), Some(h(4)));
    g.clear_nodes();
    assert!(g.nodes.is_empty());
    assert!(g.missing_bc_parents.is_empty());
    assert_eq!((g.bc_lo, g.bc_hi), (None, None));
}

#[test]
fn viz_graph_push_bc_block_adds_a_block_once() {
    let mut g = VizGraph::new();
    assert_eq!(g.push_bc_block(10, h(10), h(9)), Some(0));
    assert_eq!(g.push_bc_block(10, h(10), h(9)), None);
    assert_eq!(g.nodes.len(), 1);
    assert_eq!(g.push_bc_block(9, h(9), h(8)), Some(1));
    assert_eq!(g.nodes[0].parent, Some(1));
    assert_eq!(g.find_bc_node_by_hash(&h(9)), Some(1));
    assert_eq!(g.find_bft_node_by_hash(&h(9)), None);
    assert_eq!(g.missing_bc_parents, vec![(h(8), 1)]);
}
