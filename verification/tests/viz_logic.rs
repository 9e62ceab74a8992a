use zebra_crosslink::viz_logic::{
    abs_block_height, abs_block_heights, hash_from_u64, sat_add_2_sided, sat_sub_2_sided,
    str_from_node_kind, viz_request_heights, NodeKind,
};

#[test]
fn test_sat_sub_2_sided_normal() {
    assert_eq!(sat_sub_2_sided(12, 6), 6);
}

#[test]
fn test_sat_sub_2_sided_saturate_on_0() {
    assert_eq!(sat_sub_2_sided(3, 6), 0);
}

#[test]
fn test_sat_sub_2_sided_negative() {
    assert_eq!(sat_sub_2_sided(-6, 3), -9);
}

#[test]
fn test_sat_add_2_sided_normal() {
    assert_eq!(sat_add_2_sided(12, 6), 18);
}

#[test]
fn test_sat_add_2_sided_saturate_on_neg1_exact() {
    assert_eq!(sat_add_2_sided(-3, 3), -1);
}

#[test]
fn test_sat_add_2_sided_saturate_on_neg1() {
    assert_eq!(sat_add_2_sided(-3, 6), -1);
}

#[test]
fn test_sat_add_2_sided_negative() {
    assert_eq!(sat_add_2_sided(-6, 3), -3);
}

#[test]
fn sat_steps_at_zero() {
    assert_eq!(sat_sub_2_sided(0, 0), 0);
    assert_eq!(sat_sub_2_sided(6, 6), 0);
    assert_eq!(sat_add_2_sided(0, 5), -1);
    assert_eq!(sat_add_2_sided(-7, 6), -1);
}

#[test]
fn abs_heights_count_back_from_tip() {
    assert_eq!(abs_block_height(5, Some(100)), 5);
    assert_eq!(abs_block_height(5, None), 5);
    assert_eq!(abs_block_height(-1, Some(100)), 100);
    assert_eq!(abs_block_height(-11, Some(100)), 90);
    assert_eq!(abs_block_height(-200, Some(100)), 0);
    assert_eq!(abs_block_height(-1, None), 0);
    assert_eq!(abs_block_heights((-11, -1), Some(100)), (90, 100));
}

#[test]
fn request_heights_are_capped_at_tip() {
    assert_eq!(viz_request_heights(-11, -1, 100), (90, 100));
    assert_eq!(viz_request_heights(5, 200, 100), (5, 100));
    assert_eq!(viz_request_heights(5, -1, 100), (5, 100));
}

#[test]
fn placeholder_hash_is_little_endian_prefix() {
    let h = hash_from_u64(0x0102);
    assert_eq!(h[0], 0x02);
    assert_eq!(h[1], 0x01);
    assert!(h[2..].iter().all(|b| *b == 0));
}

#[test]
fn node_kind_labels() {
    assert_eq!(str_from_node_kind(NodeKind::BC), "PoW");
    assert_eq!(str_from_node_kind(NodeKind::BFT), "PoS");
}
