use zebra_crosslink::finality_command::{
    block_hash_from_display_hex, set_finality_outcome, SetFinalityError,
};

#[test]
fn display_hex_is_reversed_into_hash() {
    let text = format!("ab{}0F", "00".repeat(30));
    let h = block_hash_from_display_hex(&text).unwrap();
    assert_eq!(h[31], 0xab);
    assert_eq!(h[0], 0x0f);
    assert!(h[1..31].iter().all(|b| *b == 0));
}

#[test]
fn bad_display_hex_is_refused() {
    assert_eq!(block_hash_from_display_hex("abc"), None);
    assert_eq!(block_hash_from_display_hex(&"0".repeat(62)), None);
    assert_eq!(block_hash_from_display_hex(&format!("zz{}", "00".repeat(31))), None);
}

#[test]
fn node_answer_outcome() {
    assert_eq!(set_finality_outcome(0, String::new()), Ok(()));
    assert_eq!(
        set_finality_outcome(3, "no".to_string()),
        Err(SetFinalityError::SendFailed { code: 3, reason: "no".to_string() })
    );
}
