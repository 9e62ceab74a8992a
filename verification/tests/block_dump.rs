use zebra_crosslink::block_dump::{hash_highlight_lo_text, highlight_chars_needed};

#[test]
fn one_char_when_low_nibbles_differ() {
    let mut a = [0u8; 32];
    let mut b = [0u8; 32];
    a[0] = 0x01;
    b[0] = 0x02;
    assert_eq!(highlight_chars_needed(&vec![a, b]), 1);
}

#[test]
fn two_chars_when_only_first_byte_differs_high() {
    let mut a = [0u8; 32];
    let mut b = [0u8; 32];
    a[0] = 0x11;
    b[0] = 0x21;
    assert_eq!(highlight_chars_needed(&vec![a, b]), 2);
}

#[test]
fn sixty_four_chars_when_only_last_byte_differs() {
    let mut a = [7u8; 32];
    let mut b = [7u8; 32];
    a[31] = 0x10;
    b[31] = 0x20;
    assert_eq!(highlight_chars_needed(&vec![a, b]), 64);
}

#[test]
fn one_char_for_none_or_one_hash() {
    assert_eq!(highlight_chars_needed(&vec![]), 1);
    assert_eq!(highlight_chars_needed(&vec![[3u8; 32]]), 1);
}

#[test]
fn highlight_text_greys_all_but_the_tail() {
    let mut h = [0u8; 32];
    h[31] = 0xab;
    h[0] = 0x0f;
    let text = hash_highlight_lo_text(&h, 2);
    let display = format!("ab{}0f", "00".repeat(30));
    let expected = format!("\x1b[90m{}\x1b[0m{}", &display[..62], &display[62..]);
    assert_eq!(text, expected);
    let all = hash_highlight_lo_text(&h, 64);
    assert_eq!(all, format!("\x1b[90m\x1b[0m{}", display));
}
