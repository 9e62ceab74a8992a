//! Lower-case hexadecimal text for byte strings.

use vstd::prelude::*;

verus! {

/// The lower-case hexadecimal digit for a nibble.
pub open spec fn hex_digit_char(n: u8) -> char {
    if n < 10 {
        (('0' as u8) + n) as char
    } else {
        (('a' as u8) + (n - 10)) as char
    }
}

/// Two lower-case hexadecimal digits per byte, high nibble first.
pub open spec fn hex_lower(b: Seq<u8>) -> Seq<char>
    decreases b.len(),
{
    if b.len() == 0 {
        Seq::empty()
    } else {
        hex_lower(b.drop_last()) + seq![hex_digit_char(b.last() / 16), hex_digit_char(b.last() % 16)]
    }
}

/// Law: the lower-case hexadecimal text of `b` has two characters per
/// byte, in order: the digit of the byte's high nibble, then of its low.
pub proof fn law_hex_lower_layout(b: Seq<u8>)
    ensures
        hex_lower(b).len() == 2 * b.len(),
        forall|k: int|
            0 <= k < b.len() ==> #[trigger] hex_lower(b)[2 * k] == hex_digit_char(b[k] / 16) && hex_lower(
                b,
            )[2 * k + 1] == hex_digit_char(b[k] % 16),
    decreases b.len(),
{
    if b.len() > 0 {
        let init = b.drop_last();
        law_hex_lower_layout(init);
        assert forall|k: int| 0 <= k < b.len() implies #[trigger] hex_lower(b)[2 * k] == hex_digit_char(
            b[k] / 16,
        ) && hex_lower(b)[2 * k + 1] == hex_digit_char(b[k] % 16) by {
            if k < init.len() {
                assert(hex_lower(init)[2 * k] == hex_digit_char(init[k] / 16));
                assert(init[k] == b[k]);
            }
        }
    }
}

/// The one-character text of a hexadecimal digit.
pub(crate) fn hex_digit_str(n: u8) -> (s: &'static str)
    requires
        n < 16,
    ensures
        s@ == seq![hex_digit_char(n)],
{
    match n {
        0 => { proof { reveal_strlit("0"); } "0" },
        1 => { proof { reveal_strlit("1"); } "1" },
        2 => { proof { reveal_strlit("2"); } "2" },
        3 => { proof { reveal_strlit("3"); } "3" },
        4 => { proof { reveal_strlit("4"); } "4" },
        5 => { proof { reveal_strlit("5"); } "5" },
        6 => { proof { reveal_strlit("6"); } "6" },
        7 => { proof { reveal_strlit("7"); } "7" },
        8 => { proof { reveal_strlit("8"); } "8" },
        9 => { proof { reveal_strlit("9"); } "9" },
        10 => { proof { reveal_strlit("a"); } "a" },
        11 => { proof { reveal_strlit("b"); } "b" },
        12 => { proof { reveal_strlit("c"); } "c" },
        13 => { proof { reveal_strlit("d"); } "d" },
        14 => { proof { reveal_strlit("e"); } "e" },
        _ => { proof { reveal_strlit("f"); } "f" },
    }
}

/// Appends the lower-case hexadecimal text of `bytes` to `text`.
pub fn append_hex(text: &mut String, bytes: &[u8])
    ensures
        final(text)@ == old(text)@ + hex_lower(bytes@),
{
    let ghost start = text@;
    let mut i: usize = 0;
    while i < bytes.len()
        invariant
            i <= bytes@.len(),
            text@ == start + hex_lower(bytes@.subrange(0, i as int)),
        decreases bytes@.len() - i,
    {
        let b = bytes[i];
        text.append(hex_digit_str(b / 16));
        text.append(hex_digit_str(b % 16));
        i = i + 1;
        assert(bytes@.subrange(0, i as int).drop_last() =~= bytes@.subrange(0, i - 1));
    }
    assert(bytes@.subrange(0, bytes@.len() as int) =~= bytes@);
}

/// The upper-case hexadecimal digit for a nibble.
pub open spec fn hex_digit_char_upper(n: u8) -> char {
    if n < 10 {
        (('0' as u8) + n) as char
    } else {
        (('A' as u8) + (n - 10)) as char
    }
}

/// Two upper-case hexadecimal digits per byte, high nibble first.
pub open spec fn hex_upper(b: Seq<u8>) -> Seq<char>
    decreases b.len(),
{
    if b.len() == 0 {
        Seq::empty()
    } else {
        hex_upper(b.drop_last()) + seq![
            hex_digit_char_upper(b.last() / 16),
            hex_digit_char_upper(b.last() % 16),
        ]
    }
}

/// Law: the upper-case hexadecimal text of `b` has two characters per
/// byte, in order: the digit of the byte's high nibble, then of its low;
/// each is the lower-case digit, with letters in upper case.
pub proof fn law_hex_upper_layout(b: Seq<u8>)
    ensures
        hex_upper(b).len() == 2 * b.len(),
        forall|k: int|
            0 <= k < b.len() ==> #[trigger] hex_upper(b)[2 * k] == hex_digit_char_upper(b[k] / 16)
                && hex_upper(b)[2 * k + 1] == hex_digit_char_upper(b[k] % 16),
        forall|n: u8|
            n < 16 ==> #[trigger] hex_digit_char_upper(n) == if n < 10 {
                hex_digit_char(n)
            } else {
                ((hex_digit_char(n) as u8) - 32) as char
            },
    decreases b.len(),
{
    if b.len() > 0 {
        let init = b.drop_last();
        law_hex_upper_layout(init);
        assert forall|k: int| 0 <= k < b.len() implies #[trigger] hex_upper(b)[2 * k]
            == hex_digit_char_upper(b[k] / 16) && hex_upper(b)[2 * k + 1] == hex_digit_char_upper(
            b[k] % 16,
        ) by {
            if k < init.len() {
                assert(hex_upper(init)[2 * k] == hex_digit_char_upper(init[k] / 16));
                assert(init[k] == b[k]);
            }
        }
    }
}

/// The one-character text of an upper-case hexadecimal digit.
fn hex_digit_str_upper(n: u8) -> (s: &'static str)
    requires
        n < 16,
    ensures
        s@ == seq![hex_digit_char_upper(n)],
{
    if n < 10 {
        hex_digit_str(n)
    } else {
        match n {
            10 => { proof { reveal_strlit("A"); } "A" },
            11 => { proof { reveal_strlit("B"); } "B" },
            12 => { proof { reveal_strlit("C"); } "C" },
            13 => { proof { reveal_strlit("D"); } "D" },
            14 => { proof { reveal_strlit("E"); } "E" },
            _ => { proof { reveal_strlit("F"); } "F" },
        }
    }
}

/// Appends the upper-case hexadecimal text of `bytes` to `text`.
pub fn append_hex_upper(text: &mut String, bytes: &[u8])
    ensures
        final(text)@ == old(text)@ + hex_upper(bytes@),
{
    let ghost start = text@;
    let mut i: usize = 0;
    while i < bytes.len()
        invariant
            i <= bytes@.len(),
            text@ == start + hex_upper(bytes@.subrange(0, i as int)),
        decreases bytes@.len() - i,
    {
        let b = bytes[i];
        text.append(hex_digit_str_upper(b / 16));
        text.append(hex_digit_str_upper(b % 16));
        i = i + 1;
        assert(bytes@.subrange(0, i as int).drop_last() =~= bytes@.subrange(0, i - 1));
    }
    assert(bytes@.subrange(0, bytes@.len() as int) =~= bytes@);
}

} // verus!
