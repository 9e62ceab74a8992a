//! The wallet tool's request to make a block final: the block hash as typed
//! (its display hex, bytes in reverse order) and the node's answer.

use vstd::prelude::*;
use crate::block_dump::{block_hash_display, block_hash_nibble};
use crate::hex_text::{hex_digit_char, hex_lower, law_hex_lower_layout};

verus! {

/// Whether `c` is a hexadecimal digit, in either case.
pub open spec fn is_hex_digit(c: char) -> bool {
    ('0' as u32 <= c as u32 <= '9' as u32) || ('a' as u32 <= c as u32 <= 'f' as u32) || (
    'A' as u32 <= c as u32 <= 'F' as u32)
}

/// The value of a hexadecimal digit.
pub open spec fn hex_digit_value(c: char) -> int {
    if '0' as u32 <= c as u32 <= '9' as u32 {
        c as u32 - '0' as u32
    } else if 'a' as u32 <= c as u32 <= 'f' as u32 {
        c as u32 - 'a' as u32 + 10
    } else {
        c as u32 - 'A' as u32 + 10
    }
}

/// Whether `s` is hexadecimal text: an even number of hexadecimal digits.
pub open spec fn hex_decodes(s: Seq<char>) -> bool {
    s.len() % 2 == 0 && forall|i: int| 0 <= i < s.len() ==> is_hex_digit(#[trigger] s[i])
}

/// The bytes of hexadecimal text, two digits each, high digit first.
pub open spec fn hex_decoded(s: Seq<char>) -> Seq<u8> {
    Seq::new(
        s.len() / 2,
        |i: int| (hex_digit_value(s[2 * i]) * 16 + hex_digit_value(s[2 * i + 1])) as u8,
    )
}

/// The bytes of hexadecimal text, by `hex::decode`: `None` for an odd
/// number of characters or a character that is not a hexadecimal digit;
/// both cases of letters are read.
#[verifier::external_body]
fn hex_decode(text: &str) -> (res: Option<Vec<u8>>)
    ensures
        res is Some <==> hex_decodes(text@),
        res matches Some(v) ==> v@ == hex_decoded(text@),
{
    hex::decode(text).ok()
}

/// The block hash for the display text of a block hash: 64 hexadecimal
/// digits, the bytes in reverse order; `None` for any other text, which the
/// command does not accept.
pub fn block_hash_from_display_hex(text: &str) -> (res: Option<[u8; 32]>)
    ensures
        res is Some <==> (hex_decodes(text@) && text@.len() == 64),
        res matches Some(h) ==> h@ == hex_decoded(text@).reverse(),
{
    let bytes = match hex_decode(text) {
        Some(b) => b,
        None => {
            return None;
        },
    };
    if bytes.len() != 32 {
        return None;
    }
    let mut hash = [0u8; 32];
    let mut i: usize = 0;
    while i < 32
        invariant
            i <= 32,
            bytes@.len() == 32,
            hash@.len() == 32,
            forall|j: int| 0 <= j < i ==> hash@[j] == bytes@[31 - j],
        decreases 32 - i,
    {
        hash[i] = bytes[31 - i];
        i = i + 1;
    }
    assert(hash@ =~= bytes@.reverse());
    Some(hash)
}

/// A lower-case hexadecimal digit reads back as its nibble.
proof fn lemma_hex_digit_reads_back(n: u8)
    requires
        n < 16,
    ensures
        is_hex_digit(hex_digit_char(n)),
        hex_digit_value(hex_digit_char(n)) == n,
{
}

/// Law: lower-case hexadecimal text reads back as the bytes it was made of.
pub proof fn law_hex_lower_reads_back(b: Seq<u8>)
    ensures
        hex_decodes(hex_lower(b)),
        hex_decoded(hex_lower(b)) == b,
{
    law_hex_lower_layout(b);
    let t = hex_lower(b);
    assert forall|i: int| 0 <= i < t.len() implies is_hex_digit(#[trigger] t[i]) by {
        let k = i / 2;
        assert(i == 2 * k || i == 2 * k + 1);
        assert(t[2 * k] == hex_digit_char(b[k] / 16));
        lemma_hex_digit_reads_back(b[k] / 16);
        lemma_hex_digit_reads_back(b[k] % 16);
    }
    assert forall|k: int| 0 <= k < b.len() implies #[trigger] hex_decoded(t)[k] == b[k] by {
        assert(t[2 * k] == hex_digit_char(b[k] / 16));
        lemma_hex_digit_reads_back(b[k] / 16);
        lemma_hex_digit_reads_back(b[k] % 16);
        assert((b[k] / 16) * 16 + b[k] % 16 == b[k]);
    }
    assert(hex_decoded(t) =~= b);
}

/// Law: the display text of a block hash, as the node lists it, is what
/// the command accepts, and it reads back as that block hash.
pub proof fn law_block_hash_display_reads_back(h: [u8; 32])
    ensures
        hex_decodes(block_hash_display(h)),
        block_hash_display(h).len() == 64,
        hex_decoded(block_hash_display(h)).reverse() == h@,
{
    let t = block_hash_display(h);
    assert forall|i: int| 0 <= i < 64 implies is_hex_digit(#[trigger] t[i]) by {
        lemma_hex_digit_reads_back(block_hash_nibble(h, i));
    }
    let d = hex_decoded(t);
    assert forall|k: int| 0 <= k < 32 implies #[trigger] d[k] == h@[31 - k] by {
        let x = h@[31 - k];
        assert(block_hash_nibble(h, 2 * k) == x / 16);
        assert(block_hash_nibble(h, 2 * k + 1) == x % 16);
        lemma_hex_digit_reads_back(x / 16);
        lemma_hex_digit_reads_back(x % 16);
        assert((x / 16) * 16 + x % 16 == x);
    }
    assert(d.reverse() =~= h@);
}

/// The node refused to make the block final.
#[derive(Clone, Debug, PartialEq, Eq)]
pub enum SetFinalityError {
    /// The node's error code and message.
    SendFailed { code: i32, reason: String },
}

/// The outcome of the node's answer: success when its error code is 0.
pub fn set_finality_outcome(error_code: i32, error_message: String) -> (res: Result<
    (),
    SetFinalityError,
>)
    ensures
        error_code == 0 ==> res is Ok,
        error_code != 0 ==> (res matches Err(SetFinalityError::SendFailed { code, reason })
            && code == error_code && reason@ == error_message@),
{
    if error_code != 0 {
        Err(SetFinalityError::SendFailed { code: error_code, reason: error_message })
    } else {
        Ok(())
    }
}

} // verus!
