//! Text for listing block hashes: the shortest distinguishing suffix of each
//! hash's display is highlighted.

use vstd::prelude::*;
use crate::hex_text::{hex_digit_char, hex_digit_str};

verus! {

/// The nibble shown at position `k` of a block hash's display: the bytes
/// in reverse order, two lower-case hexadecimal digits each, high first.
pub open spec fn block_hash_nibble(h: [u8; 32], k: int) -> u8 {
    if k % 2 == 0 {
        h@[31 - k / 2] / 16
    } else {
        h@[31 - k / 2] % 16
    }
}

/// The 64-character display of a block hash.
pub open spec fn block_hash_display(h: [u8; 32]) -> Seq<char> {
    Seq::new(64, |k: int| hex_digit_char(block_hash_nibble(h, k)))
}

/// What tells hashes apart with `n` characters: the first `n / 2` bytes,
/// and, when `n` is odd, the low nibble of the next byte.
pub open spec fn hash_prefix_key(h: [u8; 32], n: int) -> (Seq<u8>, Option<u8>) {
    (h@.take(n / 2), if n % 2 != 0 {
        Some(h@[n / 2] & 0xf)
    } else {
        None
    })
}

/// Whether no two of `hs` share their key for `n` characters.
pub open spec fn prefixes_unique(hs: Seq<[u8; 32]>, n: int) -> bool {
    forall|i: int, j: int| 0 <= i < j < hs.len() ==> hash_prefix_key(hs[i], n) != hash_prefix_key(hs[j], n)
}

/// Whether `a` and `b` share their key for `n` characters.
fn prefix_keys_equal(a: &[u8; 32], b: &[u8; 32], n: usize) -> (res: bool)
    requires
        n <= 64,
    ensures
        res == (hash_prefix_key(*a, n as int) == hash_prefix_key(*b, n as int)),
{
    let bytes_n = n / 2;
    let mut i: usize = 0;
    while i < bytes_n
        invariant
            bytes_n == n / 2,
            n <= 64,
            i <= bytes_n,
            forall|j: int| 0 <= j < i ==> a@[j] == b@[j],
        decreases bytes_n - i,
    {
        if a[i] != b[i] {
            assert(a@.take(bytes_n as int)[i as int] != b@.take(bytes_n as int)[i as int]);
            return false;
        }
        i = i + 1;
    }
    assert(a@.take(bytes_n as int) =~= b@.take(bytes_n as int));
    if n % 2 != 0 {
        (a[bytes_n] & 0xf) == (b[bytes_n] & 0xf)
    } else {
        true
    }
}

/// Whether no two of `hashes` share their key for `n` characters.
fn prefixes_unique_exec(hashes: &Vec<[u8; 32]>, n: usize) -> (res: bool)
    requires
        n <= 64,
    ensures
        res == prefixes_unique(hashes@, n as int),
{
    let len = hashes.len();
    let mut i: usize = 0;
    while i < len
        invariant
            len == hashes@.len(),
            n <= 64,
            i <= len,
            forall|a: int, b: int|
                0 <= a < i && a < b < len ==> hash_prefix_key(hashes@[a], n as int) != hash_prefix_key(
                    hashes@[b],
                    n as int,
                ),
        decreases len - i,
    {
        let mut j: usize = i + 1;
        while j < len
            invariant
                len == hashes@.len(),
                n <= 64,
                i < len,
                i + 1 <= j <= len,
                forall|a: int, b: int|
                    0 <= a < i && a < b < len ==> hash_prefix_key(hashes@[a], n as int)
                        != hash_prefix_key(hashes@[b], n as int),
                forall|b: int|
                    i < b < j ==> hash_prefix_key(hashes@[i as int], n as int) != hash_prefix_key(
                        hashes@[b],
                        n as int,
                    ),
            decreases len - j,
        {
            if prefix_keys_equal(&hashes[i], &hashes[j], n) {
                return false;
            }
            j = j + 1;
        }
        i = i + 1;
    }
    true
}

/// How many trailing characters of each hash's display to highlight: the
/// fewest, at least one, that tell the hashes apart.
pub fn highlight_chars_needed(hashes: &Vec<[u8; 32]>) -> (n: usize)
    requires
        forall|i: int, j: int| 0 <= i < j < hashes@.len() ==> hashes@[i]@ != hashes@[j]@,
    ensures
        1 <= n <= 64,
        prefixes_unique(hashes@, n as int),
        forall|m: int| 1 <= m < n ==> !prefixes_unique(hashes@, m),
{
    assert(prefixes_unique(hashes@, 64)) by {
        assert forall|i: int, j: int| 0 <= i < j < hashes@.len() implies hash_prefix_key(
            hashes@[i],
            64,
        ) != hash_prefix_key(hashes@[j], 64) by {
            assert(hashes@[i]@.take(32) =~= hashes@[i]@);
            assert(hashes@[j]@.take(32) =~= hashes@[j]@);
        }
    }
    let mut n: usize = 1;
    while !prefixes_unique_exec(hashes, n)
        invariant
            1 <= n <= 64,
            prefixes_unique(hashes@, 64),
            forall|m: int| 1 <= m < n ==> !prefixes_unique(hashes@, m),
        decreases 64 - n,
    {
        n = n + 1;
    }
    n
}

/// The escape sequence that turns text grey.
pub open spec fn grey_escape() -> Seq<char> {
    "\x1b[90m"@
}

/// The escape sequence that resets the text colour.
pub open spec fn reset_escape() -> Seq<char> {
    "\x1b[0m"@
}

/// A block hash's display with all but its last `n` characters grey.
pub open spec fn hash_highlight_lo(h: [u8; 32], n: int) -> Seq<char> {
    grey_escape() + block_hash_display(h).take(64 - n) + reset_escape() + block_hash_display(h).skip(
        64 - n,
    )
}

/// Appends the display characters of `h` from `from` up to `to`.
fn append_display_range(text: &mut String, h: &[u8; 32], from: usize, to: usize)
    requires
        from <= to <= 64,
    ensures
        final(text)@ == old(text)@ + block_hash_display(*h).subrange(from as int, to as int),
{
    let ghost start = text@;
    let mut k: usize = from;
    while k < to
        invariant
            from <= k <= to <= 64,
            text@ == start + block_hash_display(*h).subrange(from as int, k as int),
        decreases to - k,
    {
        let b = h[31 - k / 2];
        let nib = if k % 2 == 0 {
            b / 16
        } else {
            b % 16
        };
        text.append(hex_digit_str(nib));
        k = k + 1;
        assert(block_hash_display(*h).subrange(from as int, k as int) =~= block_hash_display(
            *h,
        ).subrange(from as int, k - 1).push(hex_digit_char(nib)));
    }
}

/// A block hash's display with all but its last `highlight_chars_n`
/// characters grey, for a terminal.
pub fn hash_highlight_lo_text(h: &[u8; 32], highlight_chars_n: usize) -> (res: String)
    requires
        highlight_chars_n <= 64,
    ensures
        res@ == hash_highlight_lo(*h, highlight_chars_n as int),
{
    let grey_len = 64 - highlight_chars_n;
    let mut text = String::new();
    text.append("\x1b[90m");
    append_display_range(&mut text, h, 0, grey_len);
    text.append("\x1b[0m");
    append_display_range(&mut text, h, grey_len, 64);
    assert(block_hash_display(*h).subrange(0, grey_len as int) =~= block_hash_display(*h).take(
        grey_len as int,
    ));
    assert(block_hash_display(*h).subrange(grey_len as int, 64) =~= block_hash_display(*h).skip(
        grey_len as int,
    ));
    text
}

} // verus!
