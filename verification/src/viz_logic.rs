//! The integer logic of the chain visualizer: heights given relative to the
//! tip, two-sided saturating steps, and placeholder hashes.

use vstd::prelude::*;
use vstd::bytes::*;

verus! {

/// The two chains the visualizer draws.
#[derive(Clone, Copy, Debug, PartialEq, Eq, Structural)]
pub enum NodeKind {
    /// The proof-of-work chain.
    BC,
    /// The BFT chain.
    BFT,
}

/// The label of a chain.
pub fn str_from_node_kind(kind: NodeKind) -> (res: &'static str)
    ensures
        kind == NodeKind::BC ==> res@ == "PoW"@,
        kind == NodeKind::BFT ==> res@ == "PoS"@,
{
    match kind {
        NodeKind::BC => "PoW",
        NodeKind::BFT => "PoS",
    }
}

/// Steps `val` down by `d` on its own side of zero: a non-negative value
/// stops at 0, a negative one (counted back from the tip) keeps going down.
pub fn sat_sub_2_sided(val: i32, d: u32) -> (res: i32)
    requires
        d <= i32::MAX,
        val < 0 ==> val - d >= i32::MIN,
    ensures
        res == if val >= d || val < 0 {
            val - d
        } else {
            0
        },
        val >= 0 ==> res >= 0,
        val < 0 ==> res < 0,
{
    let diff = d as i32;
    if val >= diff || val < 0 {
        val - diff
    } else {
        0
    }
}

/// Steps `val` up by `d` on its own side of zero: a negative value (counted
/// back from the tip) stops at -1, the tip; a positive one keeps going up.
pub fn sat_add_2_sided(val: i32, d: u32) -> (res: i32)
    requires
        d <= i32::MAX,
        val > 0 ==> val + d <= i32::MAX,
    ensures
        res == if val <= -1 - d || val > 0 {
            val + d
        } else {
            -1
        },
        val > 0 ==> res > 0,
        val < 0 ==> res < 0,
{
    let diff = d as i32;
    if val <= -1 - diff || val > 0 {
        val + diff
    } else {
        -1
    }
}

/// The absolute height for a requested one: non-negative heights are
/// absolute; a negative height `h` is `!h` (that is `-1 - h`) blocks below
/// the tip, stopping at 0, and 0 when there is no tip.
pub open spec fn spec_abs_block_height(height: i32, tip: Option<u32>) -> u32 {
    if height >= 0 {
        height as u32
    } else {
        match tip {
            Some(t) => if t >= -1 - height {
                (t - (-1 - height)) as u32
            } else {
                0
            },
            None => 0,
        }
    }
}

/// The absolute height for a requested one.
pub fn abs_block_height(height: i32, tip: Option<u32>) -> (res: u32)
    ensures
        res == spec_abs_block_height(height, tip),
{
    if height >= 0 {
        height as u32
    } else {
        match tip {
            Some(t) => {
                assert(!height == -1 - height) by (bit_vector);
                let back = (!height) as u32;
                if t >= back {
                    t - back
                } else {
                    0
                }
            },
            None => 0,
        }
    }
}

/// The absolute heights for a requested range.
pub fn abs_block_heights(heights: (i32, i32), tip: Option<u32>) -> (res: (u32, u32))
    ensures
        res == (spec_abs_block_height(heights.0, tip), spec_abs_block_height(heights.1, tip)),
{
    (abs_block_height(heights.0, tip), abs_block_height(heights.1, tip))
}

/// The heights the visualizer asks the node for: the requested range made
/// absolute and capped at the tip.  Either both ends are counted the same
/// way with the low end first, or the low end is absolute and the high end
/// counted back from the tip.
pub fn viz_request_heights(lo: i32, hi: i32, tip_height: u32) -> (res: (u32, u32))
    requires
        lo <= hi || (lo >= 0 && hi < 0),
    ensures
        res.0 == if spec_abs_block_height(lo, Some(tip_height)) < tip_height {
            spec_abs_block_height(lo, Some(tip_height))
        } else {
            tip_height
        },
        res.1 == if spec_abs_block_height(hi, Some(tip_height)) < tip_height {
            spec_abs_block_height(hi, Some(tip_height))
        } else {
            tip_height
        },
        res.0 <= tip_height && res.1 <= tip_height,
{
    let a = abs_block_height(lo, Some(tip_height));
    let b = abs_block_height(hi, Some(tip_height));
    let h_lo = if a < tip_height {
        a
    } else {
        tip_height
    };
    let h_hi = if b < tip_height {
        b
    } else {
        tip_height
    };
    (h_lo, h_hi)
}

/// A placeholder hash: `v` as eight little-endian bytes, then zeros.
pub fn hash_from_u64(v: u64) -> (res: [u8; 32])
    ensures
        res@ == spec_u64_to_le_bytes(v) + Seq::new(24, |i: int| 0u8),
{
    let mut hash = [0u8; 32];
    let le = u64_to_le_bytes(v);
    let mut i: usize = 0;
    while i < 8
        invariant
            i <= 8,
            le@ == spec_u64_to_le_bytes(v),
            le@.len() == 8,
            hash@.len() == 32,
            forall|j: int| 0 <= j < i ==> hash@[j] == le@[j],
            forall|j: int| 8 <= j < 32 ==> hash@[j] == 0,
        decreases 8 - i,
    {
        hash[i] = le[i];
        i = i + 1;
    }
    assert(hash@ =~= spec_u64_to_le_bytes(v) + Seq::new(24, |i: int| 0u8));
    hash
}

} // verus!
