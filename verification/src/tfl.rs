//! The trailing finality layer's own state: stakers, the finalizer roster
//! and block finality.  What needs the node's state service is asked for by
//! the caller, which hands the answers back to the decisions here.

use vstd::prelude::*;

verus! {

broadcast use vstd::seq_lib::group_to_multiset_ensures;

/// Placeholder activation height for Crosslink functionality.
pub const TFL_ACTIVATION_HEIGHT: u32 = 2000;

/// How many stakers, with the most stake first, make up the finalizer roster.
pub const ROSTER_SIZE: usize = 3;

/// The finality status of a block.
#[derive(Clone, Copy, Debug, PartialEq, Eq, Structural)]
pub enum TFLBlockFinality {
    /// The block height is above the finalized height, so it's not yet
    /// determined whether or not it will be finalized.
    NotYetFinalized,
    /// The block is finalized: its height is below the finalized height and
    /// it is in the best chain.
    Finalized,
    /// The block cannot be finalized: its height is below the finalized
    /// height and it is not in the best chain.
    CantBeFinalized,
}

/// Placeholder representation for an entity staking on the PoS chain.
#[derive(Clone, Copy, Debug, PartialEq, Eq, Structural)]
pub struct TFLStaker {
    /// Placeholder identity.
    pub id: u64,
    /// Placeholder stake weight.
    pub stake: u64,
}

/// The group of stakers that are to be treated as finalizers.
#[derive(Clone, Debug)]
pub struct TFLRoster {
    /// The stakers whose votes count, the most stake first.
    pub finalizers: Vec<TFLStaker>,
}

// ---------------------------------------------------------------------------
// Ordering stakers by stake
// ---------------------------------------------------------------------------

/// Whether `s` is ordered by stake, the most first.
pub open spec fn sorted_by_stake_desc(s: Seq<TFLStaker>) -> bool {
    forall|i: int, j: int| 0 <= i < j < s.len() ==> s[i].stake >= s[j].stake
}

/// Where `x` goes in `s` so that it follows every staker before the first
/// one with less stake than `x`.
pub open spec fn stake_insert_pos(s: Seq<TFLStaker>, x: TFLStaker) -> int
    decreases s.len(),
{
    if s.len() == 0 {
        0
    } else if s[0].stake < x.stake {
        0
    } else {
        1 + stake_insert_pos(s.drop_first(), x)
    }
}

/// `s` with `x` inserted before the first staker with less stake than `x`.
pub open spec fn insert_by_stake(s: Seq<TFLStaker>, x: TFLStaker) -> Seq<TFLStaker> {
    s.insert(stake_insert_pos(s, x), x)
}

/// `s` ordered by stake, the most first; stakers of equal stake keep their
/// order in `s` (a stable sort).
pub open spec fn sort_by_stake_desc(s: Seq<TFLStaker>) -> Seq<TFLStaker>
    decreases s.len(),
{
    if s.len() == 0 {
        Seq::empty()
    } else {
        insert_by_stake(sort_by_stake_desc(s.drop_last()), s.last())
    }
}

/// The insertion point is characterised by the stakes around it.
pub proof fn lemma_stake_insert_pos(s: Seq<TFLStaker>, x: TFLStaker, p: int)
    requires
        0 <= p <= s.len(),
        forall|j: int| 0 <= j < p ==> s[j].stake >= x.stake,
        p < s.len() ==> s[p].stake < x.stake,
    ensures
        stake_insert_pos(s, x) == p,
    decreases s.len(),
{
    if s.len() > 0 && p > 0 {
        assert(s[0].stake >= x.stake);
        lemma_stake_insert_pos(s.drop_first(), x, p - 1);
    }
}

/// What holds around the insertion point.
pub proof fn lemma_stake_insert_pos_bounds(s: Seq<TFLStaker>, x: TFLStaker)
    ensures
        0 <= stake_insert_pos(s, x) <= s.len(),
        forall|j: int| 0 <= j < stake_insert_pos(s, x) ==> s[j].stake >= x.stake,
        stake_insert_pos(s, x) < s.len() ==> s[stake_insert_pos(s, x)].stake < x.stake,
    decreases s.len(),
{
    if s.len() > 0 && s[0].stake >= x.stake {
        lemma_stake_insert_pos_bounds(s.drop_first(), x);
        assert forall|j: int| 0 <= j < stake_insert_pos(s, x) implies s[j].stake >= x.stake by {
            if j > 0 {
                assert(s[j] == s.drop_first()[j - 1]);
            }
        }
    }
}

/// Inserting by stake into an ordered sequence keeps it ordered.
pub proof fn lemma_insert_by_stake_sorted(s: Seq<TFLStaker>, x: TFLStaker)
    requires
        sorted_by_stake_desc(s),
    ensures
        sorted_by_stake_desc(insert_by_stake(s, x)),
{
    lemma_stake_insert_pos_bounds(s, x);
    let p = stake_insert_pos(s, x);
    let r = insert_by_stake(s, x);
    assert forall|i: int, j: int| 0 <= i < j < r.len() implies r[i].stake >= r[j].stake by {
        if i < p {
            if j < p {
                assert(r[i] == s[i] && r[j] == s[j]);
            } else if j == p {
                assert(r[i] == s[i]);
            } else {
                assert(r[i] == s[i] && r[j] == s[j - 1]);
            }
        } else if i == p {
            assert(r[j] == s[j - 1]);
            assert(s[p].stake < x.stake);
        } else {
            assert(r[i] == s[i - 1] && r[j] == s[j - 1]);
        }
    }
}

/// The stable sort orders by stake.
pub proof fn lemma_sort_by_stake_sorted(s: Seq<TFLStaker>)
    ensures
        sorted_by_stake_desc(sort_by_stake_desc(s)),
    decreases s.len(),
{
    if s.len() > 0 {
        lemma_sort_by_stake_sorted(s.drop_last());
        lemma_insert_by_stake_sorted(sort_by_stake_desc(s.drop_last()), s.last());
    }
}

/// The stable sort rearranges and neither adds nor drops a staker.
pub proof fn lemma_sort_by_stake_permutes(s: Seq<TFLStaker>)
    ensures
        sort_by_stake_desc(s).to_multiset() == s.to_multiset(),
        sort_by_stake_desc(s).len() == s.len(),
    decreases s.len(),
{
    if s.len() > 0 {
        let init = s.drop_last();
        lemma_sort_by_stake_permutes(init);
        let t = sort_by_stake_desc(init);
        lemma_stake_insert_pos_bounds(t, s.last());
        assert(init.push(s.last()) == s);
        assert(t.insert(stake_insert_pos(t, s.last()), s.last()).to_multiset()
            == t.to_multiset().insert(s.last()));
        assert(init.push(s.last()).to_multiset() == init.to_multiset().insert(s.last()));
    }
}

/// Sorts `v` by stake, the most first, keeping the order of equal stakes.
pub fn sort_stakers_by_stake(v: &Vec<TFLStaker>) -> (res: Vec<TFLStaker>)
    ensures
        res@ == sort_by_stake_desc(v@),
{
    let mut out: Vec<TFLStaker> = Vec::new();
    let mut k: usize = 0;
    assert(v@.take(0) =~= Seq::<TFLStaker>::empty());
    while k < v.len()
        invariant
            k <= v@.len(),
            out@ == sort_by_stake_desc(v@.take(k as int)),
        decreases v@.len() - k,
    {
        let x = v[k];
        let mut p: usize = 0;
        while p < out.len() && out[p].stake >= x.stake
            invariant
                p <= out@.len(),
                forall|j: int| 0 <= j < p ==> out@[j].stake >= x.stake,
            decreases out@.len() - p,
        {
            p = p + 1;
        }
        proof {
            lemma_stake_insert_pos(out@, x, p as int);
            assert(v@.take(k + 1).drop_last() =~= v@.take(k as int));
            assert(v@.take(k + 1).last() == x);
        }
        out.insert(p, x);
        k = k + 1;
    }
    assert(v@.take(v@.len() as int) =~= v@);
    out
}

// ---------------------------------------------------------------------------
// Updating the stakers
// ---------------------------------------------------------------------------

/// The index of the first staker with identity `id`, or `s.len()` when
/// there is none.
pub open spec fn position_of_id(s: Seq<TFLStaker>, id: u64) -> int
    decreases s.len(),
{
    if s.len() == 0 {
        0
    } else if s[0].id == id {
        0
    } else {
        1 + position_of_id(s.drop_first(), id)
    }
}

/// The first index of an identity is characterised by the identities before it.
pub proof fn lemma_position_of_id(s: Seq<TFLStaker>, id: u64, p: int)
    requires
        0 <= p <= s.len(),
        forall|j: int| 0 <= j < p ==> s[j].id != id,
        p < s.len() ==> s[p].id == id,
    ensures
        position_of_id(s, id) == p,
    decreases s.len(),
{
    if s.len() > 0 && p > 0 {
        assert(s[0].id != id);
        lemma_position_of_id(s.drop_first(), id, p - 1);
    }
}

/// The staker list after one update, before it is sorted again: a staker
/// already present is replaced, or removed when its new stake is zero; a
/// new staker with stake is appended; a new staker without stake changes
/// nothing.
pub open spec fn apply_staker_update(s: Seq<TFLStaker>, staker: TFLStaker) -> Seq<TFLStaker> {
    let p = position_of_id(s, staker.id);
    if p < s.len() {
        if staker.stake == 0 {
            s.remove(p)
        } else {
            s.update(p, staker)
        }
    } else if staker.stake != 0 {
        s.push(staker)
    } else {
        s
    }
}

/// The staker list after an update request: the update, then the list
/// sorted by stake, the most first.
pub open spec fn updated_stakers(s: Seq<TFLStaker>, staker: TFLStaker) -> Seq<TFLStaker> {
    sort_by_stake_desc(apply_staker_update(s, staker))
}

/// No two stakers share an identity.
pub open spec fn stakers_ids_unique(s: Seq<TFLStaker>) -> bool {
    forall|i: int, j: int| 0 <= i < j < s.len() ==> s[i].id != s[j].id
}

/// The invariant of the staker list: ordered by stake, the most first; no
/// two stakers share an identity; none has zero stake.
pub open spec fn stakers_wf(s: Seq<TFLStaker>) -> bool {
    &&& sorted_by_stake_desc(s)
    &&& stakers_ids_unique(s)
    &&& forall|i: int| 0 <= i < s.len() ==> s[i].stake != 0
}

/// Applies an update request to the staker list and sorts it again.
pub fn update_staker(stakers: &mut Vec<TFLStaker>, staker: TFLStaker)
    ensures
        final(stakers)@ == updated_stakers(old(stakers)@, staker),
{
    let n = stakers.len();
    let mut i: usize = 0;
    while i < n && stakers[i].id != staker.id
        invariant
            n == stakers@.len(),
            i <= n,
            forall|j: int| 0 <= j < i ==> stakers@[j].id != staker.id,
        decreases n - i,
    {
        i = i + 1;
    }
    proof {
        lemma_position_of_id(stakers@, staker.id, i as int);
    }
    if i < n {
        if staker.stake == 0 {
            stakers.remove(i);
        } else {
            stakers.set(i, staker);
        }
    } else if staker.stake != 0 {
        stakers.push(staker);
    }
    let sorted = sort_stakers_by_stake(stakers);
    *stakers = sorted;
}

/// The first `ROSTER_SIZE` stakers, or all of them when there are fewer.
pub open spec fn roster_of(s: Seq<TFLStaker>) -> Seq<TFLStaker> {
    if s.len() <= ROSTER_SIZE {
        s
    } else {
        s.take(ROSTER_SIZE as int)
    }
}

/// The finalizer roster: the first stakers of the list, at most `ROSTER_SIZE`.
pub fn roster(stakers: &Vec<TFLStaker>) -> (res: TFLRoster)
    ensures
        res.finalizers@ == roster_of(stakers@),
{
    let mut finalizers: Vec<TFLStaker> = Vec::new();
    let mut i: usize = 0;
    while i < stakers.len() && i < ROSTER_SIZE
        invariant
            i <= stakers@.len(),
            i <= ROSTER_SIZE,
            finalizers@ == stakers@.take(i as int),
        decreases ROSTER_SIZE - i,
    {
        finalizers.push(stakers[i]);
        i = i + 1;
        assert(stakers@.take(i as int) =~= stakers@.take(i - 1).push(stakers@[i - 1]));
    }
    assert(stakers@.len() <= ROSTER_SIZE ==> stakers@.take(stakers@.len() as int) =~= stakers@);
    TFLRoster { finalizers }
}

// ---------------------------------------------------------------------------
// Laws of the staker list
// ---------------------------------------------------------------------------

/// Inserting a staker whose identity is new keeps identities unique.
proof fn lemma_insert_keeps_ids_unique(s: Seq<TFLStaker>, p: int, x: TFLStaker)
    requires
        0 <= p <= s.len(),
        stakers_ids_unique(s),
        forall|k: int| 0 <= k < s.len() ==> s[k].id != x.id,
    ensures
        stakers_ids_unique(s.insert(p, x)),
{
    let r = s.insert(p, x);
    assert forall|i: int, j: int| 0 <= i < j < r.len() implies r[i].id != r[j].id by {
        if i < p {
            if j == p {
                assert(r[i] == s[i]);
            } else if j < p {
                assert(r[i] == s[i] && r[j] == s[j]);
            } else {
                assert(r[i] == s[i] && r[j] == s[j - 1]);
            }
        } else if i == p {
            assert(r[j] == s[j - 1]);
        } else {
            assert(r[i] == s[i - 1] && r[j] == s[j - 1]);
        }
    }
}

/// A staker of a sequence with the same multiset is a staker of the other.
proof fn lemma_same_multiset_contains(a: Seq<TFLStaker>, b: Seq<TFLStaker>, y: TFLStaker)
    requires
        a.to_multiset() == b.to_multiset(),
    ensures
        a.contains(y) <==> b.contains(y),
{
    assert(a.contains(y) <==> a.to_multiset().count(y) > 0);
    assert(b.contains(y) <==> b.to_multiset().count(y) > 0);
}

/// Sorting keeps identities unique.
proof fn lemma_sort_keeps_ids_unique(s: Seq<TFLStaker>)
    requires
        stakers_ids_unique(s),
    ensures
        stakers_ids_unique(sort_by_stake_desc(s)),
    decreases s.len(),
{
    if s.len() > 0 {
        let init = s.drop_last();
        let x = s.last();
        assert(stakers_ids_unique(init)) by {
            assert forall|i: int, j: int| 0 <= i < j < init.len() implies init[i].id != init[j].id by {
                assert(init[i] == s[i] && init[j] == s[j]);
            }
        }
        lemma_sort_keeps_ids_unique(init);
        lemma_sort_by_stake_permutes(init);
        let t = sort_by_stake_desc(init);
        assert forall|k: int| 0 <= k < t.len() implies t[k].id != x.id by {
            lemma_same_multiset_contains(t, init, t[k]);
            assert(t.contains(t[k]));
            let j = choose|j: int| 0 <= j < init.len() && init[j] == t[k];
            assert(s[j] == init[j]);
            assert(s[s.len() - 1] == x);
        }
        lemma_stake_insert_pos_bounds(t, x);
        lemma_insert_keeps_ids_unique(t, stake_insert_pos(t, x), x);
    }
}

/// A staker is in the updated list before sorting exactly as the update says.
proof fn lemma_apply_update_contains(s: Seq<TFLStaker>, staker: TFLStaker, y: TFLStaker)
    requires
        stakers_ids_unique(s),
    ensures
        y.id != staker.id ==> (apply_staker_update(s, staker).contains(y) <==> s.contains(y)),
        y.id == staker.id ==> (apply_staker_update(s, staker).contains(y) <==> (y == staker
            && staker.stake != 0)),
        stakers_ids_unique(apply_staker_update(s, staker)),
{
    let p = position_of_id(s, staker.id);
    lemma_position_of_id_bounds(s, staker.id);
    let a = apply_staker_update(s, staker);
    if p < s.len() {
        if staker.stake == 0 {
            assert forall|i: int, j: int| 0 <= i < j < a.len() implies a[i].id != a[j].id by {
                let si = if i < p { i } else { i + 1 };
                let sj = if j < p { j } else { j + 1 };
                assert(a[i] == s[si] && a[j] == s[sj]);
            }
            if s.contains(y) {
                let k = choose|k: int| 0 <= k < s.len() && s[k] == y;
                if y.id != staker.id {
                    assert(k != p);
                    let ak = if k < p { k } else { k - 1 };
                    assert(a[ak] == y);
                }
            }
            if a.contains(y) {
                let k = choose|k: int| 0 <= k < a.len() && a[k] == y;
                let sk = if k < p { k } else { k + 1 };
                assert(s[sk] == y);
                assert(sk != p);
            }
        } else {
            assert forall|i: int, j: int| 0 <= i < j < a.len() implies a[i].id != a[j].id by {
                assert(s[i].id != s[j].id);
            }
            if s.contains(y) && y.id != staker.id {
                let k = choose|k: int| 0 <= k < s.len() && s[k] == y;
                assert(k != p);
                assert(a[k] == y);
            }
            if a.contains(y) {
                let k = choose|k: int| 0 <= k < a.len() && a[k] == y;
                if k != p {
                    assert(s[k] == y);
                    assert(s[k].id != s[p].id);
                }
            }
            assert(a[p] == staker);
        }
    } else if staker.stake != 0 {
        assert forall|i: int, j: int| 0 <= i < j < a.len() implies a[i].id != a[j].id by {
            if j == s.len() {
                assert(a[i] == s[i]);
            } else {
                assert(a[i] == s[i] && a[j] == s[j]);
            }
        }
        if s.contains(y) {
            let k = choose|k: int| 0 <= k < s.len() && s[k] == y;
            assert(a[k] == y);
        }
        if a.contains(y) {
            let k = choose|k: int| 0 <= k < a.len() && a[k] == y;
            if k < s.len() {
                assert(s[k] == y);
            }
        }
        assert(a[s.len() as int] == staker);
    } else {
        if s.contains(y) {
            let k = choose|k: int| 0 <= k < s.len() && s[k] == y;
            assert(s[k].id != staker.id);
        }
    }
}

/// What holds around the first index of an identity.
proof fn lemma_position_of_id_bounds(s: Seq<TFLStaker>, id: u64)
    ensures
        0 <= position_of_id(s, id) <= s.len(),
        forall|j: int| 0 <= j < position_of_id(s, id) ==> s[j].id != id,
        position_of_id(s, id) < s.len() ==> s[position_of_id(s, id)].id == id,
    decreases s.len(),
{
    if s.len() > 0 && s[0].id != id {
        lemma_position_of_id_bounds(s.drop_first(), id);
        assert forall|j: int| 0 <= j < position_of_id(s, id) implies s[j].id != id by {
            if j > 0 {
                assert(s[j] == s.drop_first()[j - 1]);
            }
        }
    }
}

/// Every update request leaves the staker list ordered by stake, the most
/// first, whatever the list held before.
pub proof fn law_update_staker_sorted(s: Seq<TFLStaker>, staker: TFLStaker)
    ensures
        sorted_by_stake_desc(updated_stakers(s, staker)),
{
    lemma_sort_by_stake_sorted(apply_staker_update(s, staker));
}

/// Sorting after an update only reorders: the list holds the same stakers,
/// as many times each, as the list with the update applied.
pub proof fn law_update_staker_reorders_only(s: Seq<TFLStaker>, staker: TFLStaker)
    ensures
        updated_stakers(s, staker).to_multiset() == apply_staker_update(s, staker).to_multiset(),
{
    lemma_sort_by_stake_permutes(apply_staker_update(s, staker));
}

/// An update request keeps the staker list well formed, and afterwards the
/// updated identity is present exactly when its new stake is not zero, and
/// then with that stake; every staker of another identity is kept as it was.
pub proof fn law_update_staker_effect(s: Seq<TFLStaker>, staker: TFLStaker, y: TFLStaker)
    requires
        stakers_wf(s),
    ensures
        stakers_wf(updated_stakers(s, staker)),
        y.id == staker.id ==> (updated_stakers(s, staker).contains(y) <==> (y == staker
            && staker.stake != 0)),
        y.id != staker.id ==> (updated_stakers(s, staker).contains(y) <==> s.contains(y)),
{
    let a = apply_staker_update(s, staker);
    let r = updated_stakers(s, staker);
    lemma_apply_update_contains(s, staker, y);
    lemma_sort_by_stake_permutes(a);
    lemma_same_multiset_contains(r, a, y);
    lemma_sort_keeps_ids_unique(a);
    lemma_sort_by_stake_sorted(a);
    assert forall|i: int| 0 <= i < r.len() implies r[i].stake != 0 by {
        let z = r[i];
        assert(r.contains(z));
        lemma_same_multiset_contains(r, a, z);
        lemma_apply_update_contains(s, staker, z);
        if z.id != staker.id {
            let k = choose|k: int| 0 <= k < s.len() && s[k] == z;
        }
    }
}

/// The roster is the head of the staker list: when the list is well
/// formed, its finalizers are the stakers with the most stake, in order.
pub proof fn law_roster_is_head(s: Seq<TFLStaker>)
    requires
        stakers_wf(s),
    ensures
        roster_of(s).len() == if s.len() < ROSTER_SIZE { s.len() } else { ROSTER_SIZE as nat },
        forall|i: int| 0 <= i < roster_of(s).len() ==> roster_of(s)[i] == s[i],
        forall|i: int, j: int|
            0 <= i < roster_of(s).len() && roster_of(s).len() <= j < s.len() ==> roster_of(s)[i].stake
                >= s[j].stake,
{
}

/// Sorting a list that is already ordered by stake leaves it as it is.
pub proof fn lemma_sort_of_sorted(s: Seq<TFLStaker>)
    requires
        sorted_by_stake_desc(s),
    ensures
        sort_by_stake_desc(s) == s,
    decreases s.len(),
{
    if s.len() > 0 {
        let init = s.drop_last();
        assert(sorted_by_stake_desc(init)) by {
            assert forall|i: int, j: int| 0 <= i < j < init.len() implies init[i].stake
                >= init[j].stake by {
                assert(init[i] == s[i] && init[j] == s[j]);
            }
        }
        lemma_sort_of_sorted(init);
        assert forall|j: int| 0 <= j < init.len() implies init[j].stake >= s.last().stake by {
            assert(init[j] == s[j]);
        }
        lemma_stake_insert_pos(init, s.last(), init.len() as int);
        assert(init.insert(init.len() as int, s.last()) =~= s);
    }
}

/// Making the same update request twice leaves the staker list as making
/// it once.
pub proof fn law_update_staker_idempotent(s: Seq<TFLStaker>, staker: TFLStaker)
    requires
        stakers_wf(s),
    ensures
        updated_stakers(updated_stakers(s, staker), staker) == updated_stakers(s, staker),
{
    let r = updated_stakers(s, staker);
    law_update_staker_effect(s, staker, staker);
    lemma_sort_of_sorted(r);
    if staker.stake != 0 {
        assert(r.contains(staker));
        let p = choose|p: int| 0 <= p < r.len() && r[p] == staker;
        assert forall|j: int| 0 <= j < p implies r[j].id != staker.id by {
            assert(r[j].id != r[p].id);
        }
        lemma_position_of_id(r, staker.id, p);
        assert(apply_staker_update(r, staker) =~= r);
    } else {
        assert forall|j: int| 0 <= j < r.len() implies r[j].id != staker.id by {
            law_update_staker_effect(s, staker, r[j]);
            assert(r.contains(r[j]));
        }
        lemma_position_of_id(r, staker.id, r.len() as int);
        assert(apply_staker_update(r, staker) == r);
    }
}

} // verus!
