use zebra_crosslink::tfl::{roster, sort_stakers_by_stake, update_staker, TFLStaker};

fn st(id: u64, stake: u64) -> TFLStaker {
    TFLStaker { id, stake }
}

#[test]
fn update_inserts_and_sorts_by_stake_descending() {
    let mut stakers = Vec::new();
    update_staker(&mut stakers, st(1, 10));
    update_staker(&mut stakers, st(2, 30));
    update_staker(&mut stakers, st(3, 20));
    assert_eq!(stakers, vec![st(2, 30), st(3, 20), st(1, 10)]);
}

#[test]
fn update_replaces_existing_stake() {
    let mut stakers = vec![st(2, 30), st(3, 20), st(1, 10)];
    update_staker(&mut stakers, st(1, 50));
    assert_eq!(stakers, vec![st(1, 50), st(2, 30), st(3, 20)]);
}

#[test]
fn update_with_zero_stake_removes() {
    let mut stakers = vec![st(2, 30), st(3, 20), st(1, 10)];
    update_staker(&mut stakers, st(3, 0));
    assert_eq!(stakers, vec![st(2, 30), st(1, 10)]);
}

#[test]
fn new_staker_without_stake_is_ignored() {
    let mut stakers = vec![st(2, 30)];
    update_staker(&mut stakers, st(9, 0));
    assert_eq!(stakers, vec![st(2, 30)]);
}

#[test]
fn equal_stakes_keep_their_order() {
    let v = vec![st(1, 5), st(2, 7), st(3, 5), st(4, 7), st(5, 1)];
    assert_eq!(
        sort_stakers_by_stake(&v),
        vec![st(2, 7), st(4, 7), st(1, 5), st(3, 5), st(5, 1)]
    );
}

#[test]
fn roster_is_first_three() {
    let stakers = vec![st(1, 50), st(2, 30), st(3, 20), st(4, 10)];
    assert_eq!(roster(&stakers).finalizers, vec![st(1, 50), st(2, 30), st(3, 20)]);
    let two = vec![st(1, 50), st(2, 30)];
    assert_eq!(roster(&two).finalizers, two);
}

#[test]
fn updated_identity_present_once_with_new_stake() {
    let mut stakers = vec![st(1, 50), st(2, 30), st(3, 20)];
    update_staker(&mut stakers, st(2, 60));
    assert_eq!(stakers.iter().filter(|s| s.id == 2).count(), 1);
    assert_eq!(stakers[0], st(2, 60));
    assert!(stakers.windows(2).all(|w| w[0].stake >= w[1].stake));
}

#[test]
fn same_update_twice_is_same_as_once() {
    let start = vec![st(1, 50), st(2, 30), st(3, 20)];
    for upd in [st(2, 70), st(3, 0), st(9, 5), st(9, 0)] {
        let mut once = start.clone();
        update_staker(&mut once, upd);
        let mut twice = once.clone();
        update_staker(&mut twice, upd);
        assert_eq!(once, twice);
    }
}

#[test]
fn sorting_an_ordered_list_keeps_it() {
    let v = vec![st(4, 9), st(1, 9), st(2, 3)];
    assert_eq!(sort_stakers_by_stake(&v), v);
}
