use promise::race::{judge, sweep, Round};
use promise::{Poll, Promise};

#[test]
fn the_member_that_has_settled_beats_the_one_still_working() {
    let (slow, first) = Promise::<u32, u32>::pending();
    let round = sweep(vec![first, Promise::resolve(2)]);
    match round {
        Round::Won(o) => assert_eq!(o, Ok(2)),
        _ => panic!("the second member had settled"),
    }
    slow.settle(Ok(1));
}

#[test]
fn of_two_settled_members_the_first_in_order_wins() {
    let handles: Vec<Promise<u32, u32>> = vec![Promise::resolve(1), Promise::resolve(2)];
    match sweep(handles) {
        Round::Won(o) => assert_eq!(o, Ok(1)),
        _ => panic!("both members had settled"),
    }
}

#[test]
fn a_failure_wins_a_race_like_a_success() {
    let handles: Vec<Promise<u32, &str>> = vec![Promise::reject("x"), Promise::resolve(2)];
    match sweep(handles) {
        Round::Won(o) => assert_eq!(o, Err("x")),
        _ => panic!("both members had settled"),
    }
}

#[test]
fn a_race_of_dead_members_is_dead() {
    let mut handles = Vec::new();
    for _ in 0..3 {
        let (tx, p) = Promise::<u32, u32>::pending();
        drop(tx);
        handles.push(p);
    }
    assert!(matches!(sweep(handles), Round::Dead));
}

#[test]
fn a_race_without_members_is_dead() {
    assert!(matches!(sweep(Vec::<Promise<u32, u32>>::new()), Round::Dead));
}

#[test]
fn dead_members_leave_and_the_others_stay() {
    let (gone, a) = Promise::<u32, u32>::pending();
    let (tx_b, b) = Promise::<u32, u32>::pending();
    let (tx_c, c) = Promise::<u32, u32>::pending();
    drop(gone);
    let rest = match sweep(vec![a, b, c]) {
        Round::Waiting(rest) => rest,
        _ => panic!("two members are still working"),
    };
    assert_eq!(rest.len(), 2);
    tx_c.settle(Ok(3));
    match sweep(rest) {
        Round::Won(o) => assert_eq!(o, Ok(3)),
        _ => panic!("the last member had settled"),
    }
    drop(tx_b);
}

#[test]
fn the_survivors_keep_their_order() {
    let (tx_a, a) = Promise::<u32, u32>::pending();
    let (tx_b, b) = Promise::<u32, u32>::pending();
    let rest = match sweep(vec![a, b]) {
        Round::Waiting(rest) => rest,
        _ => panic!("nothing was sent"),
    };
    tx_b.settle(Ok(2));
    tx_a.settle(Ok(1));
    match sweep(rest) {
        Round::Won(o) => assert_eq!(o, Ok(1)),
        _ => panic!("both members had settled"),
    }
}

#[test]
fn a_race_whose_last_member_dies_is_dead() {
    let (tx, a) = Promise::<u32, u32>::pending();
    let rest = match sweep(vec![a]) {
        Round::Waiting(rest) => rest,
        _ => panic!("nothing was sent"),
    };
    drop(tx);
    assert!(matches!(sweep(rest), Round::Dead));
}

#[test]
fn judge_takes_the_first_outcome_among_the_findings() {
    let (tx, waiting) = Promise::<u32, u32>::pending();
    let polls = vec![Poll::Dead, Poll::Pending(waiting), Poll::Settled(Err(7)), Poll::Settled(Ok(8))];
    match judge(polls) {
        Round::Won(o) => assert_eq!(o, Err(7)),
        _ => panic!("two findings hold an outcome"),
    }
    drop(tx);
}

#[test]
fn judge_keeps_the_handles_found_pending_in_their_order() {
    let (tx_a, a) = Promise::<u32, u32>::pending();
    let (tx_b, b) = Promise::<u32, u32>::pending();
    let rest = match judge(vec![Poll::Pending(a), Poll::Dead, Poll::Pending(b)]) {
        Round::Waiting(rest) => rest,
        _ => panic!("two members were found pending"),
    };
    assert_eq!(rest.len(), 2);
    tx_a.settle(Ok(1));
    tx_b.settle(Ok(2));
    let mut read = Vec::new();
    for handle in rest {
        read.push(handle.wait());
    }
    assert_eq!(read, vec![Some(Ok(1)), Some(Ok(2))]);
}

#[test]
fn judge_finds_a_race_dead_where_no_finding_is_pending() {
    assert!(matches!(judge(vec![Poll::<u32, u32>::Dead, Poll::Dead]), Round::Dead));
    assert!(matches!(judge(Vec::<Poll<u32, u32>>::new()), Round::Dead));
}
