use promise::{Poll, Promise};

#[test]
fn resolve_is_settled_at_once() {
    let p: Promise<u32, String> = Promise::resolve(7);
    assert_eq!(p.wait(), Some(Ok(7)));
}

#[test]
fn reject_is_settled_at_once() {
    let p: Promise<u32, String> = Promise::reject(String::from("x"));
    assert_eq!(p.wait(), Some(Err(String::from("x"))));
}

#[test]
fn from_result_keeps_the_outcome() {
    let ok: Promise<u32, u32> = Promise::from_result(Ok(1));
    let err: Promise<u32, u32> = Promise::from_result(Err(2));
    assert_eq!(ok.wait(), Some(Ok(1)));
    assert_eq!(err.wait(), Some(Err(2)));
}

#[test]
fn poll_of_a_settled_handle_takes_the_outcome() {
    let p: Promise<u32, u32> = Promise::resolve(3);
    match p.poll() {
        Poll::Settled(o) => assert_eq!(o, Ok(3)),
        _ => panic!("a settled handle has its outcome"),
    }
}

#[test]
fn poll_of_an_unsettled_handle_is_pending() {
    let (tx, p) = Promise::<u32, u32>::pending();
    let p = match p.poll() {
        Poll::Pending(p) => p,
        _ => panic!("nothing was delivered and the resolver lives"),
    };
    tx.settle(Ok(9));
    match p.poll() {
        Poll::Settled(o) => assert_eq!(o, Ok(9)),
        _ => panic!("the outcome was sent"),
    }
}

#[test]
fn poll_of_an_abandoned_handle_is_dead() {
    let (tx, p) = Promise::<u32, u32>::pending();
    drop(tx);
    assert!(matches!(p.poll(), Poll::Dead));
}

#[test]
fn wait_on_an_abandoned_handle_reads_nothing() {
    let (tx, p) = Promise::<u32, u32>::pending();
    drop(tx);
    assert_eq!(p.wait(), None);
}

#[test]
fn settling_takes_the_resolver_and_the_outcome_stays() {
    let (tx, p) = Promise::<u32, u32>::pending();
    tx.settle(Err(4));
    assert_eq!(p.wait(), Some(Err(4)));
}
