use promise::internal;
use promise::Promise;

#[test]
fn chain_calls_the_callback_on_success() {
    let out: Option<Result<u32, String>> =
        internal::chain(Some(Ok::<u32, u32>(20)), |v| Ok(v + 1), |e| Err(e.to_string()));
    assert_eq!(out, Some(Ok(21)));
}

#[test]
fn chain_calls_the_errback_on_failure() {
    let out: Option<Result<u32, String>> =
        internal::chain(Some(Err::<u32, u32>(5)), |v| Ok(v + 1), |e| Err(e.to_string()));
    assert_eq!(out, Some(Err(String::from("5"))));
}

#[test]
fn chain_may_turn_a_failure_into_a_success() {
    let out: Option<Result<u32, String>> =
        internal::chain(Some(Err::<u32, u32>(5)), |v| Ok(v), |e| Ok(e * 2));
    assert_eq!(out, Some(Ok(10)));
}

#[test]
fn chain_on_a_dead_upstream_calls_neither() {
    let out: Option<Result<u32, u32>> = internal::chain(
        None::<Result<u32, u32>>,
        |_| panic!("callback called"),
        |_| panic!("errback called"),
    );
    assert_eq!(out, None);
}

#[test]
fn chain_result_hands_over_the_whole_outcome() {
    let flip = |r: Result<u32, u32>| match r {
        Ok(v) => Err::<String, String>(v.to_string()),
        Err(e) => Ok(e.to_string()),
    };
    assert_eq!(internal::chain_result(Some(Ok(1)), flip), Some(Err(String::from("1"))));
    assert_eq!(internal::chain_result(Some(Err(2)), flip), Some(Ok(String::from("2"))));
}

#[test]
fn chain_result_on_a_dead_upstream_calls_nothing() {
    let out: Option<Result<u32, u32>> =
        internal::chain_result(None::<Result<u32, u32>>, |_| panic!("callback called"));
    assert_eq!(out, None);
}

#[test]
fn new_delivers_the_outcome_of_the_producer() {
    let (tx, p) = Promise::<u32, u32>::pending();
    internal::new(tx, || Ok(11));
    assert_eq!(p.wait(), Some(Ok(11)));

    let (tx, p) = Promise::<u32, u32>::pending();
    internal::new(tx, || Err(12));
    assert_eq!(p.wait(), Some(Err(12)));
}

#[test]
fn new_does_not_mind_a_dropped_handle() {
    let (tx, p) = Promise::<u32, u32>::pending();
    drop(p);
    internal::new(tx, || Ok(1));
}

#[test]
fn then_delivers_what_the_callback_returns() {
    let (tx, p) = Promise::<u32, u32>::pending();
    internal::new(tx, || Ok(2));
    let (tx, q) = Promise::<String, u32>::pending();
    internal::then(tx, p, |v| Ok(format!("got {}", v)), |e| Err(e));
    assert_eq!(q.wait(), Some(Ok(String::from("got 2"))));
}

#[test]
fn then_delivers_what_the_errback_returns() {
    let (tx, q) = Promise::<u32, String>::pending();
    internal::then(tx, Promise::<u32, u32>::reject(8), |v| Ok(v), |e| Err(format!("failed {}", e)));
    assert_eq!(q.wait(), Some(Err(String::from("failed 8"))));
}

#[test]
fn then_on_a_dead_upstream_leaves_the_downstream_dead() {
    let (up, p) = Promise::<u32, u32>::pending();
    drop(up);
    let (tx, q) = Promise::<u32, u32>::pending();
    internal::then(tx, p, |_| panic!("callback called"), |_| panic!("errback called"));
    assert_eq!(q.wait(), None);
}

#[test]
fn then_result_delivers_what_the_callback_returns() {
    let (tx, q) = Promise::<u32, u32>::pending();
    internal::then_result(Promise::<u32, u32>::resolve(4), tx, |r| match r {
        Ok(v) => Err(v + 1),
        Err(e) => Ok(e),
    });
    assert_eq!(q.wait(), Some(Err(5)));
}

#[test]
fn then_result_on_a_dead_upstream_leaves_the_downstream_dead() {
    let (up, p) = Promise::<u32, u32>::pending();
    drop(up);
    let (tx, q) = Promise::<u32, u32>::pending();
    internal::then_result(p, tx, |_: Result<u32, u32>| -> Result<u32, u32> { panic!("callback called") });
    assert_eq!(q.wait(), None);
}

#[test]
fn deadness_runs_down_a_chain() {
    let (up, p) = Promise::<u32, u32>::pending();
    drop(up);
    let (tx, q) = Promise::<u32, u32>::pending();
    internal::then(tx, p, |v| Ok(v), |e| Err(e));
    let (tx, r) = Promise::<u32, u32>::pending();
    internal::then_result(q, tx, |o| o);
    let (tx, s) = Promise::<u32, u32>::pending();
    internal::then(tx, r, |v| Ok(v), |e| Err(e));
    assert_eq!(s.wait(), None);
}

#[test]
fn a_chain_settles_as_the_calls_made_by_hand() {
    let f = || Ok::<u32, u32>(6);
    let g = |v: u32| Ok::<u32, u32>(v * 7);
    let h = |e: u32| Err::<u32, u32>(e + 1);
    let (tx, p) = Promise::pending();
    internal::new(tx, f);
    let (tx, q) = Promise::pending();
    internal::then(tx, p, g, h);
    assert_eq!(q.wait(), Some(g(f().unwrap())));

    let f = || Err::<u32, u32>(6);
    let (tx, p) = Promise::pending();
    internal::new(tx, f);
    let (tx, q) = Promise::pending();
    internal::then(tx, p, g, h);
    assert_eq!(q.wait(), Some(h(f().unwrap_err())));
}
