use running_summary::commands::{ns_accept, ns_average, ns_create, ns_info, ns_merge, Reply};
use running_summary::errors::StatsError;
use running_summary::store::{Slot, Store};

fn key(name: &str) -> Vec<u8> {
    name.as_bytes().to_vec()
}

#[test]
fn create_accept_average_info_scenario() {
    let mut st = Store::new();
    let k = key("k");
    assert_eq!(ns_create(&mut st, &k), Reply::Integer(1));
    assert_eq!(ns_accept(&mut st, &k, "10"), Ok(Reply::Integer(1)));
    assert_eq!(ns_accept(&mut st, &k, "20"), Ok(Reply::Integer(1)));
    match ns_average(&st, &k) {
        Ok(Reply::Float(bits)) => assert_eq!(f64::from_bits(bits), 15.0),
        other => panic!("unexpected average reply: {other:?}"),
    }
    match ns_info(&st, &k) {
        Reply::Info(snap) => {
            assert_eq!(snap.count, 2);
            assert_eq!(snap.min.map(f64::from_bits), Some(10.0));
            assert_eq!(snap.max.map(f64::from_bits), Some(20.0));
            assert_eq!(f64::from_bits(snap.sum), 30.0);
        }
        other => panic!("unexpected info reply: {other:?}"),
    }
}

#[test]
fn info_and_average_on_missing_key() {
    let st = Store::new();
    assert_eq!(ns_info(&st, &key("nope")), Reply::Null);
    let mut st = st;
    assert_eq!(ns_average(&st, &key("nope")), Ok(Reply::Null));
    assert_eq!(
        ns_accept(&mut st, &key("nope"), "1.5"),
        Ok(Reply::Integer(0))
    );
}

#[test]
fn accept_rejects_unparseable_and_nonfinite_text() {
    let mut st = Store::new();
    let k = key("k");
    ns_create(&mut st, &k);
    assert_eq!(
        ns_accept(&mut st, &k, "abc"),
        Err(StatsError::InvalidArgument)
    );
    assert_eq!(ns_accept(&mut st, &k, ""), Err(StatsError::InvalidArgument));
    assert_eq!(
        ns_accept(&mut st, &k, "inf"),
        Err(StatsError::InvalidArgument)
    );
    assert_eq!(
        ns_accept(&mut st, &k, "nan"),
        Err(StatsError::InvalidArgument)
    );
    match ns_info(&st, &k) {
        Reply::Info(snap) => assert_eq!(snap.count, 0),
        other => panic!("unexpected info reply: {other:?}"),
    }
}

#[test]
fn accept_parses_exponents() {
    let mut st = Store::new();
    let k = key("k");
    ns_create(&mut st, &k);
    assert_eq!(ns_accept(&mut st, &k, "1e2"), Ok(Reply::Integer(1)));
    match ns_info(&st, &k) {
        Reply::Info(snap) => assert_eq!(snap.min.map(f64::from_bits), Some(100.0)),
        other => panic!("unexpected info reply: {other:?}"),
    }
}

#[test]
fn create_resets_existing_summary() {
    let mut st = Store::new();
    let k = key("k");
    ns_create(&mut st, &k);
    ns_accept(&mut st, &k, "3").unwrap();
    assert_eq!(ns_create(&mut st, &k), Reply::Integer(1));
    match ns_info(&st, &k) {
        Reply::Info(snap) => assert_eq!(snap.count, 0),
        other => panic!("unexpected info reply: {other:?}"),
    }
}

#[test]
fn foreign_type_is_isolated() {
    let mut st = Store::new();
    let k = key("f");
    st.set_slot(&k, Slot::Foreign);
    assert_eq!(ns_info(&st, &k), Reply::Null);
    assert_eq!(
        ns_accept(&mut st, &k, "1.0"),
        Err(StatsError::TypeMismatch)
    );
    assert_eq!(ns_average(&st, &k), Err(StatsError::TypeMismatch));
    let t = key("t");
    assert_eq!(
        ns_merge(&mut st, &t, &vec![k.clone()]),
        Err(StatsError::TypeMismatch)
    );
    assert_eq!(ns_info(&st, &t), Reply::Null);
}

#[test]
fn merge_skips_missing_sources() {
    let mut st = Store::new();
    let exists = key("exists");
    let missing = key("missing");
    let target = key("target");
    ns_create(&mut st, &exists);
    ns_accept(&mut st, &exists, "2.0").unwrap();
    let r = ns_merge(&mut st, &target, &vec![exists.clone(), missing.clone()]);
    assert_eq!(r, Ok(Reply::Integer(2)));

    let mut st2 = Store::new();
    ns_create(&mut st2, &exists);
    ns_accept(&mut st2, &exists, "2.0").unwrap();
    let r2 = ns_merge(&mut st2, &target, &vec![exists.clone()]);
    assert_eq!(r2, Ok(Reply::Integer(1)));
    assert_eq!(ns_info(&st, &target), ns_info(&st2, &target));
}

#[test]
fn merge_combines_two_summaries() {
    let mut st = Store::new();
    let a = key("a");
    let b = key("b");
    let t = key("t");
    ns_create(&mut st, &a);
    ns_create(&mut st, &b);
    for v in ["1", "2", "3"] {
        ns_accept(&mut st, &a, v).unwrap();
    }
    for v in ["4", "5"] {
        ns_accept(&mut st, &b, v).unwrap();
    }
    assert_eq!(
        ns_merge(&mut st, &t, &vec![a.clone(), b.clone()]),
        Ok(Reply::Integer(2))
    );
    match ns_info(&st, &t) {
        Reply::Info(snap) => {
            assert_eq!(snap.count, 5);
            assert_eq!(snap.min.map(f64::from_bits), Some(1.0));
            assert_eq!(snap.max.map(f64::from_bits), Some(5.0));
            assert_eq!(f64::from_bits(snap.sum), 15.0);
        }
        other => panic!("unexpected info reply: {other:?}"),
    }
    match ns_average(&st, &t) {
        Ok(Reply::Float(bits)) => assert_eq!(f64::from_bits(bits), 3.0),
        other => panic!("unexpected average reply: {other:?}"),
    }
    // The sources were read only.
    match ns_info(&st, &a) {
        Reply::Info(snap) => assert_eq!(snap.count, 3),
        other => panic!("unexpected info reply: {other:?}"),
    }
}

#[test]
fn merge_of_no_present_sources_stores_identity() {
    let mut st = Store::new();
    let t = key("t");
    assert_eq!(
        ns_merge(&mut st, &t, &vec![key("gone")]),
        Ok(Reply::Integer(1))
    );
    match ns_info(&st, &t) {
        Reply::Info(snap) => {
            assert_eq!(snap.count, 0);
            assert_eq!(snap.min, None);
            assert_eq!(snap.max, None);
        }
        other => panic!("unexpected info reply: {other:?}"),
    }
}

#[test]
fn self_merge_reads_target_before_overwriting() {
    let mut st = Store::new();
    let k = key("k");
    ns_create(&mut st, &k);
    ns_accept(&mut st, &k, "5").unwrap();
    assert_eq!(
        ns_merge(&mut st, &k, &vec![k.clone(), k.clone()]),
        Ok(Reply::Integer(2))
    );
    match ns_info(&st, &k) {
        Reply::Info(snap) => {
            assert_eq!(snap.count, 2);
            assert_eq!(f64::from_bits(snap.sum), 10.0);
        }
        other => panic!("unexpected info reply: {other:?}"),
    }
}
