use running_summary::stats::SummaryStatistics;

#[test]
fn identity_reports_empty() {
    let s = SummaryStatistics::identity();
    assert_eq!(f64::from_bits(s.average()), 0.0);
    let snap = s.snapshot();
    assert_eq!(snap.count, 0);
    assert_eq!(snap.min, None);
    assert_eq!(snap.max, None);
    assert_eq!(f64::from_bits(snap.sum), 0.0);
}

#[test]
fn default_is_identity() {
    assert_eq!(SummaryStatistics::default(), SummaryStatistics::identity());
}

#[test]
fn single_accept() {
    let mut s = SummaryStatistics::identity();
    let c = s.accept((5.0f64).to_bits());
    assert_eq!(c, 1);
    assert_eq!(s.count, 1);
    assert_eq!(f64::from_bits(s.min), 5.0);
    assert_eq!(f64::from_bits(s.max), 5.0);
    assert_eq!(f64::from_bits(s.sum), 5.0);
    assert_eq!(f64::from_bits(s.average()), 5.0);
}

#[test]
fn accumulation_matches_direct_computation() {
    let vals = [3.5f64, -2.0, 7.25, 0.5];
    let mut s = SummaryStatistics::identity();
    for v in vals {
        s.accept(v.to_bits());
    }
    assert_eq!(s.count, 4);
    assert_eq!(f64::from_bits(s.min), -2.0);
    assert_eq!(f64::from_bits(s.max), 7.25);
    assert_eq!(f64::from_bits(s.sum), 9.25);
    assert_eq!(f64::from_bits(s.average()), 9.25 / 4.0);
}

#[test]
fn merge_equals_direct_accumulation() {
    let mut a = SummaryStatistics::identity();
    for v in [1.0f64, 2.0, 3.0] {
        a.accept(v.to_bits());
    }
    let mut b = SummaryStatistics::identity();
    for v in [4.0f64, 5.0] {
        b.accept(v.to_bits());
    }
    let mut t = SummaryStatistics::identity();
    t.merge(&a);
    t.merge(&b);
    assert_eq!(t.count, 5);
    assert_eq!(f64::from_bits(t.min), 1.0);
    assert_eq!(f64::from_bits(t.max), 5.0);
    assert_eq!(f64::from_bits(t.sum), 15.0);
    assert_eq!(f64::from_bits(t.average()), 3.0);

    let mut u = SummaryStatistics::identity();
    u.merge(&b);
    u.merge(&a);
    assert_eq!(u, t);
}

#[test]
fn merge_with_identity_is_noop() {
    let mut a = SummaryStatistics::identity();
    for v in [2.5f64, -1.25] {
        a.accept(v.to_bits());
    }
    let before = a;
    a.merge(&SummaryStatistics::identity());
    assert_eq!(a, before);

    let mut id = SummaryStatistics::identity();
    id.merge(&SummaryStatistics::identity());
    assert_eq!(id, SummaryStatistics::identity());
}

#[test]
fn merge_sources_stay_unchanged() {
    let mut a = SummaryStatistics::identity();
    a.accept((1.5f64).to_bits());
    let a_before = a;
    let mut t = SummaryStatistics::identity();
    t.merge(&a);
    assert_eq!(a, a_before);
}
