use running_summary::errors::StatsError;
use running_summary::stats::SummaryStatistics;

#[test]
fn round_trip_identity() {
    let s = SummaryStatistics::identity();
    let blob = s.encode();
    assert_eq!(blob.len(), 36);
    assert_eq!(&blob[0..4], &[0x4E, 0x53, 0x53, 0x31]);
    assert_eq!(SummaryStatistics::decode(&blob), Ok(s));
}

#[test]
fn round_trip_after_accepts() {
    let mut s = SummaryStatistics::identity();
    for v in [10.0f64, -3.75, 0.125] {
        s.accept(v.to_bits());
    }
    let blob = s.encode();
    assert_eq!(SummaryStatistics::decode(&blob), Ok(s));
}

#[test]
fn round_trip_after_merge() {
    let mut a = SummaryStatistics::identity();
    a.accept((42.0f64).to_bits());
    let mut t = SummaryStatistics::identity();
    t.merge(&a);
    let blob = t.encode();
    assert_eq!(SummaryStatistics::decode(&blob), Ok(t));
}

#[test]
fn decode_rejects_wrong_length() {
    assert_eq!(
        SummaryStatistics::decode(&Vec::new()),
        Err(StatsError::CorruptPersistedValue)
    );
    let mut blob = SummaryStatistics::identity().encode();
    blob.push(0);
    assert_eq!(
        SummaryStatistics::decode(&blob),
        Err(StatsError::CorruptPersistedValue)
    );
}

#[test]
fn decode_rejects_wrong_tag() {
    let mut blob = SummaryStatistics::identity().encode();
    blob[0] = 0x58;
    assert_eq!(
        SummaryStatistics::decode(&blob),
        Err(StatsError::CorruptPersistedValue)
    );
}

#[test]
fn decode_rejects_ill_formed_fields() {
    let mut s = SummaryStatistics::identity();
    s.accept((1.0f64).to_bits());
    let mut blob = s.encode();
    // Zero the count field: a non-empty summary with count zero is not
    // a state the accumulator can reach.
    for b in blob.iter_mut().take(12).skip(4) {
        *b = 0;
    }
    assert_eq!(
        SummaryStatistics::decode(&blob),
        Err(StatsError::CorruptPersistedValue)
    );
}

#[test]
fn decode_rejects_negative_count_word() {
    let mut blob = SummaryStatistics::identity().encode();
    // A count word above the signed maximum does not hold a count.
    for b in blob.iter_mut().take(12).skip(4) {
        *b = 0xFF;
    }
    assert_eq!(
        SummaryStatistics::decode(&blob),
        Err(StatsError::CorruptPersistedValue)
    );
}
