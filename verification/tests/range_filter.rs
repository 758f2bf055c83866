use zizq::{RangeFilter, Timestamp};

fn encode_u16(r: RangeFilter<u16>) -> String {
    r.encode(|v| v.to_string())
}

#[test]
fn from_single_value() {
    assert_eq!(encode_u16(RangeFilter::from(50u16)), "50");
}

#[test]
fn from_inclusive_range() {
    assert_eq!(encode_u16(RangeFilter::from(0u16..=100)), "0..100");
}

#[test]
fn from_range_from() {
    assert_eq!(encode_u16(RangeFilter::from(50u16..)), "50..");
}

#[test]
fn from_range_to_inclusive() {
    assert_eq!(encode_u16(RangeFilter::from(..=100u16)), "..100");
}

#[test]
fn from_range_full() {
    assert_eq!(encode_u16(RangeFilter::from(..)), "..");
}

#[test]
fn encode_with_custom_stringifier() {
    let r: RangeFilter<u64> = RangeFilter::from(1_500u64..=2_500);
    assert_eq!(r.encode(|v| (v * 2).to_string()), "3000..5000");
}

#[test]
fn single_values_of_every_kind_are_exact() {
    assert_eq!(RangeFilter::from(7u32), RangeFilter::Exact(7u32));
    assert_eq!(RangeFilter::from(7u64), RangeFilter::Exact(7u64));
    let t = Timestamp { nanos: 5 };
    assert_eq!(RangeFilter::from(t), RangeFilter::Exact(t));
}
