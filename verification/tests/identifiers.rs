use battle_core::data::{GridIdx, UidCounter, UID};

#[test]
fn distance_is_the_absolute_difference() {
    assert_eq!(GridIdx::dist(GridIdx(0), GridIdx(5)), 5);
    assert_eq!(GridIdx::dist(GridIdx(5), GridIdx(0)), 5);
    assert_eq!(GridIdx::dist(GridIdx(-3), GridIdx(4)), 7);
    assert_eq!(GridIdx::dist(GridIdx(4), GridIdx(-3)), 7);
    assert_eq!(GridIdx::dist(GridIdx(-9), GridIdx(-2)), 7);
}

#[test]
fn distance_to_itself_is_zero() {
    assert_eq!(GridIdx::dist(GridIdx(17), GridIdx(17)), 0);
    assert_eq!(GridIdx::dist(GridIdx(i64::MIN), GridIdx(i64::MIN)), 0);
}

#[test]
fn distance_between_the_ends_of_the_line() {
    assert_eq!(GridIdx::dist(GridIdx(i64::MIN), GridIdx(i64::MAX)), u64::MAX);
    assert_eq!(GridIdx::dist(GridIdx(i64::MAX), GridIdx(i64::MIN)), u64::MAX);
    assert_eq!(GridIdx::dist(GridIdx(i64::MIN), GridIdx(0)), 1u64 << 63);
    assert_eq!(GridIdx::dist(GridIdx(0), GridIdx(i64::MAX)), (1u64 << 63) - 1);
}

#[test]
fn identifiers_start_at_one_and_increase() {
    let mut counter = UidCounter::new();
    assert_eq!(counter.issued_count(), 0);
    let a = UID::new(&mut counter);
    let b = UID::new(&mut counter);
    let c = UID::new(&mut counter);
    assert_eq!(a.get(), 1);
    assert_eq!(b.get(), 2);
    assert_eq!(c.get(), 3);
    assert_eq!(counter.issued_count(), 3);
}

#[test]
fn identifiers_never_repeat() {
    let mut counter = UidCounter::new();
    let mut seen: Vec<u32> = Vec::new();
    for _ in 0..1000 {
        let uid = UID::new(&mut counter);
        assert!(!seen.contains(&uid.get()));
        assert_ne!(uid, UID::null());
        seen.push(uid.get());
    }
}

#[test]
fn null_identifier_is_zero() {
    assert_eq!(UID::null().get(), 0);
    assert_eq!(UID::null(), UID::from(0));
    assert_eq!(UID::default(), UID::null());
}

#[test]
fn from_and_get_round_trip() {
    assert_eq!(UID::from(42).get(), 42);
    assert_eq!(UID::from(u32::MAX).get(), u32::MAX);
    assert_eq!(UID::from(7), UID::from(7));
    assert_ne!(UID::from(7), UID::from(8));
}

#[test]
fn resumed_counter_goes_on_where_it_stood() {
    let mut counter = UidCounter::resume(41);
    assert_eq!(counter.issued_count(), 41);
    assert_eq!(UID::new(&mut counter).get(), 42);
    assert_eq!(UID::new(&mut counter).get(), 43);
}

#[test]
fn last_identifier_then_exhausted() {
    let mut counter = UidCounter::resume(u32::MAX - 1);
    let last = UID::new(&mut counter);
    assert_eq!(last.get(), u32::MAX);
    assert_eq!(counter.issued_count(), u32::MAX);
    let none = UID::new(&mut counter);
    assert_eq!(none, UID::null());
    assert_eq!(counter.issued_count(), u32::MAX);
    let still_none = UID::new(&mut counter);
    assert_eq!(still_none, UID::null());
}

#[test]
fn grid_indices_order_as_their_coordinates() {
    assert!(GridIdx(-1) < GridIdx(0));
    assert!(GridIdx(3) > GridIdx(2));
    assert_eq!(GridIdx::default(), GridIdx(0));
}

#[test]
fn counter_skips_forward_only() {
    let mut counter = UidCounter::new();
    counter.skip_to(5);
    assert_eq!(counter.issued_count(), 5);
    counter.skip_to(2);
    assert_eq!(counter.issued_count(), 5);
    assert_eq!(UID::new(&mut counter).get(), 6);
    counter.skip_to(u32::MAX);
    assert_eq!(UID::new(&mut counter), UID::null());
}
