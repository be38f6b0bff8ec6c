use os4_syscall::time::TimeVal;

#[test]
fn from_micros_splits_exactly() {
    let t = TimeVal::from_micros(1_500_000);
    assert_eq!(t.sec, 1);
    assert_eq!(t.usec, 500_000);
}

#[test]
fn from_micros_boundaries() {
    let t = TimeVal::from_micros(0);
    assert_eq!((t.sec, t.usec), (0, 0));
    let t = TimeVal::from_micros(999_999);
    assert_eq!((t.sec, t.usec), (0, 999_999));
    let t = TimeVal::from_micros(1_000_000);
    assert_eq!((t.sec, t.usec), (1, 0));
}

#[test]
fn total_micros_is_exact_formula() {
    let t = TimeVal { sec: 3, usec: 250 };
    assert_eq!(t.total_micros(), 3_000_250);
    let t = TimeVal { sec: 0, usec: 0 };
    assert_eq!(t.total_micros(), 0);
    // an unnormalized value converts by the same formula
    let t = TimeVal { sec: 1, usec: 2_500_000 };
    assert_eq!(t.total_micros(), 3_500_000);
}

#[test]
fn conversion_round_trip() {
    for us in [0usize, 1, 999_999, 1_000_000, 1_500_000, 987_654_321] {
        assert_eq!(TimeVal::from_micros(us).total_micros(), us);
    }
}
