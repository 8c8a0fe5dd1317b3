use minigun::elapsed::Elapsed;

#[test]
fn new_carries_nanoseconds() {
    let e = Elapsed::new(1, 2_500_000_000);
    assert_eq!(e.as_secs(), 3);
    assert_eq!(e.subsec_nanos(), 500_000_000);
}

#[test]
fn add_carries_into_seconds() {
    let a = Elapsed::new(1, 700_000_000);
    let b = Elapsed::new(2, 400_000_000);
    let c = a.add(&b);
    assert_eq!(c.as_secs(), 4);
    assert_eq!(c.subsec_nanos(), 100_000_000);
    let d = Elapsed::zero().add(&a);
    assert_eq!((d.as_secs(), d.subsec_nanos()), (1, 700_000_000));
}

#[test]
fn div_is_the_floor_of_the_nanoseconds() {
    let e = Elapsed::new(7, 1);
    let q = e.div(2);
    // 7_000_000_001 / 2 = 3_500_000_000
    assert_eq!(q.as_secs(), 3);
    assert_eq!(q.subsec_nanos(), 500_000_000);
    let big = Elapsed::new(u64::MAX, 999_999_999);
    let r = big.div(u32::MAX);
    let total: u128 = (u64::MAX as u128) * 1_000_000_000 + 999_999_999;
    let expect = total / (u32::MAX as u128);
    assert_eq!(r.as_secs() as u128, expect / 1_000_000_000);
    assert_eq!(r.subsec_nanos() as u128, expect % 1_000_000_000);
    let one = Elapsed::new(5, 5).div(1);
    assert_eq!((one.as_secs(), one.subsec_nanos()), (5, 5));
}
