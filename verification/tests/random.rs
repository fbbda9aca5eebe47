use apas_75::random::{fake_from_millis, get_fake};

#[test]
fn fake_from_millis_exact_values() {
    assert_eq!(fake_from_millis(0, 10, 0), 0);
    assert_eq!(fake_from_millis(0, 10, 999), 9);
    assert_eq!(fake_from_millis(10, 20, 123), 13);
    assert_eq!(fake_from_millis(5, 6, 777), 5);
    assert_eq!(fake_from_millis(0, 3, 4), 1);
    assert_eq!(fake_from_millis(7, 2000, 999), 1006);
    assert_eq!(fake_from_millis(u32::MAX - 1, u32::MAX, 500), u32::MAX - 1);
    assert_eq!(fake_from_millis(0, u32::MAX, 500), 500);
}

#[test]
fn get_fake_stays_in_its_range() {
    for _ in 0..200 {
        let n = get_fake(3, 8).unwrap();
        assert!(3 <= n && n < 8);
    }
    assert_eq!(get_fake(5, 6), Some(5));
    assert_eq!(get_fake(0, 1), Some(0));
    // The milliseconds of a second never reach a thousand.
    let n = get_fake(0, u32::MAX).unwrap();
    assert!(n < 1000);
}
