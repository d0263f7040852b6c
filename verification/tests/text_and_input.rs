use workshop::input::{axis, Key, KeySet};
use workshop::text::{decimal_string, push_decimal};

#[test]
fn decimal_of_zero() {
    assert_eq!(decimal_string(0), "0");
}

#[test]
fn decimal_of_several_digits() {
    assert_eq!(decimal_string(7), "7");
    assert_eq!(decimal_string(10), "10");
    assert_eq!(decimal_string(9999), "9999");
    assert_eq!(decimal_string(1234567890), "1234567890");
}

#[test]
fn decimal_of_largest_u64() {
    assert_eq!(decimal_string(u64::MAX), u64::MAX.to_string());
}

#[test]
fn push_decimal_appends() {
    let mut s = String::from("n=");
    push_decimal(&mut s, 305);
    assert_eq!(s, "n=305");
}

#[test]
fn key_set_membership() {
    let keys = KeySet::new(vec![Key::Space, Key::KeyA]);
    assert!(keys.contains(Key::Space));
    assert!(keys.contains(Key::KeyA));
    assert!(!keys.contains(Key::KeyD));
    assert!(!KeySet::empty().contains(Key::Space));
}

#[test]
fn axis_cancels_out() {
    assert_eq!(axis(false, false), 0);
    assert_eq!(axis(true, false), -1);
    assert_eq!(axis(false, true), 1);
    assert_eq!(axis(true, true), 0);
}
