use heisenberg::text::{comma_separated, decimal_string, signed_decimal_string};

#[test]
fn decimal_of_naturals() {
    assert_eq!(decimal_string(0), "0");
    assert_eq!(decimal_string(7), "7");
    assert_eq!(decimal_string(10), "10");
    assert_eq!(decimal_string(70_061), "70061");
    assert_eq!(decimal_string(u64::MAX), "18446744073709551615");
}

#[test]
fn decimal_of_integers() {
    assert_eq!(signed_decimal_string(0), "0");
    assert_eq!(signed_decimal_string(42), "42");
    assert_eq!(signed_decimal_string(-1), "-1");
    assert_eq!(signed_decimal_string(i64::MAX), "9223372036854775807");
    assert_eq!(signed_decimal_string(i64::MIN), "-9223372036854775808");
}

#[test]
fn decimal_agrees_with_the_standard_formatting() {
    for n in [0u64, 1, 9, 10, 11, 99, 100, 101, 12_345, 4_294_967_295] {
        assert_eq!(decimal_string(n), n.to_string());
    }
    for n in [-1_000_000i64, -10, -9, 0, 9, 10, 1_000_000] {
        assert_eq!(signed_decimal_string(n), n.to_string());
    }
}

#[test]
fn comma_lists() {
    assert_eq!(comma_separated(&vec![]), "");
    assert_eq!(comma_separated(&vec![5]), "5");
    assert_eq!(comma_separated(&vec![2, 5]), "2,5");
    assert_eq!(comma_separated(&vec![-3, 0, 12]), "-3,0,12");
}
