use udp_cluster::text::{decimal_text, signed_decimal_text};

#[test]
fn decimal_matches_display() {
    for n in [0u128, 7, 10, 99, 100, 12345, u64::MAX as u128, u128::MAX] {
        assert_eq!(decimal_text(n), n.to_string());
    }
}

#[test]
fn signed_decimal_matches_display() {
    for i in [0i64, -1, 9, -10, 4321, i64::MAX, i64::MIN] {
        assert_eq!(signed_decimal_text(i), i.to_string());
    }
}
