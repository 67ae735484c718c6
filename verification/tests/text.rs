use kunger_lib::text::{decimal_string, join_strings, pad_right_in_place};

#[test]
fn decimal_matches_to_string() {
    for n in [0u64, 7, 10, 99, 100, 4096, 123456789, u64::MAX] {
        assert_eq!(decimal_string(n), n.to_string());
    }
}

#[test]
fn join_puts_the_separator_between_neighbours() {
    let parts = vec!["a".to_string(), "b".to_string(), "c".to_string()];
    assert_eq!(join_strings(&parts, ", "), "a, b, c");
    assert_eq!(join_strings(&vec![], ", "), "");
    assert_eq!(join_strings(&vec!["x".to_string()], "|"), "x");
}

#[test]
fn padding_counts_characters() {
    let mut s = "é↑".to_string();
    pad_right_in_place(&mut s, 5);
    assert_eq!(s, format!("{:<5}", "é↑"));
    let mut long = "abcdef".to_string();
    pad_right_in_place(&mut long, 3);
    assert_eq!(long, "abcdef");
}
