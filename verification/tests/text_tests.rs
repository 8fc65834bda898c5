use vibebar::text::{contains, find_char, parse_i32, push_int, push_int_2, push_padded, str_eq};

#[test]
fn parse_i32_accepts_what_std_accepts() {
    for s in ["0", "42", "-7", "+5", "007", "-0", "2147483647", "-2147483648"] {
        assert_eq!(parse_i32(s), s.parse::<i32>().ok(), "{}", s);
    }
}

#[test]
fn parse_i32_rejects_what_std_rejects() {
    for s in ["", "+", "-", "abc", "12a", " 1", "1 ", "2147483648", "-2147483649", "--1", "+-1", "１"] {
        assert_eq!(parse_i32(s), None, "{}", s);
        assert!(s.parse::<i32>().is_err());
    }
}

#[test]
fn parse_i32_long_digit_runs() {
    assert_eq!(parse_i32("0000000000000000000042"), Some(42));
    assert_eq!(parse_i32("99999999999999999999999"), None);
    assert_eq!(parse_i32("99999999999999999999999x"), None);
}

#[test]
fn decimal_matches_display() {
    for n in [0i64, 7, 10, 99, 100, -1, -10, 1234567, i32::MIN as i64, i32::MAX as i64] {
        let mut s = String::from(">");
        push_int(&mut s, n);
        assert_eq!(s, format!(">{}", n));
    }
}

#[test]
fn two_digit_matches_format() {
    for n in [0i64, 5, 9, 10, 23, 123, -1, -5, -12] {
        let mut s = String::new();
        push_int_2(&mut s, n);
        assert_eq!(s, format!("{:02}", n));
    }
}

#[test]
fn right_align_matches_format() {
    for t in ["", "7", "12", "-3", "123", "1234", "ñ"] {
        let mut s = String::new();
        push_padded(&mut s, t, 3);
        assert_eq!(s, format!("{:>3}", t));
    }
}

#[test]
fn search_helpers() {
    assert!(contains("inet 192.168.10.4/24", "192.168.10"));
    assert!(!contains("inet 192.168.1.4/24", "192.168.10"));
    assert!(contains("abc", ""));
    assert!(!contains("ab", "abc"));
    assert_eq!(find_char("a(b)c", '('), Some(1));
    assert_eq!(find_char("a(b)c", ')'), Some(3));
    assert_eq!(find_char("abc", ')'), None);
    assert_eq!(find_char("é(", '('), Some(1));
    assert!(str_eq("eDP-1", "eDP-1"));
    assert!(!str_eq("eDP-1", "eDP-2"));
}

#[test]
fn printed_numbers_parse_back() {
    for n in [0i32, 1, -1, 42, -100, i32::MIN, i32::MAX, 2024] {
        let mut s = String::new();
        push_int(&mut s, n as i64);
        assert_eq!(parse_i32(&s), Some(n));
    }
}
