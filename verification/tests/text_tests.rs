use ona_diagnostic::text::{join, pad_to, parse_i32, parse_u16, parse_u32, push_decimal, push_signed_decimal, same_text};

#[test]
fn decimal_notation() {
    let mut s = String::from("n=");
    push_decimal(&mut s, 0);
    assert_eq!(s, "n=0");
    let mut s = String::new();
    push_decimal(&mut s, u64::MAX);
    assert_eq!(s, u64::MAX.to_string());
    let mut s = String::new();
    push_signed_decimal(&mut s, i64::MIN);
    assert_eq!(s, i64::MIN.to_string());
    let mut s = String::new();
    push_signed_decimal(&mut s, -42);
    assert_eq!(s, "-42");
}

#[test]
fn parsing_ports_like_std() {
    for text in ["0", "47191", "65535", "65536", "", "+", "-", "+5", "-0", "0065535", " 1", "1 ", "1_0", "٣"] {
        assert_eq!(parse_u16(text), text.parse::<u16>().ok(), "input {:?}", text);
        assert_eq!(parse_u32(text), text.parse::<u32>().ok(), "input {:?}", text);
        assert_eq!(parse_i32(text), text.parse::<i32>().ok(), "input {:?}", text);
    }
    for text in ["-2147483648", "-2147483649", "2147483647", "2147483648", "4294967295", "4294967296", "99999999999999999999", "-+1"] {
        assert_eq!(parse_u32(text), text.parse::<u32>().ok(), "input {:?}", text);
        assert_eq!(parse_i32(text), text.parse::<i32>().ok(), "input {:?}", text);
    }
}

#[test]
fn decimal_roundtrip() {
    for n in [0u16, 9, 10, 47191, 65535] {
        let mut s = String::new();
        push_decimal(&mut s, n as u64);
        assert_eq!(parse_u16(&s), Some(n));
        assert_eq!(parse_i32(&s), Some(n as i32));
    }
}

#[test]
fn joining_and_padding() {
    assert_eq!(join(&vec![], "; "), "");
    assert_eq!(join(&vec!["a".to_string()], "; "), "a");
    assert_eq!(join(&vec!["a".to_string(), "b".to_string(), "c".to_string()], "; "), "a; b; c");
    let mut s = String::from("Display Data");
    pad_to(&mut s, 24, ".");
    assert_eq!(s, format!("{:.<24}", "Display Data"));
    let mut s = String::from("A label longer than twenty-four");
    pad_to(&mut s, 24, ".");
    assert_eq!(s, "A label longer than twenty-four");
    let mut s = String::from("SELECT");
    pad_to(&mut s, 6, " ");
    assert_eq!(s, format!("{:<6}", "SELECT"));
    assert!(same_text("abc", "abc"));
    assert!(!same_text("abc", "abd"));
}
