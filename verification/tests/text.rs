use rft::text::{clean_name, is_whitespace, parse_u32, same_text};

#[test]
fn ports_parse_like_str_parse() {
    assert_eq!(parse_u32(&String::from("5001")), Some(5001));
    assert_eq!(parse_u32(&String::from("+12")), Some(12));
    assert_eq!(parse_u32(&String::from("007")), Some(7));
    assert_eq!(parse_u32(&String::from("4294967295")), Some(4294967295));
    assert_eq!(parse_u32(&String::from("4294967296")), None);
    assert_eq!(parse_u32(&String::from("99999999999999999999")), None);
    assert_eq!(parse_u32(&String::from("")), None);
    assert_eq!(parse_u32(&String::from("+")), None);
    assert_eq!(parse_u32(&String::from("-1")), None);
    assert_eq!(parse_u32(&String::from("12a")), None);
    assert_eq!(parse_u32(&String::from(" 1")), None);
    for s in ["0", "+0", "65535", "12x", "++1", "1+", "4294967295"] {
        assert_eq!(parse_u32(&String::from(s)), s.parse::<u32>().ok());
    }
}

#[test]
fn names_are_cleaned_of_whitespace_then_nuls() {
    let c: String = clean_name(&String::from("\t name.txt \u{3000}")).into_iter().collect();
    assert_eq!(c, "name.txt");
    let c: String = clean_name(&String::from("\0 x \0")).into_iter().collect();
    assert_eq!(c, " x ");
    let c: String = clean_name(&String::from(" \0x\0 ")).into_iter().collect();
    assert_eq!(c, "x");
}

#[test]
fn texts_compare_exactly() {
    assert!(same_text(&String::from("-s"), "-s"));
    assert!(!same_text(&String::from("-s "), "-s"));
    assert!(!same_text(&String::from("-t"), "-s"));
}

#[test]
fn whitespace_is_the_unicode_white_space_set() {
    for v in 0u32..0x11000 {
        if let Some(c) = char::from_u32(v) {
            assert_eq!(is_whitespace(c), c.is_whitespace(), "{:x}", v);
        }
    }
}
