use libbyreads_rs::text::{
    i64_to_dec_string, join_with_space, parse_u32, remove_newlines, split_comma_list,
    str_starts_with, trim, u64_to_dec_string,
};

#[test]
fn trim_matches_std() {
    let cases = [
        "  hello  ",
        "\n\tworld\r\n",
        "",
        "   ",
        "no-trim",
        "\u{a0}nbsp padded\u{a0}",
        " interior  spaces stay ",
    ];
    for c in cases {
        assert_eq!(trim(c), c.trim());
    }
}

#[test]
fn remove_newlines_matches_std() {
    let cases = ["a\nb\nc", "\n\n", "plain", "ends with\n", "\nstarts with"];
    for c in cases {
        assert_eq!(remove_newlines(c), c.replace("\n", ""));
    }
}

#[test]
fn join_with_space_matches_std() {
    let parts = vec!["A".to_string(), "Darker".to_string(), "Shade".to_string()];
    assert_eq!(join_with_space(&parts), parts.join(" "));
    let empty: Vec<String> = Vec::new();
    assert_eq!(join_with_space(&empty), "");
    let with_blank = vec!["x".to_string(), "".to_string(), "y".to_string()];
    assert_eq!(join_with_space(&with_blank), "x  y");
}

#[test]
fn starts_with_matches_std() {
    assert!(str_starts_with("the martian", "the martian"));
    assert!(str_starts_with("a darker shade of magic (shades of magic, #1)", "a darker shade of magic"));
    assert!(!str_starts_with("short", "longer than it"));
    assert!(!str_starts_with("abc", "abd"));
    assert!(str_starts_with("anything", ""));
}

#[test]
fn parse_u32_matches_std() {
    let cases = ["17", "+17", "", "+", "0", "4294967295", "4294967296", "12a", "a12", " 1", "999999999999999999999"];
    for c in cases {
        assert_eq!(parse_u32(c), c.parse::<u32>().ok(), "case {:?}", c);
    }
}

#[test]
fn u64_rendering_matches_std() {
    for n in [0u64, 7, 10, 99, 100, 1234567890123, u64::MAX] {
        assert_eq!(u64_to_dec_string(n), n.to_string());
    }
}

#[test]
fn i64_rendering_matches_std() {
    for n in [0i64, 42, -1, -42, i64::MAX, i64::MIN] {
        assert_eq!(i64_to_dec_string(n), n.to_string());
    }
}

#[test]
fn split_comma_list_matches_std() {
    let cases = ["50,34550,315", "", "solo", ",", "a,,b", ",x,"];
    for c in cases {
        let expected: Vec<String> = c.split(',').map(|p| p.to_string()).collect();
        assert_eq!(split_comma_list(c), expected, "case {:?}", c);
    }
}
