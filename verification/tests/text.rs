use parish_core::text::parse_u32_or_zero;
use parish_core::text::split_char;
use parish_core::text::starts_with;
use parish_core::text::str_eq;
use parish_core::text::u64_to_string;

#[test]
fn string_equality_is_exact() {
    assert!(str_eq("", ""));
    assert!(str_eq("abc", "abc"));
    assert!(!str_eq("abc", "abd"));
    assert!(!str_eq("abc", "ab"));
    assert!(str_eq("naïve", "naïve"));
}

#[test]
fn prefix_test_is_exact() {
    assert!(starts_with("Bearer abc", "Bearer "));
    assert!(!starts_with("bearer abc", "Bearer "));
    assert!(!starts_with("Bear", "Bearer "));
    assert!(starts_with("anything", ""));
}

#[test]
fn splitting_matches_the_standard_split() {
    let cases = [
        "pbkdf2_sha256$1000$salt$digest",
        "",
        "$",
        "a$$b",
        "$leading",
        "trailing$",
        "none",
    ];
    for s in cases {
        let ours: Vec<String> = split_char(s, '$');
        let std_split: Vec<String> = s.split('$').map(|p| p.to_string()).collect();
        assert_eq!(ours, std_split, "split of {:?}", s);
    }
}

#[test]
fn number_parsing_matches_the_standard_parse() {
    let cases = ["0", "1000", "+42", "4294967295", "4294967296", "", "-1", "12a", "a12", "++1"];
    for s in cases {
        assert_eq!(
            parse_u32_or_zero(s),
            s.parse::<u32>().unwrap_or(0),
            "parse of {:?}",
            s
        );
    }
}

#[test]
fn numbers_render_in_decimal() {
    assert_eq!(u64_to_string(0), "0");
    assert_eq!(u64_to_string(7), "7");
    assert_eq!(u64_to_string(1234), "1234");
    assert_eq!(u64_to_string(u64::MAX), "18446744073709551615");
}
