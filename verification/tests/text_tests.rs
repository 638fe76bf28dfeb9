use kronos::text::{
    avatar_url, bulleted_lines, icon_url, join_lines, parse_u64, role_mention, str_eq,
    u64_to_string, user_mention,
};

#[test]
fn decimal_rendering_is_exact() {
    assert_eq!(u64_to_string(0), "0");
    assert_eq!(u64_to_string(7), "7");
    assert_eq!(u64_to_string(10), "10");
    assert_eq!(u64_to_string(1234567890), "1234567890");
    assert_eq!(u64_to_string(u64::MAX), "18446744073709551615");
}

#[test]
fn parsing_accepts_what_a_u64_parse_accepts() {
    assert_eq!(parse_u64("0"), Some(0));
    assert_eq!(parse_u64("42"), Some(42));
    assert_eq!(parse_u64("+42"), Some(42));
    assert_eq!(parse_u64("007"), Some(7));
    assert_eq!(parse_u64("18446744073709551615"), Some(u64::MAX));
}

#[test]
fn parsing_rejects_what_a_u64_parse_rejects() {
    assert_eq!(parse_u64(""), None);
    assert_eq!(parse_u64("+"), None);
    assert_eq!(parse_u64("-1"), None);
    assert_eq!(parse_u64("12a"), None);
    assert_eq!(parse_u64("a12"), None);
    assert_eq!(parse_u64("1 2"), None);
    assert_eq!(parse_u64("18446744073709551616"), None);
    assert_eq!(parse_u64("99999999999999999999"), None);
}

#[test]
fn parsing_matches_the_standard_parse_on_samples() {
    for s in ["0", "+0", "17", "4294967296", "18446744073709551615", "18446744073709551616", "x", ""] {
        assert_eq!(parse_u64(s), s.parse::<u64>().ok(), "disagrees on {:?}", s);
    }
}

#[test]
fn rendering_then_parsing_is_the_identity() {
    for n in [0u64, 1, 9, 10, 99, 1000, u64::MAX] {
        assert_eq!(parse_u64(&u64_to_string(n)), Some(n));
    }
}

#[test]
fn string_equality_is_by_characters() {
    assert!(str_eq("about", "about"));
    assert!(!str_eq("about", "About"));
    assert!(!str_eq("about", "abou"));
    assert!(str_eq("", ""));
    assert!(str_eq("ü", "ü"));
}

#[test]
fn mentions_have_the_platform_shape() {
    assert_eq!(role_mention(42), "<@&42>");
    assert_eq!(user_mention(206815202375761920), "<@206815202375761920>");
}

#[test]
fn image_urls_have_the_cdn_shape() {
    assert_eq!(
        avatar_url(123, "abcdef"),
        "https://cdn.discordapp.com/avatars/123/abcdef.png"
    );
    assert_eq!(icon_url(7, "deadbeef"), "https://cdn.discordapp.com/icons/7/deadbeef.png");
}

#[test]
fn joining_puts_breaks_between_parts() {
    assert_eq!(join_lines(&vec![]), "");
    assert_eq!(join_lines(&vec!["a".to_string()]), "a");
    assert_eq!(join_lines(&vec!["a".to_string(), "b".to_string(), "c".to_string()]), "a\nb\nc");
}

#[test]
fn bulleted_lines_prefix_every_part() {
    let lines = vec!["one".to_string(), "two".to_string()];
    assert_eq!(
        bulleted_lines(&lines, ":small_blue_diamond: "),
        ":small_blue_diamond: one\n:small_blue_diamond: two"
    );
    assert_eq!(bulleted_lines(&vec![], ":x: "), "");
}
