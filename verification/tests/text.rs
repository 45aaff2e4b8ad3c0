use voice_roi::text::{
    chars_of, contains_chars, is_space_char, matches_at, trim_bounds, trim_str,
};

fn cs(s: &str) -> Vec<char> {
    s.chars().collect()
}

#[test]
fn chars_of_keeps_every_character() {
    assert_eq!(chars_of("héllo"), vec!['h', 'é', 'l', 'l', 'o']);
    assert_eq!(chars_of(""), Vec::<char>::new());
}

#[test]
fn matches_at_checks_one_place() {
    let hay = cs("abcabc");
    assert!(matches_at(&hay, &cs("abc"), 0));
    assert!(matches_at(&hay, &cs("abc"), 3));
    assert!(!matches_at(&hay, &cs("abc"), 1));
    assert!(matches_at(&hay, &cs(""), 6));
    assert!(!matches_at(&hay, &cs(""), 7));
    assert!(!matches_at(&hay, &cs("abc"), 4));
    assert!(!matches_at(&hay, &cs("abcabca"), 0));
    assert!(!matches_at(&hay, &cs("a"), usize::MAX));
}

#[test]
fn contains_chars_finds_substrings() {
    assert!(contains_chars(&cs("please start now"), &cs("start")));
    assert!(contains_chars(&cs("start"), &cs("start")));
    assert!(contains_chars(&cs("xxgo"), &cs("go")));
    assert!(!contains_chars(&cs("star"), &cs("start")));
    assert!(!contains_chars(&cs("s t a r t"), &cs("start")));
    assert!(!contains_chars(&cs(""), &cs("go")));
    assert!(contains_chars(&cs(""), &cs("")));
    assert!(contains_chars(&cs("abc"), &cs("")));
}

#[test]
fn contains_chars_agrees_with_std() {
    let hays = ["", "a", "ab", "aab", "abab", "go stop", "ststart"];
    let needles = ["", "a", "b", "ab", "ba", "start", "st", "p"];
    for h in hays {
        for n in needles {
            assert_eq!(contains_chars(&cs(h), &cs(n)), h.contains(n));
        }
    }
}

#[test]
fn white_space_is_what_std_says() {
    let mut n: u32 = 0;
    while n <= 0x3100 {
        if let Some(c) = char::from_u32(n) {
            assert_eq!(is_space_char(c), c.is_whitespace());
        }
        n += 1;
    }
    assert!(!is_space_char('\u{FEFF}'));
    assert!(!is_space_char('\u{10FFFF}'));
}

#[test]
fn trim_str_agrees_with_std() {
    let texts = [
        "",
        " ",
        "   \t\n",
        "start",
        "  start",
        "start  ",
        "\t please start now \r\n",
        "\u{3000}gö\u{00A0}",
        " a b ",
        "\u{2003}é\u{2003}",
    ];
    for t in texts {
        assert_eq!(trim_str(t), t.trim());
    }
}

#[test]
fn trim_bounds_mark_the_core() {
    assert_eq!(trim_bounds(&cs("  go ")), (2, 4));
    assert_eq!(trim_bounds(&cs("go")), (0, 2));
    assert_eq!(trim_bounds(&cs("")), (0, 0));
    assert_eq!(trim_bounds(&cs("   ")), (3, 3));
    assert_eq!(trim_bounds(&cs(" a b ")), (1, 4));
}
