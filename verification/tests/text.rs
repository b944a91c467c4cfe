use kitchentimer::text::cap;
use kitchentimer::text::chars_of;
use kitchentimer::text::drop_space;
use kitchentimer::text::find_char;
use kitchentimer::text::find_last_char;
use kitchentimer::text::grapheme_truncate;
use kitchentimer::text::parse_number;
use kitchentimer::text::push_decimal;
use kitchentimer::text::push_text;
use kitchentimer::text::push_two_digits;
use kitchentimer::text::replace;
use kitchentimer::text::same_text;
use kitchentimer::text::shorten;
use kitchentimer::text::skip_space;
use kitchentimer::text::text_of;
use kitchentimer::text::unicode_length;
use kitchentimer::text::unicode_truncate;

fn chars(text: &str) -> Vec<char> {
    text.chars().collect()
}

#[test]
fn chars_and_back() {
    assert_eq!(chars_of("aé日"), vec!['a', 'é', '日']);
    assert_eq!(chars_of(""), Vec::<char>::new());
    let c = chars("hello");
    assert_eq!(text_of(&c, 1, 4), "ell");
    assert_eq!(text_of(&c, 2, 2), "");
    assert!(same_text("abc", "abc"));
    assert!(!same_text("abc", "abd"));
    assert!(!same_text("abc", "ab"));
    assert!(same_text("", ""));
}

#[test]
fn finding_characters() {
    let c = chars("a/b/c");
    assert_eq!(find_char(&c, 0, 5, '/'), 1);
    assert_eq!(find_char(&c, 2, 5, '/'), 1);
    assert_eq!(find_char(&c, 4, 5, '/'), 1);
    assert_eq!(find_char(&c, 0, 1, '/'), 1);
    assert_eq!(find_char(&c, 0, 0, '/'), 0);
    assert_eq!(find_last_char(&c, 0, 5, '/'), Some(3));
    assert_eq!(find_last_char(&c, 0, 3, '/'), Some(1));
    assert_eq!(find_last_char(&c, 2, 3, '/'), None);
    assert_eq!(find_last_char(&c, 0, 0, '/'), None);
}

#[test]
fn trimming_white_space() {
    let c = chars(" \t\u{a0}ab c\u{2003}\n");
    assert_eq!(skip_space(&c, 0, c.len()), 3);
    assert_eq!(drop_space(&c, 0, c.len()), 7);
    assert_eq!(skip_space(&c, 3, c.len()), 3);
    let blank = chars("   ");
    assert_eq!(skip_space(&blank, 0, 3), 3);
    assert_eq!(drop_space(&blank, 0, 3), 0);
    assert_eq!(drop_space(&blank, 1, 3), 1);
}

#[test]
fn reading_numbers() {
    let read = |text: &str| {
        let c = chars(text);
        parse_number(&c, 0, c.len())
    };
    assert_eq!(read("0"), Some(0));
    assert_eq!(read("42"), Some(42));
    assert_eq!(read("+42"), Some(42));
    assert_eq!(read("0042"), Some(42));
    assert_eq!(read("4294967295"), Some(4294967295));
    assert_eq!(read("4294967296"), None);
    assert_eq!(read("99999999999999999999999"), None);
    assert_eq!(read(""), None);
    assert_eq!(read("+"), None);
    assert_eq!(read("-1"), None);
    assert_eq!(read("++1"), None);
    assert_eq!(read("1+"), None);
    assert_eq!(read("1 "), None);
    assert_eq!(read("٣"), None);
    let c = chars("ab12cd");
    assert_eq!(parse_number(&c, 2, 4), Some(12));
}

#[test]
fn writing_numbers() {
    let mut out = String::from(">");
    push_decimal(&mut out, 0);
    push_text(&mut out, ",");
    push_decimal(&mut out, 7);
    push_text(&mut out, ",");
    push_decimal(&mut out, 4294967295);
    assert_eq!(out, ">0,7,4294967295");
    let mut out = String::new();
    push_two_digits(&mut out, 0);
    push_two_digits(&mut out, 9);
    push_two_digits(&mut out, 10);
    push_two_digits(&mut out, 123);
    assert_eq!(out, "000910123");
}

#[test]
fn replacing() {
    assert_eq!(replace("a{t}b{t}", "{t}", "12"), "a12b12");
    assert_eq!(replace("aaa", "aa", "b"), "ba");
    assert_eq!(replace("abc", "", "x"), "abc");
    assert_eq!(replace("", "a", "x"), "");
    assert_eq!(replace("abc", "abcd", "x"), "abc");
    assert_eq!(replace("{t", "{t}", "x"), "{t");
    assert_eq!(replace("a", "a", "aa"), "aa");
}

#[test]
fn shorten_joins_the_first_clusters() {
    let clusters: Vec<String> = vec!["a", "bc", "d"].iter().map(|s| s.to_string()).collect();
    assert_eq!(shorten(&clusters, 2, Some('…')), Some("abc…".to_string()));
    assert_eq!(shorten(&clusters, 2, None), Some("abc".to_string()));
    assert_eq!(shorten(&clusters, 0, Some('!')), Some("!".to_string()));
    assert_eq!(shorten(&clusters, 3, Some('…')), None);
    assert_eq!(shorten(&clusters, 4, None), None);
}

#[test]
fn grapheme_truncate_cuts_between_clusters() {
    let mut text = "e\u{301}a\u{310}o".to_string();
    grapheme_truncate(&mut text, 2, '…');
    assert_eq!(text, "e\u{301}a\u{310}…");
    grapheme_truncate(&mut text, 3, '…');
    assert_eq!(text, "e\u{301}a\u{310}…");
    let mut flags = "🇷🇺🇸🇹".to_string();
    grapheme_truncate(&mut flags, 1, '.');
    assert_eq!(flags, "🇷🇺.");
    let mut empty = String::new();
    grapheme_truncate(&mut empty, 0, '.');
    assert_eq!(empty, "");
}

#[test]
fn unicode_length_and_truncate() {
    assert_eq!(unicode_length(""), 0);
    assert_eq!(unicode_length("abc"), 3);
    assert_eq!(unicode_length("e\u{301}\r\n🇷🇺"), 3);
    let mut text = "a\r\nb".to_string();
    unicode_truncate(&mut text, 2);
    assert_eq!(text, "a\r\n");
    unicode_truncate(&mut text, 2);
    assert_eq!(text, "a\r\n");
    assert_eq!(cap(70000), 65535);
    assert_eq!(cap(65535), 65535);
    assert_eq!(cap(12), 12);
}
