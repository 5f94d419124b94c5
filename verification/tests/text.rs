use herdr::text;

const SAMPLES: [&str; 16] = [
    "",
    " ",
    "a",
    "a b",
    "\t a\u{a0}b \n",
    "one\ntwo\r\n\nthree\r",
    "user@host:22/path",
    "x@y@z",
    "n\u{e4}h \u{3000}",
    "\u{2028}mid\u{2029}",
    "ALL Caps",
    "--flag=value=more",
    "\n",
    "\r\n",
    "vv1.2v",
    "z\u{1f600}a",
];

#[test]
fn texts_are_cut_as_usual() {
    for s in SAMPLES {
        assert_eq!(text::trim(s), s.trim());
        assert_eq!(text::lines(s), s.lines().collect::<Vec<_>>());
        assert_eq!(text::split_once(s, '='), s.split_once('='));
        assert_eq!(text::ascii_lowercase(s), s.to_ascii_lowercase());
        assert_eq!(
            text::trim_start_matches(s, 'v'),
            s.trim_start_matches('v')
        );
        assert_eq!(text::trim_end_matches(s, 'v'), s.trim_end_matches('v'));
        assert_eq!(text::replace_char(s, 'a', "bc"), s.replace('a', "bc"));
        assert_eq!(
            text::take_chars(s, 3),
            s.chars().take(3).collect::<String>()
        );
        assert_eq!(text::chars_of(s), s.chars().collect::<Vec<_>>());
        let mut shorter = s.to_string();
        shorter.pop();
        assert_eq!(text::without_last(s), shorter);
        assert_eq!(
            text::after_last(s, '@'),
            s.rsplit_once('@').map(|(_, host)| host).unwrap_or(s)
        );
        assert_eq!(
            text::before_either(s, ':', '/'),
            s.split([':', '/']).next().unwrap()
        );
    }
}

#[test]
fn texts_are_compared_as_usual() {
    for a in SAMPLES {
        for b in SAMPLES {
            assert_eq!(text::same(a, b), a == b);
            assert_eq!(text::comes_before(a, b), a < b);
            assert_eq!(text::starts_with(a, b), a.starts_with(b));
            assert_eq!(text::ends_with(a, b), a.ends_with(b));
            assert_eq!(text::contains_str(a, b), a.contains(b));
            assert_eq!(text::strip_prefix(a, b), a.strip_prefix(b));
            assert_eq!(text::strip_suffix(a, b), a.strip_suffix(b));
        }
    }
}

#[test]
fn characters_are_told_apart_as_usual() {
    for c in (0..0x3100u32).filter_map(char::from_u32) {
        assert_eq!(text::is_whitespace(c), c.is_whitespace(), "{c:?}");
        assert_eq!(text::is_control(c), c.is_control(), "{c:?}");
        assert_eq!(text::is_alnum(c), c.is_ascii_alphanumeric(), "{c:?}");
    }
}

#[test]
fn numbers_are_written_and_read_as_usual() {
    for n in [0u128, 7, 10, 255, 65_536, u64::MAX as u128] {
        assert_eq!(text::decimal_of(n), n.to_string());
    }
    for s in [
        "0",
        "+7",
        "007",
        "-1",
        "",
        "+",
        "4294967295",
        "4294967296",
        "1 ",
        "12a",
        "99999999999999999999",
    ] {
        assert_eq!(text::parse_u32(s), s.parse::<u32>().ok(), "{s:?}");
    }
    assert_eq!(text::hex_of(0xbeef, 8), "0000beef");
    assert_eq!(
        text::join(&vec!["a".to_string(), "b".to_string()], ", "),
        "a, b"
    );
}
