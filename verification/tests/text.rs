use irodori_lakehouse::text;

const SAMPLES: [&str; 12] = [
    "",
    " ",
    "a",
    " a b ",
    "\u{a0}x\u{3000}",
    "a.b..c",
    "..",
    "abcabcab",
    "'quoted'",
    "Ünïcode ß",
    "\t\r\n",
    "//path//",
];

#[test]
fn white_space_is_that_of_unicode() {
    for n in 0..=0x10ffffu32 {
        if let Some(c) = char::from_u32(n) {
            assert_eq!(text::is_white_space(c), c.is_whitespace(), "{n:x}");
        }
    }
}

#[test]
fn trims_as_documented() {
    for sample in SAMPLES {
        assert_eq!(text::trim(sample), sample.trim());
        assert_eq!(text::trim_start(sample), sample.trim_start());
        assert_eq!(text::trim_leading(sample, '/'), sample.trim_start_matches('/'));
        assert_eq!(text::trim_trailing(sample, '/'), sample.trim_end_matches('/'));
    }
    assert_eq!(text::trim("  a b\u{2003}"), "a b");
}

#[test]
fn splits_and_joins() {
    for sample in SAMPLES {
        let parts: Vec<String> = sample.split('.').map(|part| part.to_string()).collect();
        assert_eq!(text::split(sample, '.'), parts);
        assert_eq!(text::join(&parts, "."), sample);
        let once = sample.split_once('b').map(|(a, b)| (a.to_string(), b.to_string()));
        assert_eq!(text::split_once(sample, 'b'), once);
    }
    assert_eq!(text::join(&Vec::new(), "."), "");
}

#[test]
fn replaces_from_left_to_right() {
    for sample in SAMPLES {
        assert_eq!(text::replace(sample, "ab", "****"), sample.replace("ab", "****"));
    }
    assert_eq!(text::replace("aaa", "aa", "b"), "ba");
}

#[test]
fn finds_prefixes_and_suffixes() {
    for sample in SAMPLES {
        for part in ["", "a", "abc", "//", "ab"] {
            assert_eq!(text::starts_with(sample, part), sample.starts_with(part));
            assert_eq!(text::ends_with(sample, part), sample.ends_with(part));
            let stripped = sample.strip_prefix(part).map(|rest| rest.to_string());
            assert_eq!(text::strip_prefix(sample, part), stripped);
            let stripped = sample.strip_suffix(part).map(|rest| rest.to_string());
            assert_eq!(text::strip_suffix(sample, part), stripped);
        }
        assert_eq!(text::contains_char(sample, 'b'), sample.contains('b'));
    }
}

#[test]
fn lowers_ascii_letters_only() {
    assert_eq!(text::lower("SELECT Ünï @[`{"), "select Ünï @[`{");
    for sample in SAMPLES {
        assert_eq!(text::lower(sample), sample.to_ascii_lowercase());
    }
}

#[test]
fn takes_first_characters() {
    assert_eq!(text::first_chars("äöü", 2), "äö");
    assert_eq!(text::first_chars("äöü", 3), "äöü");
    assert_eq!(text::first_chars("äöü", 9), "äöü");
    assert_eq!(text::first_chars("äöü", 0), "");
}

#[test]
fn writes_decimals() {
    for n in [0u64, 7, 10, 401, 500, u64::MAX] {
        assert_eq!(text::decimal(n), n.to_string());
    }
}

#[test]
fn orders_texts_by_characters() {
    for a in SAMPLES {
        for b in SAMPLES {
            assert_eq!(text::comes_before(a, b), a < b, "{a:?} {b:?}");
        }
    }
    assert!(text::comes_before("a", "ab"));
    assert!(!text::comes_before("\u{10000}", "\u{ffff}"));
}
