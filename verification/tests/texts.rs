use sony_headphones_tray::text;

const SAMPLES: [&str; 16] = [
    "",
    " ",
    "a",
    " a b ",
    "\n",
    "\r\n",
    "a\nb",
    "a\r\nb\r\n",
    "a\r",
    "\n\na\n\n",
    "::a:b::",
    "aa:bb:cc:dd:ee:ff",
    "\u{a0}x\u{3000}y\u{2003}",
    "ñandú \t tab",
    "x\u{85}y\u{2028}z",
    "Device  A0:1B   WH-1000XM4 ",
];

#[test]
fn white_space_is_what_the_standard_library_takes_for_it() {
    let mut n: u32 = 0;
    while n <= 0x10ffff {
        if let Some(c) = char::from_u32(n) {
            assert_eq!(text::is_white_space(c), c.is_whitespace());
        }
        n += 1;
    }
}

#[test]
fn texts_are_cut_as_by_the_standard_library() {
    for s in SAMPLES {
        assert_eq!(text::trim(s), s.trim());
        assert_eq!(text::blank(s), s.trim().is_empty());
        assert_eq!(text::lines(s), s.lines().collect::<Vec<&str>>());
        assert_eq!(text::words(s), s.split_whitespace().collect::<Vec<&str>>());
        for c in [':', 'a', '\n', 'ñ'] {
            assert_eq!(text::split(s, c), s.split(c).collect::<Vec<&str>>());
            assert_eq!(text::replace(s, c, "--"), s.replace(c, "--"));
        }
        assert_eq!(text::chars_of(s), s.chars().collect::<Vec<char>>());
    }
}

#[test]
fn texts_are_compared_as_by_the_standard_library() {
    for s in SAMPLES {
        for part in SAMPLES {
            assert_eq!(text::same(s, part), s == part);
            assert_eq!(text::contains(s, part), s.contains(part));
            assert_eq!(text::starts_with(s, part), s.starts_with(part));
            assert_eq!(text::ends_with(s, part), s.ends_with(part));
            assert_eq!(text::strip_prefix(s, part), s.strip_prefix(part));
        }
    }
}

#[test]
fn parts_are_joined() {
    assert_eq!(text::join(&[], " "), "");
    assert_eq!(text::join(&["a"], " "), "a");
    assert_eq!(text::join(&["a", "", "c"], ", "), "a, , c");
}

#[test]
fn numbers_are_written_in_decimal() {
    for n in 0..=255u8 {
        assert_eq!(text::to_decimal(n), n.to_string());
    }
}
