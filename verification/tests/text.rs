use qd2::error::out_of_range;
use qd2::error::Failure;
use qd2::text::ascii::is_white_space;
use qd2::text::ascii::to_ascii_lowercase;
use qd2::text::number::to_decimal;
use qd2::text::number::to_hex;
use qd2::text::number::to_signed_decimal;
use qd2::text::order::rank_texts;
use qd2::text::order::Rank;
use qd2::text::scan::contains;
use qd2::text::scan::lines;
use qd2::text::scan::split;
use qd2::text::scan::split_once;
use qd2::text::scan::starts_with;
use qd2::text::scan::strip_prefix;
use qd2::text::scan::trim;
use qd2::text::sort::sort_ranked;

#[test]
fn white_space_is_that_of_unicode() {
    for code in 0..=0x10_ffffu32 {
        if let Some(c) = char::from_u32(code) {
            assert_eq!(is_white_space(c), c.is_whitespace(), "{code:#x}");
        }
    }
}

#[test]
fn lower_case_touches_ascii_only() {
    for text in ["", "VDAgent", "com.Redhat.SPICE.0", "ÄÖ Z"] {
        assert_eq!(to_ascii_lowercase(text), text.to_ascii_lowercase());
    }
}

#[test]
fn numbers_are_written_as_usual() {
    for value in [0u64, 7, 10, 255, 4_294_967_295, u64::MAX] {
        assert_eq!(to_decimal(value), format!("{value}"));
        assert_eq!(to_hex(value), format!("{value:#x}"));
    }
    for value in [0i64, -1, 42, -4096, i64::MIN + 1, i64::MAX] {
        assert_eq!(to_signed_decimal(value), format!("{value}"));
    }
}

#[test]
fn texts_are_ranked_as_strings_are() {
    let words = ["", "a", "ab", "b", "B", "é", "z", "\u{1f600}", "\u{ffff}"];
    for left in words {
        for right in words {
            let expected = if left < right {
                Rank::Before
            } else if left == right {
                Rank::Same
            } else {
                Rank::After
            };
            assert_eq!(rank_texts(left, right), expected);
        }
    }
}

#[test]
fn scanning_agrees_with_strings() {
    for text in ["", " ", "  a b\t\n", "a,b,,c", "key=value=more", "=x", "\u{a0}x\u{2003}"] {
        assert_eq!(trim(text), text.trim());
        assert_eq!(split(text, ','), text.split(',').collect::<Vec<_>>());
        let halves = text
            .split_once('=')
            .map(|(left, right)| (left.to_owned(), right.to_owned()));
        assert_eq!(split_once(text, '='), halves);
        for part in ["", "a", "b,", "val"] {
            assert_eq!(contains(text, part), text.contains(part));
            assert_eq!(starts_with(text, part), text.starts_with(part));
            assert_eq!(
                strip_prefix(text, part).as_deref(),
                text.strip_prefix(part)
            );
        }
    }
}

#[test]
fn lines_agree_with_strings() {
    for text in ["", "\n", "a", "a\n", "a\nb", "a\r\nb\r\n", "a\n\nb\r", "\r\n\r\n"] {
        assert_eq!(lines(text), text.lines().collect::<Vec<_>>(), "{text:?}");
    }
}

#[test]
fn sorting_keeps_equal_numbers_and_orders_the_rest() {
    let mut numbers = vec![3u32, 1, 2, 3, 0];
    sort_ranked(&mut numbers);
    assert_eq!(numbers, vec![0, 1, 2, 3, 3]);

    let mut words = vec!["org.b".to_owned(), "org.a".to_owned(), "org".to_owned()];
    sort_ranked(&mut words);
    assert_eq!(words, vec!["org", "org.a", "org.b"]);
}

#[test]
fn failures_read_from_the_outside_in() {
    let failure = Failure::of("no such file").context("cannot open the socket".to_owned());
    assert_eq!(failure.to_string(), "cannot open the socket");
    assert_eq!(failure.in_full(), "cannot open the socket: no such file");
    assert_eq!(
        failure.duplicate().messages(),
        vec!["cannot open the socket", "no such file"]
    );

    assert_eq!(
        out_of_range("invalid width".to_owned()).in_full(),
        format!(
            "invalid width: {}",
            u8::try_from(256u32).expect_err("256 is no byte")
        )
    );
}
