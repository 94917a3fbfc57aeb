use github_reviews::number::{i64_text, parse_u64, parse_unsigned, u64_text, IntError};
use github_reviews::order::sort;
use github_reviews::text::{
    char_is_white_space, str_eq_ignore_case, str_find, str_join, str_le, str_lines,
    str_rsplit_once, str_split, str_split_once, str_strip_prefix, str_strip_suffix, str_to_lower,
    str_trim, str_trim_matches, str_words,
};
use github_reviews::time::{
    after, show_millis, Duration, Timestamp, MAX_MILLIS, MAX_SECONDS, MIN_MILLIS, MIN_SECONDS,
};

#[test]
fn white_space_is_that_of_unicode() {
    for c in '\0'..=char::MAX {
        assert_eq!(char_is_white_space(c), c.is_whitespace(), "{c:?}");
    }
}

#[test]
fn texts_are_cut_as_std_cuts_them() {
    let samples = [
        "",
        " ",
        "a",
        " a b ",
        "a/b/c",
        "//",
        "x=1&y=2",
        "line\r\nnext\n\nlast",
        "ends\n",
        "\u{a0}wide\u{3000}",
        "aaa",
        "git@github.com:acme/widgets.git",
    ];
    for text in samples {
        assert_eq!(str_trim(text), text.trim());
        assert_eq!(str_trim_matches(text, '/'), text.trim_matches('/'));
        assert_eq!(str_to_lower(text), text.to_ascii_lowercase());
        assert_eq!(str_words(text), text.split_whitespace().collect::<Vec<_>>());
        assert_eq!(str_lines(text), text.lines().collect::<Vec<_>>());
        assert_eq!(str_split(text, '/'), text.split('/').collect::<Vec<_>>());
        for sep in ['/', ' ', 'a', '\n'] {
            assert_eq!(
                str_split_once(text, sep),
                text.split_once(sep)
                    .map(|(a, b)| (a.to_owned(), b.to_owned()))
            );
            assert_eq!(
                str_rsplit_once(text, sep),
                text.rsplit_once(sep)
                    .map(|(a, b)| (a.to_owned(), b.to_owned()))
            );
        }
        for part in ["", "a", "aa", "git", ".git", "/"] {
            assert_eq!(
                str_find(text, part).map(|n| n as usize),
                text.find(part).map(|n| text[..n].chars().count())
            );
            assert_eq!(
                str_strip_prefix(text, part),
                text.strip_prefix(part).map(str::to_owned)
            );
            assert_eq!(
                str_strip_suffix(text, part),
                text.strip_suffix(part).map(str::to_owned)
            );
        }
        for other in samples {
            assert_eq!(str_le(text, other), text <= other);
            assert_eq!(
                str_eq_ignore_case(text, other),
                text.eq_ignore_ascii_case(other)
            );
        }
    }
    assert_eq!(
        str_join(&vec!["a".into(), "b".into(), "c".into()], ", "),
        "a, b, c"
    );
}

#[test]
fn numbers_are_written_and_read() {
    for n in [0, 7, 10, 99, 100, u64::MAX] {
        assert_eq!(u64_text(n), n.to_string());
        assert_eq!(parse_u64(&n.to_string()), Ok(n));
    }
    for n in [0, -1, 42, i64::MIN, i64::MAX] {
        assert_eq!(i64_text(n), n.to_string());
    }
    for text in ["", "-1", "+5", "5x", "18446744073709551616", "007", "+", "-"] {
        match text.parse::<u64>() {
            Ok(n) => assert_eq!(parse_u64(text), Ok(n), "{text}"),
            Err(error) => assert_eq!(
                parse_u64(text).unwrap_err().message(),
                error.to_string(),
                "{text}"
            ),
        }
    }
    assert_eq!(parse_unsigned("256", 255), Err(IntError::PosOverflow));
}

#[test]
fn lists_of_texts_are_sorted() {
    let list: Vec<String> = ["b", "", "aa", "a", "\u{10000}", "\u{ffff}"]
        .map(str::to_owned)
        .to_vec();
    let mut expected = list.clone();
    expected.sort();
    assert_eq!(sort(list), expected);
}

#[test]
fn instants_are_read_and_written() {
    let instant = Timestamp::parse("2030-01-01T12:00:00.250Z").unwrap();
    assert_eq!(
        instant,
        Timestamp {
            seconds: 1_893_499_200,
            nanos: 250_000_000
        }
    );
    assert_eq!(instant.millis(), 1_893_499_200_250);
    let text = instant.to_rfc3339().unwrap();
    assert_eq!(text, "2030-01-01T12:00:00.250+00:00");
    assert_eq!(Timestamp::parse(&text), Some(instant));
    assert_eq!(Timestamp::parse("100@50"), None);
    assert_eq!(
        Timestamp::parse("2030-01-01T14:00:00+02:00"),
        Timestamp::parse("2030-01-01T12:00:00Z")
    );
}

#[test]
fn the_range_of_dates_is_that_of_chrono() {
    assert_eq!(MIN_MILLIS, chrono::DateTime::<chrono::Utc>::MIN_UTC.timestamp_millis());
    assert_eq!(MAX_MILLIS, chrono::DateTime::<chrono::Utc>::MAX_UTC.timestamp_millis());
    assert_eq!(MIN_SECONDS, chrono::DateTime::<chrono::Utc>::MIN_UTC.timestamp());
    assert_eq!(MAX_SECONDS, chrono::DateTime::<chrono::Utc>::MAX_UTC.timestamp());
    assert_eq!(Timestamp::from_millis(MAX_MILLIS + 1), None);
    assert_eq!(Timestamp::from_millis(MIN_MILLIS - 1), None);
    assert_eq!(
        Timestamp::from_millis(-1),
        Some(Timestamp {
            seconds: -1,
            nanos: 999_000_000
        })
    );
    assert_eq!(show_millis(MAX_MILLIS + 1), None);
    assert_eq!(
        show_millis(1_893_499_200_000).as_deref(),
        Some("2030-01-01 12:00:00 UTC")
    );
}

#[test]
fn instants_move_back_by_seconds() {
    let instant = Timestamp {
        seconds: 100,
        nanos: 5,
    };
    assert_eq!(
        instant.minus_seconds(60),
        Timestamp {
            seconds: 40,
            nanos: 5
        }
    );
    let first = Timestamp {
        seconds: MIN_SECONDS,
        nanos: 0,
    };
    assert_eq!(first.minus_seconds(60), first);
    // From within a leap second the count starts at the second behind it.
    let leap = Timestamp::parse("2016-12-31T23:59:60.5Z").unwrap();
    assert!(leap.is_wf());
    assert_eq!(
        leap.minus_seconds(60),
        Timestamp::parse("2016-12-31T23:59:00.5Z").unwrap()
    );
}

#[test]
fn spans_add_and_subtract() {
    let span = Duration {
        seconds: 1,
        nanos: 600_000_000,
    };
    let now = Timestamp {
        seconds: 10,
        nanos: 500_000_000,
    };
    assert_eq!(after(now, span), Some(12_100));
    assert_eq!(
        after(
            now,
            Duration {
                seconds: u64::MAX,
                nanos: 0
            }
        ),
        None
    );
    assert_eq!(
        span.saturating_sub(Duration {
            seconds: 0,
            nanos: 700_000_000
        }),
        Duration {
            seconds: 0,
            nanos: 900_000_000
        }
    );
    assert!(Duration::from_millis(0).is_zero());
    assert_eq!(
        span.saturating_sub(Duration::from_secs(9)),
        Duration::from_secs(0)
    );
}
