use github_reviews::cli::{
    accept_duration, parse_duration, parse_positive_usize, Mode, PullRequestSelector,
    SelectorError,
};
use github_reviews::number::IntError;
use github_reviews::spans::can_add_up;
use github_reviews::time::Duration;

#[test]
fn parses_retry_selector() {
    assert_eq!(
        "acme/widgets#42".parse::<PullRequestSelector>().unwrap(),
        PullRequestSelector {
            full_name: "acme/widgets".into(),
            number: 42
        }
    );
}

#[test]
fn refuses_malformed_selectors() {
    for text in ["acme/widgets", "acme#42", "a/b/c#42", "acme/wid gets#42", ""] {
        let error = text.parse::<PullRequestSelector>().unwrap_err();
        assert_eq!(error, SelectorError::Malformed, "{text}");
        assert_eq!(error.message(), "expected OWNER/REPO#NUMBER");
    }
    let zero = PullRequestSelector::parse("acme/widgets#0").unwrap_err();
    assert_eq!(
        zero.message(),
        "pull request number must be greater than zero"
    );
    let letters = PullRequestSelector::parse("acme/widgets#x").unwrap_err();
    assert_eq!(letters, SelectorError::Number(IntError::InvalidDigit));
    assert_eq!(letters.message(), "x".parse::<u64>().unwrap_err().to_string());
    let empty = PullRequestSelector::parse("acme/widgets#").unwrap_err();
    assert_eq!(empty.message(), "".parse::<u64>().unwrap_err().to_string());
    let large = PullRequestSelector::parse("acme/widgets#99999999999999999999").unwrap_err();
    assert_eq!(
        large.message(),
        "99999999999999999999".parse::<u64>().unwrap_err().to_string()
    );
}

#[test]
fn selectors_are_read_as_they_are_written() {
    for (name, number) in [("a/b", 1), ("a#b/c", 7), ("x/y", u64::MAX)] {
        let selector = PullRequestSelector::parse(&format!("{name}#{number}")).unwrap();
        assert_eq!(selector.full_name, name);
        assert_eq!(selector.number, number);
    }
}

#[test]
fn durations_are_read_by_humantime() {
    assert_eq!(
        parse_duration("1m 30s"),
        Ok(Duration {
            seconds: 90,
            nanos: 0
        })
    );
    assert_eq!(
        parse_duration("250ms"),
        Ok(Duration {
            seconds: 0,
            nanos: 250_000_000
        })
    );
    assert_eq!(
        parse_duration("0s"),
        Err("duration must be greater than zero".into())
    );
    assert_eq!(
        parse_duration("soon"),
        Err(humantime::parse_duration("soon").unwrap_err().to_string())
    );
    assert_eq!(accept_duration(Err("no".into())), Err("no".into()));
}

#[test]
fn sums_that_overflow_are_told_apart() {
    for text in [
        "",
        "1hour 12min 5s",
        "18446744073709551615s",
        "18446744073709551616s",
        "18446744073709551615s 1s",
        "18446744073709551615s 999ms",
        "18446744073709551615s 1001ms",
        "18446744073709551615s 2000ms",
        "18446744073709551615s 1000ms!",
        "18446744073709551615s 1000 moons",
        "100000000000000ns 1s",
        "1000s 2000ms 300000us",
        "584542046090y 19767615s 1000us",
    ] {
        assert!(can_add_up(text), "{text}");
        let _ = parse_duration(text);
    }
    // What is refused at some place is not added up any further.
    for text in [
        "99999999999999ms 18446743973709551616s 1000000ns",
        "999999999ns 18446744073709551615ns 18446744055262807541s 290448386ns",
        "0.5ns 18446744073709551615s 1000ms",
        "0.3333333333h 18446744073709551615s 1000ms",
        "1.s 18446744073709551615s 1000ms",
        ".5s 18446744073709551615s 1000ms",
        "s 18446744073709551615s 1000ms",
        "1s x 18446744073709551614s 1000ms",
        "1s . 18446744073709551614s 1000ms",
        "18446744073709551616s 18446744073709551615s 1000ms",
    ] {
        assert!(can_add_up(text), "{text}");
        assert!(parse_duration(text).is_err(), "{text}");
    }
    for text in [
        "18446744073709551615s 1000ms",
        "18446744073709551615s1000ms",
        "18446744073709551615s 1000ms x",
        "18446744073709551615s 0.5s 500ms",
        "18446744073709551615s 0.5s 0.5s",
        "18446744073709551554s 0.5s 1m 1.5s",
        "584542046090y19767615s1000ms",
        "1ns 18446744073709551615s 999999999 nanos",
        "1s 18446744073709551614s 1000000\u{b5}s",
    ] {
        assert!(!can_add_up(text), "{text}");
    }
}

#[test]
fn many_digits_are_read() {
    assert_eq!(
        parse_duration("100000000000000ns 1s"),
        Ok(Duration::from_secs(100_001))
    );
    assert_eq!(
        parse_duration("18446744073709551615s 999999999ns"),
        Ok(Duration {
            seconds: u64::MAX,
            nanos: 999_999_999
        })
    );
    let too_large = Err("number is too large or cannot be represented without a lack of precision \
        (values below 1ns are not supported)"
        .to_owned());
    assert_eq!(parse_duration("18446744073709551616s"), too_large);
    assert_eq!(parse_duration("18446744073709551615s 1s"), too_large);
}

#[test]
fn counts_are_positive() {
    assert_eq!(parse_positive_usize("4"), Ok(4));
    assert_eq!(
        parse_positive_usize("0"),
        Err("value must be greater than zero".into())
    );
    assert_eq!(
        parse_positive_usize("four"),
        Err("four".parse::<usize>().unwrap_err().to_string())
    );
    assert_eq!(Mode::default(), Mode::Sync);
}
