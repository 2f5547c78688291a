use spi_console::clock::{Span, Timestamp};
use spi_console::text::{decimal_text, dump_text, pair_text, push_decimal};

fn at(secs: i64, nanos: u32) -> Timestamp {
    Timestamp { secs, nanos }
}

#[test]
fn span_of_nothing() {
    assert_eq!(Span::between(at(3, 4), at(3, 4)).to_text(), "P0D");
}

#[test]
fn span_of_whole_seconds() {
    assert_eq!(Span::between(at(0, 0), at(90_061, 0)).to_text(), "PT90061S");
}

#[test]
fn span_of_a_fraction() {
    assert_eq!(Span::between(at(1, 0), at(1, 1_500_000)).to_text(), "PT0.0015S");
    assert_eq!(Span::between(at(1, 0), at(2, 1)).to_text(), "PT1.000000001S");
    assert_eq!(Span::between(at(0, 999_999_999), at(1, 100_000_000)).to_text(), "PT0.100000001S");
}

#[test]
fn span_of_a_clock_that_was_set_back() {
    let span = Span::between(at(5, 0), at(3, 500_000_000));
    assert_eq!(span, Span { secs: -2, nanos: 500_000_000 });
    assert_eq!(span.to_text(), "-PT1.5S");
    assert_eq!(Span::between(at(5, 1), at(5, 0)).to_text(), "-PT0.000000001S");
}

#[test]
fn span_over_the_whole_calendar() {
    let first = at(spi_console::clock::MIN_SECS, 0);
    let last = at(spi_console::clock::MAX_SECS, 999_999_999);
    assert_eq!(first.to_text(), "00:00:00.000000000");
    assert_eq!(last.to_text(), "23:59:59.999999999");
    assert_eq!(Span::between(first, last).to_text(), "PT16544868105599.999999999S");
    assert_eq!(Span::between(last, first).to_text(), "-PT16544868105599.999999999S");
}

#[test]
fn spans_between_three_moments_add_up() {
    let (a, b, c) = (at(10, 900_000_000), at(12, 100_000_000), at(11, 0));
    let nanos = |s: Span| s.secs as i128 * 1_000_000_000 + s.nanos as i128;
    assert_eq!(nanos(Span::between(a, b)), 1_200_000_000);
    assert_eq!(
        nanos(Span::between(a, b)) + nanos(Span::between(b, c)),
        nanos(Span::between(a, c))
    );
}

#[test]
fn moments_have_eighteen_characters() {
    assert_eq!(at(86_399, 1).to_text(), "23:59:59.000000001");
    assert_eq!(at(86_400, 0).to_text(), "00:00:00.000000000");
    assert_eq!(at(3_661, 20).to_text().len(), 18);
}

#[test]
fn now_is_in_the_calendar() {
    let now = Timestamp::now();
    assert!(now.secs >= 0);
    assert!(now.secs <= spi_console::clock::MAX_SECS);
    assert!(now.nanos < 1_000_000_000);
}

#[test]
fn decimals() {
    assert_eq!(decimal_text(0), "0");
    assert_eq!(decimal_text(9), "9");
    assert_eq!(decimal_text(10), "10");
    assert_eq!(decimal_text(1_234_567_890), "1234567890");
    assert_eq!(decimal_text(u64::MAX), "18446744073709551615");
    let mut text = "n=".to_string();
    push_decimal(&mut text, 305);
    assert_eq!(text, "n=305");
}

#[test]
fn pairs_of_any_text() {
    assert_eq!(pair_text(""), "");
    assert_eq!(pair_text("a"), "a");
    assert_eq!(pair_text("ab"), "ab");
    assert_eq!(pair_text("abc"), "ab c");
    assert_eq!(pair_text("abcdef"), "ab cd ef");
}

#[test]
fn dumps() {
    assert_eq!(dump_text(&vec![]), "");
    assert_eq!(dump_text(&vec![0x0F]), "0f");
    assert_eq!(dump_text(&vec![0, 16, 255, 0x9A]), "00 10 ff 9a");
}

#[test]
fn every_byte_is_dumped_as_its_own() {
    let mut seen: Vec<String> = Vec::new();
    for b in 0..=255u8 {
        let dump = dump_text(&vec![b]);
        assert_eq!(dump, format!("{:02x}", b));
        assert!(!seen.contains(&dump));
        seen.push(dump);
    }
}
