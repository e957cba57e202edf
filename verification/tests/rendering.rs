use anki_counts::poll::CardCounts;
use anki_counts::render::{decimal_string, render_output, report_line, Format};

#[test]
fn round_trip_counts() {
    let counts = CardCounts { new: 5, learn: 2, review: 3 };
    let verbose = Format { short: false, json: false };
    let compact = Format { short: true, json: false };
    let json = Format { short: false, json: true };

    assert_eq!(report_line(&counts, verbose), "Anki - due: 5, new: 5");
    assert_eq!(report_line(&counts, compact), "5 / 5");
    assert_eq!(
        report_line(&counts, json),
        "{\"msg\": \"Anki - due: 5, new: 5\", \"due\": 5, \"new\": 5}"
    );
}

#[test]
fn compact_json_wraps_the_compact_message() {
    let counts = CardCounts { new: 7, learn: 10, review: 2 };
    let f = Format { short: true, json: true };
    assert_eq!(report_line(&counts, f), "{\"msg\": \"12 / 7\", \"due\": 12, \"new\": 7}");
}

#[test]
fn repeated_reports_of_an_unchanged_store_are_identical() {
    let counts = CardCounts { new: 31, learn: 4, review: 9 };
    let f = Format { short: false, json: false };
    let first = report_line(&counts, f);
    let second = report_line(&counts, f);
    assert_eq!(first, second);
    assert_eq!(first, "Anki - due: 13, new: 31");
}

#[test]
fn decimal_rendering_is_exact() {
    assert_eq!(decimal_string(0), "0");
    assert_eq!(decimal_string(9), "9");
    assert_eq!(decimal_string(10), "10");
    assert_eq!(decimal_string(12345), "12345");
    assert_eq!(decimal_string(u64::MAX), "18446744073709551615");
}

#[test]
fn rendering_distinguishes_due_and_new() {
    let f = Format { short: false, json: false };
    assert_eq!(render_output(3, 8, f), "Anki - due: 3, new: 8");
    let f = Format { short: true, json: false };
    assert_eq!(render_output(3, 8, f), "3 / 8");
}
