use resource_installer::progress::{elapsed_string, percent_string, progress_bar_width, progress_line};
use resource_installer::terminal::{rows_covered, rows_to_rewind};
use resource_installer::text::{decimal_string, push_padded, signed_decimal_string};

#[test]
fn decimal_matches_formatter() {
    for n in [0u64, 7, 10, 99, 100, 12345, 1_000_000, u64::MAX] {
        assert_eq!(decimal_string(n), format!("{}", n));
    }
}

#[test]
fn signed_decimal_matches_formatter() {
    for i in [0i64, -1, 5, -5, 42, -123456, i64::MIN, i64::MAX] {
        assert_eq!(signed_decimal_string(i), format!("{}", i));
    }
}

#[test]
fn padding_matches_formatter() {
    let mut s = String::from("x");
    push_padded(&mut s, "7", 3, ' ');
    assert_eq!(s, "x  7");
    let mut s = String::new();
    push_padded(&mut s, "12345", 3, '0');
    assert_eq!(s, "12345");
}

#[test]
fn elapsed_time_matches_formatter() {
    for t in [0u64, 5, 59, 60, 65, 125, 3599, 3600, 86_399, u64::MAX] {
        assert_eq!(elapsed_string(t), format!("  {}:{:>02} ", t / 60, t % 60));
    }
    assert_eq!(elapsed_string(125), "  2:05 ");
}

#[test]
fn percentage_matches_formatter() {
    for p in [0i32, 5, 42, 100, -1, -50, 1000, i32::MIN, i32::MAX] {
        assert_eq!(percent_string(p), format!(" {: >3}% ", p));
    }
    assert_eq!(percent_string(7), "   7% ");
}

#[test]
fn bar_width_subtracts_everything_but_the_bar() {
    // "  0:05 " is 7, "  50% " is 6, brackets 2, message 10
    assert_eq!(progress_bar_width("0123456789", 5, 50, 80), 80 - 7 - 6 - 2 - 10);
    // the message counts in bytes
    assert_eq!(progress_bar_width("é", 5, 50, 80), 80 - 7 - 6 - 2 - 2);
}

#[test]
fn progress_line_draws_the_bar() {
    // width 40: bar 40 - (7 + 6 + 2 + 3) = 22 columns
    let line = progress_line("msg", 5, 50, 40, 11);
    assert_eq!(line, format!("msg  0:05 [{}{}]  50% ", "#".repeat(11), "-".repeat(11)));
    assert_eq!(line.len(), 40);
}

#[test]
fn progress_line_without_room_has_no_bar() {
    let line = progress_line("a long message", 61, 3, 10, 4);
    assert_eq!(line, "a long message  1:01    3% ");
}

#[test]
fn progress_line_with_overfull_or_negative_fill() {
    // width 30: bar 30 - 18 = 12
    assert_eq!(progress_line("abc", 0, 100, 30, 15), format!("abc  0:00 [{}] 100% ", "#".repeat(15)));
    assert_eq!(progress_line("abc", 0, 0, 30, -3), format!("abc  0:00 [{}]   0% ", "-".repeat(15)));
}

#[test]
fn rewind_rows_divides_by_one_more_than_the_width() {
    assert_eq!(rows_to_rewind(0, 80), 1);
    assert_eq!(rows_to_rewind(80, 79), 2);
    assert_eq!(rows_to_rewind(79, 79), 1);
    assert_eq!(rows_to_rewind(100, 0), 101);
}

#[test]
fn rows_covered_measures_without_escape_sequences() {
    assert_eq!(rows_covered("abc", 80), Some(1));
    // two visible columns: 2 / 2 + 1 rows, where the raw length would give 6
    assert_eq!(rows_covered("\x1b[31mab\x1b[0m", 1), Some(2));
    let long = "x".repeat(200);
    assert_eq!(rows_covered(&long, 79), Some(3));
}

#[test]
fn progress_line_fills_the_width_in_bytes() {
    // "dé" is 3 bytes; bar 40 - (7 + 6 + 2 + 3) = 22 columns
    let line = progress_line("dé", 5, 50, 40, 0);
    assert_eq!(line.len(), 40);
    let line = progress_line("dé", 5, 50, 40, 22);
    assert_eq!(line.len(), 40);
    assert_eq!(line.matches('#').count(), 22);
}
