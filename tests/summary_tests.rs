use lticket::summary::{summarize_statuses, total_logged_time, TicketListSummary};
use lticket::text::{int_to_text, join, parse_i64};

#[test]
fn closed_statuses_are_counted_in_any_case() {
    let statuses = vec!["open".to_string(), "Closed".to_string(), "completed".to_string(), "DONE".to_string(), "blocked".to_string()];
    assert_eq!(
        summarize_statuses(&statuses),
        TicketListSummary { total_tickets: 5, open_tickets: 2, closed_tickets: 3 }
    );
    assert_eq!(summarize_statuses(&[]), TicketListSummary { total_tickets: 0, open_tickets: 0, closed_tickets: 0 });
}

#[test]
fn logged_time_adds_up() {
    assert_eq!(total_logged_time(&[(1, 30), (0, 45), (2, 0)]), (4, 15));
    assert_eq!(total_logged_time(&[]), (0, 0));
}

#[test]
fn text_helpers() {
    assert_eq!(int_to_text(0), "0");
    assert_eq!(int_to_text(-120), "-120");
    assert_eq!(int_to_text(i64::MIN), "-9223372036854775808");
    assert_eq!(parse_i64("-9223372036854775808"), Some(i64::MIN));
    assert_eq!(parse_i64("99999999999999999999"), None);
    assert_eq!(join(&["a".to_string(), "b".to_string()], ", "), "a, b");
}
