use lticket::display::{get_icon, get_status_display, get_status_symbol, truncate_text};

#[test]
fn test_status_symbols() {
    assert_eq!(get_status_symbol("open"), "●");
    assert_eq!(get_status_symbol("closed"), "✓");
    assert_eq!(get_status_symbol("in-progress"), "⚠");
    assert_eq!(get_status_symbol("wontfix"), "⊘");
    assert_eq!(get_status_symbol("unknown"), "○");
}

#[test]
fn test_text_truncation() {
    let long_text = "This is a very long text that should be truncated";
    let truncated = truncate_text(long_text, 20);
    assert!(truncated.len() <= 23);
    assert!(truncated.ends_with("..."));
}

#[test]
fn symbols_ignore_ascii_case() {
    assert_eq!(get_status_symbol("OPEN"), "●");
    assert_eq!(get_status_symbol("In_Progress"), "⚠");
    assert_eq!(get_status_symbol("Done"), "✓");
    assert_eq!(get_status_display("Closed"), "✓ Closed");
    assert_eq!(get_icon("SUMMARY"), "📊");
    assert_eq!(get_icon("nothing"), "");
}

#[test]
fn truncation_counts_columns() {
    assert_eq!(truncate_text("short", 20), "short");
    assert_eq!(truncate_text("abcdefghij", 8), "abcde...");
    assert_eq!(truncate_text("日本語のテキストです", 9), "日本語...");
    assert_eq!(truncate_text("exactly-ten", 11), "exactly-ten");
}
