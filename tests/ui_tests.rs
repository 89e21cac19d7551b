use lticket::suggestions;

#[test]
fn test_format_suggestions() {
    let suggestions = vec!["open".to_string(), "closed".to_string()];
    let result = suggestions::format_suggestions("test", &suggestions, "status");
    assert!(result.is_some());
    assert!(result.unwrap().contains("status"));

    let empty_suggestions = vec![];
    let result = suggestions::format_suggestions("test", &empty_suggestions, "status");
    assert!(result.is_none());
}

#[test]
fn suggestions_message_is_exact() {
    let suggestions = vec!["open".to_string(), "closed".to_string(), "done".to_string()];
    assert_eq!(
        suggestions::format_suggestions("x", &suggestions, "status").unwrap(),
        "🤔 Did you mean one of these statuss?\n  open, closed, done"
    );
    let one = vec!["web".to_string()];
    assert_eq!(
        suggestions::format_suggestions("x", &one, "project").unwrap(),
        "🤔 Did you mean one of these projects?\n  web"
    );
}
