use lticket::validation::{
    format_validation_error, validate_content_length, validate_project_name, validate_status,
    validate_ticket_id, validate_time, ContentType, ValidationError,
};

#[test]
fn test_ticket_id_validation() {
    assert!(validate_ticket_id("1").is_ok());
    assert!(validate_ticket_id("123").is_ok());
    assert_eq!(validate_ticket_id("1").unwrap(), 1);

    assert!(validate_ticket_id("abc").is_err());
    assert!(validate_ticket_id("0").is_err());
    assert!(validate_ticket_id("-1").is_err());
    assert!(validate_ticket_id("").is_err());
}

#[test]
fn test_project_name_validation() {
    assert!(validate_project_name("valid-project").is_ok());
    assert!(validate_project_name("my_project").is_ok());
    assert!(validate_project_name("project123").is_ok());
    assert!(validate_project_name("a").is_ok());

    assert!(validate_project_name("invalid project!").is_err());
    assert!(validate_project_name("project with spaces").is_err());
    assert!(validate_project_name("project@home").is_err());
    assert!(validate_project_name("").is_err());
    assert!(validate_project_name(&"a".repeat(51)).is_err());
}

#[test]
fn validation_test_time_validation() {
    assert!(validate_time(0, 0).is_ok());
    assert!(validate_time(24, 59).is_ok());
    assert!(validate_time(8, 30).is_ok());

    assert!(validate_time(-1, 0).is_err());
    assert!(validate_time(25, 0).is_err());
    assert!(validate_time(0, -1).is_err());
    assert!(validate_time(0, 60).is_err());
}

#[test]
fn test_status_validation() {
    assert!(validate_status("open").is_ok());
    assert!(validate_status("in-progress").is_ok());
    assert!(validate_status("testing").is_ok());
    assert!(validate_status("blocked").is_ok());
    assert!(validate_status("closed").is_ok());
    assert!(validate_status("cancelled").is_ok());

    assert!(validate_status("OPEN").is_ok());
    assert!(validate_status("In-Progress").is_ok());

    assert!(validate_status("invalid").is_err());
    assert!(validate_status("").is_err());
}

#[test]
fn validation_test_content_length_validation() {
    assert!(validate_content_length("Valid name", ContentType::TicketName).is_ok());
    assert!(validate_content_length("Valid description", ContentType::Description).is_ok());
    assert!(validate_content_length("Valid comment", ContentType::Comment).is_ok());

    assert!(validate_content_length("", ContentType::TicketName).is_err());
    assert!(validate_content_length("", ContentType::Description).is_err());
    assert!(validate_content_length("", ContentType::Comment).is_err());

    assert!(validate_content_length(&"a".repeat(101), ContentType::TicketName).is_err());
    assert!(validate_content_length(&"a".repeat(2001), ContentType::Description).is_err());
    assert!(validate_content_length(&"a".repeat(1001), ContentType::Comment).is_err());
}

#[test]
fn test_error_formatting() {
    let error = ValidationError::InvalidTicketId("abc".to_string());
    let formatted = format_validation_error(&error);
    assert!(formatted.contains("❌ Error:"));
    assert!(formatted.contains("💡 Example:"));

    let error = ValidationError::InvalidProjectName("bad name!".to_string());
    let formatted = format_validation_error(&error);
    assert!(formatted.contains("❌ Error:"));
    assert!(formatted.contains("💡 Example:"));
}

#[test]
fn validation_test_status_suggestions() {
    let error = validate_status("opne").unwrap_err();
    let formatted = format_validation_error(&error);
    assert!(formatted.contains("💡 Did you mean"));

    let error = validate_status("completely_wrong").unwrap_err();
    let formatted = format_validation_error(&error);
    assert!(formatted.contains("💡 Valid statuses"));
}

#[test]
fn ticket_id_accepts_every_positive_integer_form() {
    assert_eq!(validate_ticket_id("42").unwrap(), 42);
    assert_eq!(validate_ticket_id("+7").unwrap(), 7);
    assert_eq!(validate_ticket_id("007").unwrap(), 7);
    assert_eq!(validate_ticket_id("9223372036854775807").unwrap(), i64::MAX);
    assert!(validate_ticket_id("9223372036854775808").is_err());
    assert!(validate_ticket_id("-0").is_err());
    assert!(validate_ticket_id("1.0").is_err());
    assert!(validate_ticket_id(" 1").is_err());
    assert!(validate_ticket_id("+").is_err());
    match validate_ticket_id("x1") {
        Err(ValidationError::InvalidTicketId(s)) => assert_eq!(s, "x1"),
        other => panic!("unexpected {:?}", other),
    }
}

#[test]
fn project_name_edges() {
    assert!(validate_project_name(&"a".repeat(50)).is_ok());
    assert_eq!(validate_project_name("A-b_9").unwrap(), "A-b_9");
    assert!(validate_project_name("proj\n").is_err());
    assert!(validate_project_name("é").is_err());
    match validate_project_name("bad name!") {
        Err(ValidationError::InvalidProjectName(s)) => assert_eq!(s, "bad name!"),
        other => panic!("unexpected {:?}", other),
    }
}

#[test]
fn time_error_carries_the_values() {
    match validate_time(25, -3) {
        Err(ValidationError::InvalidTime(s)) => assert_eq!(s, "25h -3m"),
        other => panic!("unexpected {:?}", other),
    }
    assert_eq!(validate_time(24, 59).unwrap(), (24, 59));
}

#[test]
fn comment_length_boundaries() {
    assert!(validate_content_length("", ContentType::Comment).is_err());
    assert!(validate_content_length(&"a".repeat(1000), ContentType::Comment).is_ok());
    assert!(validate_content_length(&"a".repeat(1001), ContentType::Comment).is_err());
    match validate_content_length(&"a".repeat(1001), ContentType::Comment) {
        Err(ValidationError::InvalidContentLength { field_type, min, max }) => {
            assert_eq!(field_type, "comment");
            assert_eq!((min, max), (1, 1000));
        }
        other => panic!("unexpected {:?}", other),
    }
}

#[test]
fn content_length_counts_characters_not_bytes() {
    let text = "é".repeat(1000);
    assert_eq!(text.len(), 2000);
    assert!(validate_content_length(&text, ContentType::Comment).is_ok());
    assert!(validate_content_length(&"日".repeat(100), ContentType::TicketName).is_ok());
    assert!(validate_content_length(&"日".repeat(101), ContentType::TicketName).is_err());
}

#[test]
fn status_is_canonicalized() {
    assert_eq!(validate_status("OPEN").unwrap(), "open");
    assert_eq!(validate_status("In-Progress").unwrap(), "in-progress");
    match validate_status("whatever") {
        Err(ValidationError::InvalidStatus(s)) => assert_eq!(s, "whatever"),
        other => panic!("unexpected {:?}", other),
    }
    assert!(validate_status("done").is_err());
}

#[test]
fn content_type_limits_and_names() {
    assert_eq!(ContentType::TicketName.limits(), (1, 100));
    assert_eq!(ContentType::Description.limits(), (1, 2000));
    assert_eq!(ContentType::Comment.limits(), (1, 1000));
    assert_eq!(ContentType::TicketName.name(), "ticket name");
    assert_eq!(ContentType::Description.name(), "description");
    assert_eq!(ContentType::Comment.name(), "comment");
}

#[test]
fn error_messages_are_exact() {
    assert_eq!(
        format_validation_error(&ValidationError::TicketNotFound(123)),
        "❌ Error: Ticket #123 not found."
    );
    assert_eq!(
        format_validation_error(&ValidationError::TicketNotFound(-5)),
        "❌ Error: Ticket #-5 not found."
    );
    assert_eq!(
        format_validation_error(&ValidationError::InvalidContentLength {
            field_type: "comment".to_string(),
            min: 1,
            max: 1000,
        }),
        "❌ Error: Invalid comment length. comment must be between 1 and 1000 characters."
    );
    assert_eq!(
        format_validation_error(&ValidationError::InvalidTime("25h 0m".to_string())),
        "❌ Error: Invalid time value '25h 0m'. Hours must be 0-24, minutes must be 0-59.\n💡 Example: ltm log 1 --hours 2 --minutes 30"
    );
    assert_eq!(
        format_validation_error(&ValidationError::InvalidStatus("opne".to_string())),
        "❌ Error: Invalid status 'opne'. Must be one of: open, in-progress, testing, blocked, closed, cancelled.\n💡 Did you mean: ltm status 1 open"
    );
    assert_eq!(
        format_validation_error(&ValidationError::InvalidStatus("blokced".to_string())),
        "❌ Error: Invalid status 'blokced'. Must be one of: open, in-progress, testing, blocked, closed, cancelled.\n💡 Did you mean: ltm status 1 blocked"
    );
}
