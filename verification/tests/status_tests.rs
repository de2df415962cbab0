use nexus_cli::status::{
    clean_http_error_message, determine_event_type, format_status_with_emoji, get_event_emoji,
    EventType,
};

#[test]
fn test_event_type_detection() {
    assert_eq!(determine_event_type("Success"), EventType::Success);
    assert_eq!(determine_event_type("completed successfully"), EventType::Success);
    assert_eq!(determine_event_type("Proof submitted"), EventType::Success);

    assert_eq!(determine_event_type("Error"), EventType::Error);
    assert_eq!(determine_event_type("Failed"), EventType::Error);
    assert_eq!(determine_event_type("error"), EventType::Error);

    assert_eq!(determine_event_type("Shutdown"), EventType::Shutdown);
    assert_eq!(determine_event_type("Stopped"), EventType::Shutdown);

    assert_eq!(determine_event_type("Fetching tasks"), EventType::Refresh);
    assert_eq!(determine_event_type("Running"), EventType::Refresh);
}

#[test]
fn test_emoji_formatting() {
    let success_msg = format_status_with_emoji("Success: Task completed");
    assert!(success_msg.contains("✅"));
    assert!(success_msg.contains("Success: Task completed"));

    let error_msg = format_status_with_emoji("Error: Failed to fetch tasks");
    assert!(error_msg.contains("❌"));
    assert!(error_msg.contains("Error: Failed to fetch tasks"));

    let refresh_msg = format_status_with_emoji("Fetching tasks...");
    assert!(refresh_msg.contains("🔄"));
    assert!(refresh_msg.contains("Fetching tasks..."));

    let shutdown_msg = format_status_with_emoji("Shutdown");
    assert!(shutdown_msg.contains("🔴"));
    assert!(shutdown_msg.contains("Shutdown"));
}

#[test]
fn test_http_error_cleaning() {
    let http_502 = clean_http_error_message("error sending request for url (https://beta.orchestrator.nexus.xyz/v3/tasks/12896956), status 502: <html>502 Bad Gateway</html>");
    assert_eq!(http_502, "❌ HTTP 502 Bad Gateway");

    let http_503 = clean_http_error_message("status 503: <!DOCTYPE html>503 Service Unavailable</html>");
    assert_eq!(http_503, "❌ HTTP 503 Service Unavailable");

    let http_429 = clean_http_error_message("status 429: <html>429 Too Many Requests</html>");
    assert_eq!(http_429, "⏳ HTTP 429 Rate Limited");

    let normal_error = clean_http_error_message("Failed to fetch tasks: Network error");
    assert_eq!(normal_error, "Failed to fetch tasks: Network error");
}

#[test]
fn success_markers_win_over_error_markers() {
    assert_eq!(determine_event_type("Successfully submitted after an error"), EventType::Success);
    assert_eq!(determine_event_type("Stopped after failed fetch"), EventType::Error);
}

#[test]
fn emoji_per_event_type() {
    assert_eq!(get_event_emoji(&EventType::Success), "✅");
    assert_eq!(get_event_emoji(&EventType::Error), "❌");
    assert_eq!(get_event_emoji(&EventType::Refresh), "🔄");
    assert_eq!(get_event_emoji(&EventType::Shutdown), "🔴");
}

#[test]
fn html_error_pages_by_status_code() {
    assert_eq!(clean_http_error_message("<html>504</html>"), "❌ HTTP 504 Gateway Timeout");
    assert_eq!(
        clean_http_error_message("<html>500 oops</html>"),
        "❌ HTTP 500 Internal Server Error"
    );
    assert_eq!(
        clean_http_error_message("<!DOCTYPE html><p>teapot</p>"),
        "❌ HTTP Error (server returned HTML)"
    );
    // 502 is looked for before 503
    assert_eq!(clean_http_error_message("<html>503 502</html>"), "❌ HTTP 502 Bad Gateway");
}

#[test]
fn status_messages_are_cut_at_the_colon() {
    assert_eq!(
        clean_http_error_message("Failed to fetch tasks: error request for url, status 502: bad"),
        "❌ error request for url, status 502"
    );
    assert_eq!(
        clean_http_error_message("request failed with status 404: not found"),
        "❌ HTTP status 404"
    );
    // no colon: cut before '<'
    assert_eq!(clean_http_error_message("Error status 500<br>"), "❌ Error status 500");
    // neither mark after "status ": kept
    assert_eq!(clean_http_error_message("status 200 ok"), "status 200 ok");
}

#[test]
fn cleaned_messages_are_not_prefixed_again() {
    assert_eq!(
        format_status_with_emoji("status 429: <html>slow down</html>"),
        "⏳ HTTP 429 Rate Limited"
    );
    assert_eq!(format_status_with_emoji("Running"), "🔄 Running");
    assert_eq!(format_status_with_emoji("Proof submitted"), "✅ Proof submitted");
}
