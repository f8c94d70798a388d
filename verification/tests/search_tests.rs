use meri_bot::commands::search::{connectivity_test_failed, search_analysis_prompt, search_progress_text, invalid_response_message, unexpected_format_message, endpoint_status_failure, endpoint_unreachable, unreachable_server, attempts_exhausted, looks_like_fallback, next_chat_step, ChatFailure, ChatStep, format_search_results, multi_search, search_reply, search_user_prompt, SearchResult};
use meri_bot::streaming::{chunk_budget, classify_stream_line, frame_chunks, LineBuffer, StreamLine};

#[test]
fn search_finds_nothing_without_provider() {
    assert!(multi_search("anything").is_empty());
}

#[test]
fn results_are_numbered() {
    let results = vec![
        SearchResult { title: "T1".to_string(), link: "http://a".to_string(), snippet: "s1".to_string() },
        SearchResult { title: "T2".to_string(), link: "http://b".to_string(), snippet: String::new() },
    ];
    assert_eq!(
        format_search_results(&results),
        "Source 1: T1\nURL: http://a\nContent: s1\n\nSource 2: T2\nURL: http://b\nContent: No content preview available\n\n"
    );
    assert!(search_user_prompt("q", "R").starts_with("User's search query: q\n\nSources to analyze:\nR\n\nProvide a VERY CONCISE summary"));
}

#[test]
fn search_replies() {
    assert_eq!(search_reply("m", "q", "answer"), "**AI-Enhanced Search Results**\n\nanswer\n\n---\n*Search query: q*");
    assert!(search_reply("m", "q", "using fallback").starts_with("❌ **AI-Enhanced Search Failed**\n\n**Issue:** The AI model `m` appears"));
}

#[test]
fn stream_lines_are_buffered() {
    let mut b = LineBuffer::new();
    b.push_text("data: {\"a\":1}\r\nda");
    assert_eq!(b.next_line(), Some("data: {\"a\":1}".to_string()));
    assert_eq!(b.next_line(), None);
    b.push_text("ta: [DONE] \n");
    let line = b.next_line().unwrap();
    assert!(matches!(classify_stream_line(&line), StreamLine::Done));
    assert!(matches!(classify_stream_line(": ping"), StreamLine::Other));
    match classify_stream_line("data: {}") {
        StreamLine::Data(p) => assert_eq!(p, "{}"),
        _ => panic!("expected data"),
    }
}

#[test]
fn chunks_are_framed() {
    assert_eq!(chunk_budget(2000, 100), 1900);
    let one = frame_chunks("T", &vec!["a".to_string()]);
    assert_eq!(one, vec!["**T:**\n```\na\n```".to_string()]);
    let two = frame_chunks("T", &vec!["a".to_string(), "b".to_string()]);
    assert_eq!(two[1], "**T (Part 2/2)**\n```\nb\n```");
}

#[test]
fn chat_failures_are_retried_or_explained() {
    match next_chat_step(2, 3, ChatFailure::Send("operation timeout".to_string()), "http://h", "m", "http://h/v1") {
        ChatStep::Retry(d, e) => {
            assert_eq!(d, 2000);
            assert_eq!(e, "operation timeout");
        }
        _ => panic!("expected a retry"),
    }
    match next_chat_step(3, 3, ChatFailure::Send("operation timeout".to_string()), "http://h", "m", "u") {
        ChatStep::Fail(e) => assert_eq!(e, "API request failed: operation timeout"),
        _ => panic!("expected a failure"),
    }
    match next_chat_step(1, 3, ChatFailure::Send("connection refused".to_string()), "http://h", "m", "u") {
        ChatStep::Fail(e) => assert!(e.starts_with("🚫 **Connection Refused**") && e.ends_with("**Current URL:** http://h\n**Error:** connection refused")),
        _ => panic!("expected a failure"),
    }
    match next_chat_step(1, 3, ChatFailure::Status(503, "503 Service Unavailable".to_string(), "busy".to_string()), "h", "m", "u") {
        ChatStep::Retry(d, e) => {
            assert_eq!(d, 1000);
            assert_eq!(e, "HTTP 503 Service Unavailable - busy");
        }
        _ => panic!("expected a retry"),
    }
    match next_chat_step(1, 3, ChatFailure::Status(404, "404 Not Found".to_string(), "no".to_string()), "h", "mod", "http://api") {
        ChatStep::Fail(e) => {
            assert!(e.starts_with("🚫 **API Error (HTTP 404 Not Found)**\n\n**Response:** no"));
            assert!(e.contains("model 'mod' is loaded"));
            assert!(e.ends_with("**API URL:** http://api"));
        }
        _ => panic!("expected a failure"),
    }
    match next_chat_step(3, 3, ChatFailure::Read("eof".to_string()), "h", "m", "u") {
        ChatStep::Fail(e) => assert_eq!(e, "Failed to read response: eof"),
        _ => panic!("expected a failure"),
    }
    assert_eq!(attempts_exhausted(3, None), "Request failed after 3 attempts. Last error: Unknown error");
    assert_eq!(attempts_exhausted(12, Some("x".to_string())), "Request failed after 12 attempts. Last error: x");
    assert!(looks_like_fallback("Search functionality is not available here"));
    assert!(!looks_like_fallback("a real answer"));
}

#[test]
fn connectivity_failures_are_explained() {
    let base = "http://localhost:1234";
    assert!(unreachable_server(base, "os error 10013").starts_with("🚫 **Windows Network Permission Error (10013)**\n\nCannot connect to LM Studio at `http://localhost:1234`"));
    assert!(unreachable_server(base, "operation timed out").starts_with("⏰ **Connection Timeout**"));
    assert!(unreachable_server(base, "connection refused").starts_with("🚫 **Connection Refused**"));
    assert!(unreachable_server(base, "dns error").starts_with("🌐 **DNS Resolution Error**"));
    let other = unreachable_server(base, "weird");
    assert!(other.starts_with("🔗 **Connection Error**"));
    assert!(other.ends_with("**Original error:** weird"));
    let api = "http://localhost:1234/v1/chat/completions";
    assert_eq!(endpoint_status_failure(200, "200 OK", "", api, base), None);
    assert_eq!(endpoint_status_failure(422, "422 Unprocessable Entity", "", api, base), None);
    let missing = endpoint_status_failure(404, "404 Not Found", "", api, base).unwrap();
    assert!(missing.starts_with("🚫 **API Endpoint Not Found (404)**\n\nThe endpoint `http://localhost:1234/v1/chat/completions` was not found"));
    assert!(missing.ends_with("**Current URL:** http://localhost:1234"));
    let broken = endpoint_status_failure(500, "500 Internal Server Error", "oops", api, base).unwrap();
    assert!(broken.starts_with("🚫 **API Error (HTTP 500 Internal Server Error)**\n\nLM Studio API returned an error\n\n**Response:** oops"));
    assert!(endpoint_unreachable(base, "reset").ends_with("**Error:** reset"));
}

#[test]
fn unreadable_completions_are_explained() {
    let long = "a".repeat(600);
    let m = invalid_response_message(&long, "expected value");
    assert!(m.contains(&format!("**Response:** {}\n**Parse Error:** expected value", "a".repeat(500))));
    assert!(!m.contains(&"a".repeat(501)));
    assert!(unexpected_format_message("{}").contains("**Response:** {}\n\n**Solutions:**"));
}

#[test]
fn search_analysis_texts() {
    assert!(search_analysis_prompt().starts_with("You are an expert research analyst."));
    assert_eq!(search_progress_text(false), "Searching with your exact query...");
    assert_eq!(search_progress_text(true), "Analyzing search results with AI...");
}

#[test]
fn failed_probe_after_loading_is_reported() {
    assert_eq!(
        connectivity_test_failed("lmapiconf.txt", "down", "http://h:1", "m", 30),
        "❌ **Connectivity Test Failed**\n\nConfiguration loaded successfully from `lmapiconf.txt`, but connectivity test failed:\n\ndown\n\n**Config Details:**\n• Base URL: http://h:1\n• Default Model: m\n• Timeout: 30s"
    );
}
