use meri_bot::commands::reason::{accepted_prompt, fallback_search_analysis_prompt, no_reasoning_prompt, reason_notice_text, reasoning_search_failed, ReasonNotice, AnswerFailure, PartState, PartUpdate, reasoning_answer, SearchAdvance, SearchStream, stream_request_failure, stream_status_failure, stream_timeout_message, parse_reason_input, ReasonCommand, Reason, check_request, clear_reply, fallback_reasoning_prompt, preflight, probe_failure, complete_message, format_reasoning_answer, place_search_note, reasoning_search_prompt, analytical_summary_parts, filter_thinking_tags, process_reasoning_content, split_message};

#[test]
fn reason_test_split_message_short_content() {
    let short_content = "This is a short reasoning response that should fit in one chunk.";
    let chunks = split_message(short_content, 100);
    assert_eq!(chunks.len(), 1);
    assert_eq!(chunks[0], short_content);
}

#[test]
fn reason_test_split_message_long_content() {
    let long_content = "This is the first line of reasoning.\nThis is the second line with more details.\nThis is the third line that should be split.\nThis is the fourth line to test chunking.";
    let chunks = split_message(&long_content, 50);
    assert!(chunks.len() > 1, "Long content should be split into multiple chunks");
    for chunk in &chunks {
        assert!(chunk.len() <= 50, "Chunk exceeds maximum length: {}", chunk.len());
    }
}

#[test]
fn reason_test_split_message_single_long_line() {
    let single_long_line = "This is a very long line of reasoning that should not be split because it exceeds the maximum length but we want to keep it as one chunk for testing purposes.";
    let chunks = split_message(single_long_line, 50);
    assert_eq!(chunks.len(), 1, "Single long line should remain as one chunk");
}

#[test]
fn reason_test_split_message_empty_content() {
    let chunks = split_message("", 100);
    assert_eq!(chunks.len(), 0);
}

#[test]
fn reason_test_split_message_exact_limit() {
    let content = "This is exactly 25 characters";
    let chunks = split_message(content, 25);
    assert_eq!(chunks.len(), 1);
    assert_eq!(chunks[0], content);
}

#[test]
fn reason_test_filter_thinking_tags() {
    let content_with_tags = "Here is some content <think>This is internal thinking</think> and more content <think>More thinking</think>.";
    let filtered = filter_thinking_tags(content_with_tags);
    assert_eq!(filtered, "Here is some content  and more content .");
}

#[test]
fn test_filter_thinking_tags_no_tags() {
    let content = "This is normal content without any thinking tags.";
    let filtered = filter_thinking_tags(content);
    assert_eq!(filtered, content);
}

#[test]
fn thinking_blocks_across_lines_are_removed() {
    let filtered = filter_thinking_tags("<think>\nplan\nmore plan\n</think>\n\n  Answer: 42  \n\n");
    assert_eq!(filtered, "Answer: 42");
}

#[test]
fn unclosed_thinking_block_is_removed_to_the_end() {
    assert_eq!(filter_thinking_tags("Before <think>Unclosed thinking content..."), "Before");
    assert_eq!(filter_thinking_tags("Before <think>Think 1</think> After"), "Before  After");
    assert_eq!(filter_thinking_tags("A <think>x</think> B <think>open"), "A  B");
    assert_eq!(filter_thinking_tags("Just normal content here"), "Just normal content here");
    assert_eq!(process_reasoning_content("<think>never closed"), "The AI response appears to contain only thinking content.");
}

#[test]
fn only_thinking_gives_notice() {
    assert_eq!(
        process_reasoning_content("<think>all of it</think>"),
        "The AI response appears to contain only thinking content."
    );
    assert_eq!(process_reasoning_content("<think>x</think> yes"), "yes");
}

#[test]
fn reason_inputs_are_read() {
    let _ = Reason::new();
    let (c, a) = parse_reason_input("   ");
    assert!(c == ReasonCommand::Empty && a.is_empty());
    let (c, a) = parse_reason_input(" -s rust traits ");
    assert!(c == ReasonCommand::Search);
    assert_eq!(a, "rust traits");
    let (c, a) = parse_reason_input("--search why");
    assert!(c == ReasonCommand::Search);
    assert_eq!(a, "why");
    let (c, _) = parse_reason_input("--clear");
    assert!(c == ReasonCommand::Clear);
    let (c, _) = parse_reason_input("-c");
    assert!(c == ReasonCommand::Clear);
    let (c, a) = parse_reason_input("  what is 2+2? ");
    assert!(c == ReasonCommand::Question);
    assert_eq!(a, "what is 2+2?");
}

#[test]
fn reason_replies_and_checks() {
    assert!(clear_reply(true).starts_with("**Reasoning Context Cleared** ✅"));
    assert!(clear_reply(false).starts_with("**No Reasoning Context Found** ℹ️"));
    assert!(fallback_reasoning_prompt().starts_with("You are an advanced AI reasoning assistant."));
    assert_eq!(preflight(" ", 2, "m", "u"), Some("**Error:** System prompt configuration is invalid. Check your prompt files.".to_string()));
    assert_eq!(preflight("p", 1, "m", "u"), Some("**Error:** Failed to prepare reasoning request. Please try again.".to_string()));
    assert_eq!(preflight("p", 2, " ", "u"), Some("**Error:** Invalid reasoning model configuration. Check your lmapiconf.txt file.".to_string()));
    assert_eq!(preflight("p", 2, "m", ""), Some("**Error:** Invalid server configuration. Check your lmapiconf.txt file.".to_string()));
    assert_eq!(preflight("p", 2, "m", "u"), None);
    assert_eq!(check_request(0, "m", true, 100, "http://h").unwrap().error, "Chat request has no messages");
    assert_eq!(check_request(1, "", true, 100, "http://h").unwrap().error, "Chat request has empty model name");
    assert_eq!(check_request(1, "m", false, 100, "http://h").unwrap().error, "Invalid temperature value");
    assert_eq!(check_request(1, "m", true, 32001, "http://h").unwrap().error, "Invalid max_tokens value");
    assert_eq!(check_request(1, "m", true, 0, "http://h").unwrap().error, "Invalid max_tokens value");
    let r = check_request(1, "m", true, 100, "ftp://h").unwrap();
    assert_eq!(r.error, "Invalid API URL format");
    assert_eq!(r.shown, "**Error:** Invalid server URL configuration. Check your lmapiconf.txt file.");
    assert!(check_request(1, "m", true, 32000, "https://h").is_none());
    let p = probe_failure("http://127.0.0.1:1234", "os error 10013").unwrap();
    assert!(p.contains("instead of 127.0.0.1:1234 if running locally"));
    assert!(probe_failure("http://h", "timed out").unwrap().starts_with("Connection Timeout: Cannot reach AI server at http://h."));
    assert!(probe_failure("http://h", "connection refused").unwrap().starts_with("Connection Refused: AI server at http://h"));
    assert!(probe_failure("http://h", "500").is_none());
}

#[test]
fn reason_answers_are_framed() {
    assert!(reasoning_answer("x", false) == Err(AnswerFailure::NoContent));
    assert!(reasoning_answer("", true) == Err(AnswerFailure::ZeroCharacters));
    assert!(reasoning_answer("  \n", true) == Err(AnswerFailure::OnlyWhitespace));
    assert_eq!(AnswerFailure::OnlyWhitespace.message(), "API returned only whitespace");
    assert_eq!(reasoning_answer("<think>hmm</think>The answer is 4.", true).ok(), Some("The answer is 4.".to_string()));
    let msgs = format_reasoning_answer("short", 2000);
    assert_eq!(msgs, vec!["**Reasoning Analysis:**\n```\nshort\n```".to_string()]);
    let mut st = PartState { current_content: String::new(), message_index: 1, char_limit: 30 };
    match st.add_content("abc") {
        PartUpdate::Edit(t) => assert_eq!(t, "**Part 1:**\n```\nabc\n```"),
        _ => panic!("expected an edit"),
    }
    match st.add_content("0123456789") {
        PartUpdate::Rollover(a, b) => {
            assert_eq!(a, "**Part 1:**\n```\nabc0123456789\n```");
            assert_eq!(b, "**Part 2:**\n```\n0123456789\n```");
        }
        _ => panic!("expected a rollover"),
    }
    assert_eq!(st.message_index, 2);
    assert_eq!(complete_message(1, "x"), "**Complete**\n```\nx\n```");
    assert_eq!(complete_message(3, "x"), "**Complete (Part 3/3)**\n```\nx\n```");
    assert!(reasoning_search_prompt("q", "S").starts_with("User's search query: q\n\nSources to analyze:\nS\n\nProvide a VERY CONCISE analytical response"));
    assert_eq!(place_search_note("a", "q"), Ok("a\n\n---\n*Reasoning Search: q*".to_string()));
    let long = "x".repeat(1990);
    assert_eq!(place_search_note(&long, "q"), Err("\n\n---\n*Reasoning Search: q*".to_string()));
}

#[test]
fn analytical_summaries_are_posted_in_parts() {
    assert_eq!(analytical_summary_parts("   ", 1, 10), Some(vec![]));
    assert_eq!(analytical_summary_parts("short", 3, 10), Some(vec!["**Analytical Summary (Part 3):**\n\nshort".to_string()]));
    assert_eq!(
        analytical_summary_parts("One. Two three four", 1, 10),
        Some(vec![
            "**Analytical Summary (Part 1):**\n\nOne.".to_string(),
            "**Analytical Summary (Part 2):**\n\n Two".to_string(),
            "**Analytical Summary (Part 3):**\n\n three".to_string(),
            "**Analytical Summary (Part 4):**\n\n four".to_string(),
        ])
    );
    assert_eq!(
        analytical_summary_parts("abcdefghijkl", 1, 5),
        Some(vec![
            "**Analytical Summary (Part 1):**\n\nabcde".to_string(),
            "**Analytical Summary (Part 2):**\n\nfghij".to_string(),
            "**Analytical Summary (Part 3):**\n\nkl".to_string(),
        ])
    );
    // The only space within the limit opens the rest: the posting never ends.
    assert_eq!(analytical_summary_parts("aaa bbbbbbbb", 1, 5), None);
    // The limit falls inside a character.
    assert_eq!(analytical_summary_parts("ééééé", 1, 3), None);
}

#[test]
fn streamed_parts_are_finalized() {
    // Processing never leaves a blank answer: an all-thinking reply gets a note.
    assert_eq!(reasoning_answer("<think>only</think>", true).ok(), Some("The AI response appears to contain only thinking content.".to_string()));
    assert_eq!(AnswerFailure::FilteredOut.shown_text(), Some("**Error:** AI response was filtered out completely. Please try again.".to_string()));
    assert_eq!(AnswerFailure::NoContent.shown_text(), None);
    let mut st = PartState { current_content: String::new(), message_index: 1, char_limit: 100 };
    assert!(st.finalize("").is_err());
    let (u, t) = st.finalize("done").unwrap();
    assert!(matches!(u, Some(PartUpdate::Edit(_))));
    assert_eq!(t, Some("**Complete**\n```\ndone\n```".to_string()));
    let (u, t) = st.finalize("  ").unwrap();
    assert!(u.is_none());
    assert_eq!(t, Some("**Complete**\n```\ndone\n```".to_string()));
}

#[test]
fn search_stream_posts_filtered_text() {
    let mut s = SearchStream { raw: String::new(), filtered: String::new(), char_limit: 10 };
    assert!(matches!(s.add_delta("Hel"), Some(SearchAdvance::Wait)));
    assert!(matches!(s.add_delta("lo wor"), Some(SearchAdvance::Wait)));
    assert_eq!(s.filtered, "Hello wor");
    match s.add_delta("ld") {
        Some(SearchAdvance::Post(t)) => assert_eq!(t, "Hello world"),
        _ => panic!("expected a post"),
    }
    assert_eq!(s.filtered, "");
    assert_eq!(s.leftover(), Some("Hello world".to_string()));
    // A think block that is still open shows nothing until it closes.
    let mut t = SearchStream { raw: String::new(), filtered: String::new(), char_limit: 100 };
    assert!(matches!(t.add_delta("<think>x"), Some(SearchAdvance::Wait)));
    assert_eq!(t.filtered, "");
    assert!(matches!(t.add_delta("</think>Hi"), Some(SearchAdvance::Wait)));
    assert_eq!(t.filtered, "Hi");
    assert!(stream_request_failure("http://h/v1/chat/completions", "http://h", "timed out").starts_with("Request Timeout: The AI server at http://h took"));
    assert_eq!(stream_request_failure("u", "b", "x"), "Streaming API request to u failed: x");
    assert_eq!(stream_status_failure("500 Internal Server Error", "e"), "Streaming API request failed: HTTP 500 Internal Server Error - e");
    assert_eq!(stream_timeout_message(), "Streaming timeout - no content received from AI server");
}

#[test]
fn reason_notices() {
    assert_eq!(reason_notice_text(&ReasonNotice::Reasoning), "🤔 **AI is reasoning...**");
    assert!(reason_notice_text(&ReasonNotice::ConfigError("e".to_string())).starts_with("LM Studio configuration error: e\n\nMake sure"));
    assert_eq!(reasoning_search_failed("q", "e"), "**Reasoning Search Failed**\n\nQuery: `q`\nError: e\n\nCheck your SerpAPI configuration in lmapiconf.txt");
}

#[test]
fn reasoning_prompt_files_are_checked() {
    assert_eq!(accepted_prompt("\u{feff}  short  "), None);
    let long = "x".repeat(50);
    assert_eq!(accepted_prompt(&format!("\u{feff}\n{}\n", long)), Some(long.clone()));
    assert_eq!(accepted_prompt(&"y".repeat(49)), None);
    let m = no_reasoning_prompt(&vec!["a.txt".to_string(), "b.txt".to_string()]);
    assert!(m.starts_with("No valid reasoning prompt file found in any expected location.\n\nAttempted paths:\na.txt\nb.txt\n\nPlease ensure"));
    assert!(fallback_search_analysis_prompt().starts_with("You are an expert analytical reasoner."));
}
