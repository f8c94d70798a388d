use meri_bot::commands::lm::{connection_ok_text, lm_notice_text, LmNotice, api_error_message, check_vision_attachment, clean_prompt_text, format_chat_answer, format_model_list, format_part_message, init_logging, parse_lm_input, split_message, usage_reply, LmCommand};

#[test]
fn lm_test_split_message_short_content() {
    let short_content = "This is a short message that should fit in one chunk.";
    let chunks = split_message(short_content, 100);
    assert_eq!(chunks.len(), 1);
    assert_eq!(chunks[0], short_content);
}

#[test]
fn lm_test_split_message_long_content() {
    let long_content = "This is the first line.\nThis is the second line.\nThis is the third line that should be split.\nThis is the fourth line to test chunking.";
    let chunks = split_message(&long_content, 50);
    assert!(chunks.len() > 1, "Long content should be split into multiple chunks");
    for chunk in &chunks {
        assert!(chunk.len() <= 50, "Chunk exceeds maximum length: {}", chunk.len());
    }
}

#[test]
fn lm_test_split_message_single_long_line() {
    let single_long_line = "This is a very long line that should not be split because it exceeds the maximum length but we want to keep it as one chunk for testing purposes.";
    let chunks = split_message(single_long_line, 50);
    assert_eq!(chunks.len(), 1, "Single long line should remain as one chunk");
}

#[test]
fn lm_test_split_message_empty_content() {
    let chunks = split_message("", 100);
    assert_eq!(chunks.len(), 0);
}

#[test]
fn lm_test_split_message_exact_limit() {
    let content = "This is exactly 25 characters";
    let chunks = split_message(content, 25);
    assert_eq!(chunks.len(), 1);
    assert_eq!(chunks[0], content);
}

#[test]
fn split_message_packs_lines_greedily() {
    let chunks = split_message("aa\nbb\ncc", 5);
    assert_eq!(chunks, vec!["aa\nbb".to_string(), "cc".to_string()]);
}

#[test]
fn split_message_drops_carriage_returns_and_final_newline() {
    let chunks = split_message("one\r\ntwo\n", 100);
    assert_eq!(chunks, vec!["one\ntwo".to_string()]);
}

#[test]
fn split_message_counts_bytes_not_characters() {
    // "é" takes two bytes, so "éé\néé" is 9 bytes long.
    let chunks = split_message("éé\néé", 8);
    assert_eq!(chunks, vec!["éé".to_string(), "éé".to_string()]);
}

#[test]
fn parse_lm_input_reads_flags() {
    assert!(parse_lm_input("   ").0 == LmCommand::Empty);
    assert!(parse_lm_input(" --test ").0 == LmCommand::ConnectivityTest);
    assert!(parse_lm_input("-c").0 == LmCommand::ClearContext);
    assert!(parse_lm_input("-models").0 == LmCommand::ListModels);
    let (c, q) = parse_lm_input("-s rust verification");
    assert!(c == LmCommand::Search);
    assert_eq!(q, "rust verification");
    let (c, q) = parse_lm_input("--search  weather");
    assert!(c == LmCommand::Search);
    assert_eq!(q, " weather");
    let (c, p) = parse_lm_input("-s    ");
    assert!(c == LmCommand::Chat);
    assert_eq!(p, "-s");
    assert!(parse_lm_input("--vision    .").0 == LmCommand::Vision);
    let (c, p) = parse_lm_input("  hello there  ");
    assert!(c == LmCommand::Chat);
    assert_eq!(p, "hello there");
}

#[test]
fn parse_lm_input_missing_query() {
    // A flag followed only by whitespace trims down to the bare flag, which
    // is read as a chat prompt.
    assert!(parse_lm_input("--search \t").0 == LmCommand::Chat);
    assert!(parse_lm_input("-v  \u{a0}").0 == LmCommand::Chat);
    assert_eq!(
        usage_reply(LmCommand::MissingVisionPrompt).unwrap(),
        "Please provide a prompt for vision analysis! Usage: `^lm -v <prompt>` with image attached."
    );
    assert!(usage_reply(LmCommand::Chat).is_none());
}

#[test]
fn vision_attachment_checks() {
    assert_eq!(check_vision_attachment(false, None).unwrap(), "Please attach an image for vision analysis!");
    assert_eq!(check_vision_attachment(true, Some("text/plain")).unwrap(), "Please attach a valid image file!");
    assert_eq!(check_vision_attachment(true, None).unwrap(), "Please attach a valid image file!");
    assert!(check_vision_attachment(true, Some("image/png")).is_none());
}

#[test]
fn prompt_text_loses_bom_and_blanks() {
    assert_eq!(clean_prompt_text("\u{feff}  You are helpful.\n"), "You are helpful.");
}

#[test]
fn api_errors_are_explained() {
    assert_eq!(
        api_error_message("m1", "404 Not Found", "error: model_not_found"),
        "Model 'm1' is not loaded in LM Studio. Please load the model and try again."
    );
    assert_eq!(api_error_message("m1", "500", "boom"), "API error: 500 - boom");
}

#[test]
fn chat_answers_are_framed() {
    let one = format_chat_answer("hello", 100);
    assert_eq!(one, vec!["**AI Response:**\n```\nhello\n```".to_string()]);
    let two = format_chat_answer("aaa\nbbb", 4);
    assert_eq!(
        two,
        vec![
            "**AI Response (Part 1/2)**\n```\naaa\n```".to_string(),
            "**AI Response (Part 2/2)**\n```\nbbb\n```".to_string()
        ]
    );
}

#[test]
fn model_list_marks_configured_model() {
    let ids = vec![Some("a".to_string()), None, Some("b".to_string())];
    let text = format_model_list(&ids, "b", "http://x");
    assert_eq!(
        text,
        "**Available Models** 📋\n\n1. ⚪ a\n3. ✅ **CONFIGURED** b\n\n**Current Configuration:**\n• Default Model: `b`\n• Server: `http://x`"
    );
}

#[test]
fn part_messages_are_numbered() {
    assert_eq!(format_part_message(12, "x"), "**Part 12:**\n```\nx\n```");
}

#[test]
fn logging_setup_succeeds() {
    assert!(init_logging().is_ok());
}

#[test]
fn lm_notices() {
    assert_eq!(lm_notice_text(&LmNotice::AskPrompt), "Please provide a prompt! Usage: `^lm <your prompt>`");
    assert_eq!(lm_notice_text(&LmNotice::Failed("boom".to_string())), "❌ Error: boom");
    assert_eq!(lm_notice_text(&LmNotice::ConnectionFailed("x".to_string())), "❌ **Connection Failed**\n\nError: x");
}

#[test]
fn connection_success_report() {
    assert_eq!(
        connection_ok_text("http://localhost:1234", "qwen", "0.7", 2000),
        "✅ **Connection Successful**\n\n**Server:** http://localhost:1234\n**Model:** qwen\n**Temperature:** 0.7\n**Max Tokens:** 2000"
    );
}
