use meri_bot::commands::agent::ToolArguments;
use meri_bot::commands::agent_progress::{args_progress, call_progress, call_started_text, code_preview, completion_text, description_preview, js_progress, replace_function_block, SegmentBuffer, CallStream, DeltaStep};

#[test]
fn code_is_read_from_partial_arguments() {
    assert_eq!(code_preview(r#"{"code":"let x = 1;\nx","description":"demo"}"#), Some("let x = 1;\nx".to_string()));
    assert_eq!(code_preview(r#"{"code": "a \"q\" b"#), Some("a \"q\" b".to_string()));
    assert_eq!(code_preview("{'code':'x'}"), Some("x".to_string()));
    assert_eq!(code_preview(r#"{"code":""}"#), Some(String::new()));
    let plain = "function f() { return 1; } and more text to pass fifty bytes";
    assert_eq!(code_preview(plain), Some(plain.to_string()));
    assert_eq!(code_preview("short"), Some(String::new()));
    // The scan counts characters, the cut counts bytes: the code comes out
    // short, or the cut would split `é`.
    assert_eq!(code_preview(r#"{"code":"éa"}"#), Some("é".to_string()));
    assert_eq!(code_preview(r#"{"code":"aé"}"#), None);
    assert_eq!(description_preview(r#"{"description": "draws", "code":"x"}"#), "draws");
    assert_eq!(description_preview(r#"{"description":"open"#), "");
}

#[test]
fn progress_is_shown_per_call() {
    assert_eq!(args_progress(250), "📊 **Progress:** ██ (250 chars)\n📋 **Building function arguments...**\n");
    assert_eq!(args_progress(99999).matches('█').count(), 20);
    let p = js_progress(r#"{"code":"console.log('hello world, this is code');","description":"greet"}"#).unwrap();
    assert!(p.starts_with("📊 **Status:** Streaming JavaScript code...\n📝 **Description:** greet\n📈 **Progress:** "));
    let p = js_progress(r#"{"co"#).unwrap();
    assert!(p.starts_with("📊 **Status:** Receiving JavaScript arguments...\n📝 **Description:** JavaScript execution\n📈 **Progress:** 4 chars received"));
    assert_eq!(call_started_text("f"), "\n🔧 **Function Call:** f\n📝 **Status:** Receiving arguments via SSE stream...\n");
    let buffer = format!("intro{}{}", call_started_text("a"), call_started_text("b"));
    let updated = replace_function_block(&buffer, "a", "X");
    assert_eq!(updated, format!("intro\n🔧 **Function Call:** a\nX{}", call_started_text("b")));
    let updated = replace_function_block(&buffer, "b", "Y");
    assert_eq!(updated, format!("intro{}\n🔧 **Function Call:** b\nY", call_started_text("a")));
    let shown = call_progress(&buffer, "b", "{\"x\":1}").unwrap();
    assert!(shown.ends_with("🔧 **Function Call:** b\n📊 **Progress:**  (7 chars)\n📋 **Building function arguments...**\n"));
}

#[test]
fn completed_calls_are_summarised() {
    let args = ToolArguments {
        is_object: true,
        code: Some("a\nb".to_string()),
        expression: None,
        text: None,
        operation: None,
        data: None,
        analysis_type: None,
        description: None,
    };
    let t = completion_text("execute_js_code", &Some(args), 30);
    assert!(t.starts_with("✅ **Status:** JavaScript code ready for execution\n📝 **Description:** JavaScript execution\n📊 **Code Stats:** 3 chars, 2 lines"));
    assert_eq!(
        completion_text("calculate_math", &None, 12),
        "✅ **Status:** Arguments received successfully\n📊 **Total Size:** 12 characters\n🚀 **Ready for execution**\n"
    );
    let mut b = SegmentBuffer { text: String::new(), limit: 5 };
    b.push("abc");
    assert_eq!(b.end_of_chunk(), None);
    b.push("def");
    assert_eq!(b.end_of_chunk(), Some(6));
    assert_eq!(b.text, "");
}

#[test]
fn call_stream_announces_a_call_once() {
    let mut stream = CallStream::new(1800);
    assert!(matches!(stream.tool_delta(0, Some("calculate_math"), None), DeltaStep::Taken(None)));
    assert!(matches!(stream.tool_delta(0, Some("calculate_math"), None), DeltaStep::Taken(None)));
    assert_eq!(stream.calls.len(), 1);
    assert_eq!(stream.calls[0].index, 0);
    assert_eq!(stream.calls[0].name, "calculate_math");
    assert_eq!(stream.calls[0].arguments, "");
    assert_eq!(
        stream.segment.text,
        "\n🔧 **Function Call:** calculate_math\n📝 **Status:** Receiving arguments via SSE stream...\n"
    );
}

#[test]
fn call_stream_collects_arguments_and_shows_progress() {
    let mut stream = CallStream::new(1800);
    stream.tool_delta(3, Some("calculate_math"), None);
    assert!(matches!(stream.tool_delta(3, None, Some("{\"expression\"")), DeltaStep::Taken(None)));
    assert!(matches!(stream.tool_delta(3, None, Some(": \"1+1\"}")), DeltaStep::Taken(None)));
    assert_eq!(stream.calls[0].arguments, "{\"expression\": \"1+1\"}");
    assert_eq!(
        stream.segment.text,
        "\n🔧 **Function Call:** calculate_math\n📊 **Progress:**  (21 chars)\n📋 **Building function arguments...**\n"
    );
}

#[test]
fn call_stream_ignores_fragments_of_unknown_calls() {
    let mut stream = CallStream::new(1800);
    stream.segment.push("hello");
    assert!(matches!(stream.tool_delta(7, None, Some("{}")), DeltaStep::Taken(None)));
    assert!(stream.calls.is_empty());
    assert_eq!(stream.segment.text, "hello");
}

#[test]
fn call_stream_sends_a_segment_past_the_limit() {
    let mut stream = CallStream::new(20);
    stream.tool_delta(0, Some("process_text"), None);
    let expected = format!("\n🔧 **Function Call:** process_text\n{}", args_progress(2));
    match stream.tool_delta(0, None, Some("{}")) {
        DeltaStep::Taken(Some(n)) => assert_eq!(n, expected.len() as u128),
        _ => panic!("expected a segment"),
    }
    assert_eq!(stream.segment.text, "");
    assert_eq!(stream.calls[0].arguments, "{}");
}

#[test]
fn call_stream_never_resets_for_javascript() {
    let mut stream = CallStream::new(20);
    stream.tool_delta(0, Some("execute_js_code"), None);
    assert!(matches!(stream.tool_delta(0, None, Some("{\"code\": \"1\"}")), DeltaStep::Taken(None)));
    assert!(stream.segment.text.starts_with("\n🔧 **Function Call:** execute_js_code\n"));
}

#[test]
fn call_stream_completes_a_call() {
    let mut stream = CallStream::new(1800);
    stream.tool_delta(0, Some("calculate_math"), None);
    stream.tool_delta(0, None, Some("{}"));
    assert!(stream.complete_call(0, &None).is_none());
    assert_eq!(
        stream.segment.text,
        "\n🔧 **Function Call:** calculate_math\n✅ **Status:** Arguments received successfully\n📊 **Total Size:** 2 characters\n🚀 **Ready for execution**\n"
    );
}

#[test]
fn call_stream_leaves_calls_without_arguments_alone() {
    let mut stream = CallStream::new(10);
    stream.tool_delta(0, Some("calculate_math"), None);
    let before = stream.segment.text.clone();
    assert!(stream.complete_call(0, &None).is_none());
    assert_eq!(stream.segment.text, before);
}

#[test]
fn call_stream_sends_a_completed_block_past_the_limit() {
    let mut stream = CallStream::new(10);
    stream.calls.push(meri_bot::commands::agent_progress::PendingCall {
        index: 0,
        name: "calculate_math".to_string(),
        arguments: "{}".to_string(),
    });
    let expected = "🔧 **Function Call:** calculate_math\n✅ **Status:** Arguments received successfully\n📊 **Total Size:** 2 characters\n🚀 **Ready for execution**\n";
    assert_eq!(stream.complete_call(0, &None), Some(expected.len() as u128));
    assert_eq!(stream.segment.text, "");
}
