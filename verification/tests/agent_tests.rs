use meri_bot::commands::agent::{answer_messages, tool_call_arguments, agent_log_text, AgentLog, agent_notice_text, agent_response_header, final_answer, model_request_error, saved_memory, task_complete_messages, thinking_step_text, timestamped_line, AgentNotice, analyze_data, calculate_math, clean_arguments, compose_analysed_answer, compose_unanalysed_answer, create_agent_system_prompt, execute_function_call, execute_js_code, extract_executed_code, filter_thinking_tags, function_result_line, get_js_code_sandbox_functions, parse_agent_input, process_text, remember, task_messages, tool_result_message, AgentCommand, ToolArguments};
use meri_bot::commands::search::ChatMessage;

#[test]
fn agent_test_filter_thinking_tags() {
    let content_with_tags = "Here is some content <think>This is internal thinking</think> and more content.";
    let filtered = filter_thinking_tags(content_with_tags);
    assert_eq!(filtered, "Here is some content  and more content.");
}

#[test]
fn test_js_code_sandbox_functions() {
    let functions = get_js_code_sandbox_functions();
    assert_eq!(functions.len(), 4);
    for function in &functions {
        assert_eq!(function.function_type, "function");
    }
    let function_names: Vec<String> = functions.iter().map(|f| f.name.clone()).collect();
    assert_eq!(function_names[0], "execute_js_code");
    assert_eq!(function_names[1], "calculate_math");
    assert_eq!(function_names[2], "process_text");
    assert_eq!(function_names[3], "analyze_data");
}

#[test]
fn test_create_agent_system_prompt() {
    let prompt = create_agent_system_prompt();
    assert!(prompt.contains("JavaScript code execution"));
    assert!(prompt.contains("execute_js_code"));
    assert!(prompt.contains("calculate_math"));
}

#[test]
fn forbidden_code_is_refused() {
    let r = execute_js_code("const fs = require('fs');", "read");
    assert_eq!(r.unwrap_err(), "Security restriction: Cannot use process.exit, require, or import statements");
}

#[test]
fn js_report_lists_features() {
    let r = execute_js_code("const x = Math.max(1, 2);\nconsole.log(x);", "max").unwrap();
    assert!(r.starts_with("🚀 **JavaScript Code Execution Report**\n\n📝 **Description:** max\n\n🔍 **Code Analysis:**\n- Length: 41 characters\n"));
    assert!(r.contains("- Features detected: Console logging, Mathematical operations, Variable declarations\n\n💻 **Executed Code:**\n```javascript\nconst x = Math.max(1, 2);\nconsole.log(x);\n```"));
    assert!(!r.contains("Potential Issues"));
}

#[test]
fn js_report_flags_issues() {
    let r = execute_js_code("a = Math.random() * Math.PI * 3", "angle").unwrap();
    assert!(r.contains("⚠️  **Potential Issues Found:**\n⚠️  Incomplete Math.random() * Math.PI expression detected - missing multiplier\n\n💻"));
    let plain = execute_js_code("1 + 1", "sum").unwrap();
    assert!(plain.contains("- Features detected: Basic JavaScript code\n"));
}

#[test]
fn tools_build_their_scripts() {
    let m = calculate_math("2+2", "add").unwrap();
    assert!(m.contains("📝 **Description:** Mathematical calculation: add"));
    assert!(m.contains("const expression = '2+2';"));
    let t = process_text("hi", "uppercase", "shout").unwrap();
    assert!(t.contains("const result = 'hi'.toUpperCase();"));
    let u = process_text("hi", "rot13", "odd").unwrap();
    assert!(u.contains("// Unknown operation: rot13\n'hi'"));
    let d = analyze_data("[1,2]", "structure", "shape").unwrap();
    assert!(d.contains("// Data analysis: shape\nconst data = [1,2];\nJSON.stringify({ type: typeof data"));
}

fn args() -> ToolArguments {
    ToolArguments {
        is_object: true,
        code: None,
        expression: None,
        text: None,
        operation: None,
        data: None,
        analysis_type: None,
        description: None,
    }
}

#[test]
fn tool_calls_are_dispatched() {
    assert_eq!(execute_function_call("nope", &args()).unwrap_err(), "Unknown function: nope");
    assert_eq!(execute_function_call("execute_js_code", &args()).unwrap_err(), "Missing 'code' argument");
    let mut a = args();
    a.is_object = false;
    assert_eq!(execute_function_call("calculate_math", &a).unwrap_err(), "Invalid arguments format");
    let mut a = args();
    a.text = Some("x".to_string());
    assert_eq!(execute_function_call("process_text", &a).unwrap_err(), "Missing 'operation' argument");
    let mut a = args();
    a.code = Some("1".to_string());
    let r = execute_function_call("execute_js_code", &a).unwrap();
    assert!(r.contains("📝 **Description:** JavaScript code execution\n"));
}

#[test]
fn results_and_answers() {
    let ok: Result<String, String> = Ok("fine".to_string());
    let bad: Result<String, String> = Err("broken".to_string());
    assert_eq!(function_result_line("f", &ok), "✅ f: fine");
    assert_eq!(function_result_line("g", &bad), "❌ g: Error - broken");
    let m = tool_result_message(1, "r");
    assert_eq!(m.role, "tool");
    assert_eq!(m.content, "Function execution result 2: r");
    let results = vec!["✅ x: ```javascript\n let a = 1; \n```\n".to_string()];
    assert_eq!(extract_executed_code(&results), "let a = 1;");
    assert_eq!(
        compose_analysed_answer(&results, "  "),
        format!("**JavaScript Execution Results:**\n{}\n\n🚀 **Ready-to-Use Code:**\n```javascript\nlet a = 1;\n```\n\n✨ **Copy the code above to use it in your project!**", results[0])
    );
    let plain = vec!["✅ a: 1".to_string(), "❌ b: Error - e".to_string()];
    assert_eq!(compose_analysed_answer(&plain, "ok"), "**Execution Results:**\n✅ a: 1\n\n❌ b: Error - e\n\n**AI Analysis:**\nok");
    assert_eq!(compose_unanalysed_answer(&plain, "partial"), "**AI Response:**\npartial\n\n**Execution Results:**\n✅ a: 1\n\n❌ b: Error - e");
}

#[test]
fn arguments_are_escaped() {
    assert_eq!(clean_arguments("  {\"code\":\"a\nb\tc\"}\n"), "{\"code\":\"a\\nb\\tc\"}");
}

#[test]
fn agent_input_flags() {
    assert!(parse_agent_input(" -h ").0 == AgentCommand::Help);
    assert!(parse_agent_input("--tools").0 == AgentCommand::Tools);
    assert!(parse_agent_input("-c").0 == AgentCommand::Clear);
    assert!(parse_agent_input("").0 == AgentCommand::Empty);
    let (c, t) = parse_agent_input("  sum 1..10 ");
    assert!(c == AgentCommand::Task);
    assert_eq!(t, "sum 1..10");
}

fn msg(role: &str, content: &str) -> ChatMessage {
    ChatMessage { role: role.to_string(), content: content.to_string() }
}

#[test]
fn memory_keeps_last_twenty() {
    let mut memory = Vec::new();
    for i in 0..25 {
        remember(&mut memory, msg("user", &i.to_string()));
    }
    assert_eq!(memory.len(), 20);
    assert_eq!(memory[0].content, "5");
    assert_eq!(memory[19].content, "24");
}

#[test]
fn task_messages_skip_system_memory() {
    let memory = vec![msg("system", "old"), msg("user", "u"), msg("assistant", "a")];
    let ms = task_messages("sys", &memory, "task");
    let pairs: Vec<(String, String)> = ms.into_iter().map(|m| (m.role, m.content)).collect();
    assert_eq!(
        pairs,
        vec![
            ("system".to_string(), "sys".to_string()),
            ("user".to_string(), "u".to_string()),
            ("assistant".to_string(), "a".to_string()),
            ("user".to_string(), "task".to_string())
        ]
    );
}

#[test]
fn agent_task_texts() {
    assert_eq!(agent_response_header("Ann", 7, "do it", "2024"), "🤖 **AI Agent Response**\nUser: Ann (7)\nTask: do it\nTimestamp: 2024\n\n");
    assert_eq!(timestamped_line("10:00:00", "hi"), "[10:00:00] hi\n");
    assert!(thinking_step_text("10:00:00", "Plan").starts_with("🧠 **Agent Reasoning Process**\n\n**Step 10:00:00:** Plan"));
    let (a, b) = task_complete_messages("done").unwrap();
    assert!(a.starts_with("✅ **Agent Task Complete**\n\n**Summary:**\ndone\n\n📎"));
    assert_eq!(b, "✅ **Agent Task Complete**\n\ndone\n\n📝 **Context Saved**");
    let long = "x".repeat(600);
    let (a, _) = task_complete_messages(&long).unwrap();
    assert!(a.contains(&format!("{}...", "x".repeat(500))));
    assert_eq!(final_answer("  "), Err("No content received from stream".to_string()));
    assert_eq!(final_answer("ok"), Ok("ok".to_string()));
    assert_eq!(model_request_error(true, "500 Internal Server Error", "x"), "Final response failed: HTTP 500 Internal Server Error - x");
    assert_eq!(agent_notice_text(AgentNotice::RequestTimedOut), "HTTP request timed out");
    let msgs: Vec<ChatMessage> = (0..25).map(|i| ChatMessage { role: "user".to_string(), content: i.to_string() }).collect();
    let kept = saved_memory(msgs);
    assert_eq!(kept.len(), 20);
    assert_eq!(kept[0].content, "5");
}

#[test]
fn collected_tool_call_arguments() {
    let none = tool_call_arguments("calculate_math", "", None).unwrap();
    assert!(none.is_object && none.code.is_none() && none.expression.is_none() && none.description.is_none());
    let js = tool_call_arguments("execute_js_code", "console.log(1)", None).unwrap();
    assert_eq!(js.code.as_deref(), Some("console.log(1)"));
    assert_eq!(js.description.as_deref(), Some("JavaScript code execution (fallback parsing)"));
    assert!(tool_call_arguments("calculate_math", "not json", None).is_none());
}

#[test]
fn agent_log_lines() {
    assert_eq!(agent_log_text(&AgentLog::StreamSegment(1801)), "🔄 Stream Segment Complete (1801 chars)");
    assert_eq!(agent_log_text(&AgentLog::Failed("x".to_string())), "❌ Error: x");
    assert_eq!(agent_log_text(&AgentLog::FinalResult), "=== FINAL RESULT ===");
}

#[test]
fn final_answer_messages() {
    let task = vec![ChatMessage { role: "user".to_string(), content: "t".to_string() }];
    let ms = answer_messages(&task, "  ", &vec!["r1".to_string(), "r2".to_string()]);
    assert_eq!(ms.len(), 4);
    assert_eq!(ms[1].role, "tool");
    assert_eq!(ms[2].content, "Function execution result 2: r2");
    assert_eq!(ms[3].role, "user");
    let with_text = answer_messages(&task, "thinking", &vec![]);
    assert_eq!(with_text.len(), 3);
    assert_eq!(with_text[1].role, "assistant");
    assert_eq!(with_text[1].content, "thinking");
}
