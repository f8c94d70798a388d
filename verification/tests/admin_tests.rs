use meri_bot::commands::admin::{config_failed_text, config_loaded_text, endpoint_checked_text, models_checked_text, server_reached_text, server_unreachable_text, models_probe_status, perf_status, ModelsProbe, PerfProbe, admin_notice_text, leave_failed_message, left_server_message, restart_record, AdminNotice, access_denied, admin_help_text, analyze_connection_error, api_status, diagnosis_report, is_owner, leaving_message, model_status, resolve_owner_id, Admin};

#[test]
fn owner_is_resolved_in_order() {
    let _ = Admin::new();
    assert_eq!(resolve_owner_id(Some("1".to_string()), Some("2".to_string())), "1");
    assert_eq!(resolve_owner_id(None, Some("2".to_string())), "2");
    assert_eq!(resolve_owner_id(None, None), "1385309017881968761");
    assert!(is_owner(1385309017881968761, "1385309017881968761"));
    assert!(!is_owner(42, "43"));
    assert!(access_denied().starts_with("❌ **Access Denied**"));
    assert!(admin_help_text().contains("`^leaveserver`"));
    assert_eq!(
        leaving_message("Guild"),
        "🔄 **Leaving Server**\n\nPreparing to leave **Guild**...\nThis action cannot be undone."
    );
}

#[test]
fn connection_errors_are_classified() {
    let a = analyze_connection_error("os error 10013 happened");
    assert_eq!(a.issue, "Windows network permission error (10013)");
    let a = analyze_connection_error("request timed out");
    assert_eq!(a.issue, "Connection timeout - server not responding");
    let a = analyze_connection_error("connection refused");
    assert_eq!(a.issue, "Connection refused - server not accepting connections");
    let a = analyze_connection_error("dns failure");
    assert_eq!(a.issue, "DNS resolution error - cannot resolve hostname");
    let a = analyze_connection_error("bad certificate");
    assert_eq!(a.issue, "SSL/TLS certificate error");
    let a = analyze_connection_error("weird");
    assert_eq!(a.issue, "General network connectivity issue");
    assert!(a.solutions.starts_with("• Check network connection"));
}

#[test]
fn statuses_are_judged() {
    assert_eq!(api_status(Some(200)), "✅ API endpoint responding");
    assert_eq!(api_status(Some(422)), "✅ API endpoint responding");
    assert_eq!(api_status(Some(404)), "❌ API endpoint not found (404)");
    assert_eq!(api_status(Some(500)), "⚠️ API endpoint issues");
    assert_eq!(api_status(None), "❌ API endpoint unreachable");
    let names = vec!["a".to_string(), "b".to_string()];
    assert_eq!(model_status(&names, "a", "b"), "✅ All configured models available");
    assert_eq!(model_status(&names, "a", "c"), "⚠️ Some configured models missing");
    assert_eq!(model_status(&names, "x", "c"), "❌ Configured models not found");
}

#[test]
fn diagnosis_report_is_assembled() {
    let names: Vec<String> = (0..12).map(|i| format!("m{}", i)).collect();
    let r = diagnosis_report(
        "1.50",
        "✅ API endpoint responding",
        "⚠️ Some configured models missing",
        "✅ fast",
        &Some(names),
        false,
        "d",
        "s",
    );
    assert!(r.starts_with("🔍 **LM Studio Connectivity Diagnosis Complete** (1.50s)\n\n"));
    assert!(r.contains("⚠️ **Step 4/5:** ⚠️ Some configured models missing\n"));
    assert!(r.contains("**Available Models:**\n• m0\n"));
    assert!(r.contains("• m9\n\n• ... and 2 more models\n\n"));
    assert!(!r.contains("• m10"));
    assert!(r.contains("  - Default model: `d`\n  - Summarization model: `s`\n"));
    assert!(r.ends_with("🟡 **Some issues found - bot should work but may have problems**"));
    let ok = diagnosis_report("0.10", "✅ a", "✅ b", "✅ c", &None, false, "d", "s");
    assert_eq!(
        ok,
        "🔍 **LM Studio Connectivity Diagnosis Complete** (0.10s)\n\n✅ **Step 1/5:** Configuration loaded\n✅ **Step 2/5:** Basic connectivity OK\n✅ **Step 3/5:** ✅ a\n✅ **Step 4/5:** ✅ b\n✅ **Step 5/5:** ✅ c\n\n**Recommendations:**\n\n**Status:** 🟢 **All systems operational!**"
    );
}

#[test]
fn simple_commands_reply() {
    use_simple_commands();
}

fn use_simple_commands() {
    assert_eq!(meri_bot::commands::echo::echo_reply(""), "Please provide text to echo!");
    assert_eq!(meri_bot::commands::echo::echo_reply("hi there"), "hi there");
    let _ = meri_bot::commands::ping::Ping::new();
    assert_eq!(meri_bot::commands::ping::ping_placeholder(), "Pong! Calculating delay...");
    assert_eq!(meri_bot::commands::ping::ping_result(42), "Pong! Response time: 42ms");
    let _ = meri_bot::commands::help::Help::new();
    assert!(meri_bot::commands::help::help_text().starts_with("**🤖 Meri Bot - Command Help**\n\n**📝 Basic Commands:**\n• `^ping` - Test bot connectivity"));
    assert!(meri_bot::commands::help::lm_help_text().ends_with("^lm --clear\n```"));
    assert!(meri_bot::commands::help::reason_help_text().starts_with("**🔍 Reasoning & Analysis Commands**"));
    assert!(meri_bot::help::short_help_text().starts_with("**Meri Bot - Discord AI Assistant**\n\n**⚠️ AI features require `<@Meri_>` user ID mentions**"));
}

#[test]
fn diagnosis_steps_are_reported() {
    assert_eq!(
        config_loaded_text("http://localhost:1234", 30, "m1", "m2"),
        "🔍 **LM Studio Connectivity Diagnosis**\n\n✅ **Step 1/5:** Configuration loaded successfully\n• Base URL: `http://localhost:1234`\n• Timeout: 30s\n• Default Model: `m1`\n• Summarization Model: `m2`\n\n**Step 2/5:** Testing basic connectivity..."
    );
    assert!(config_failed_text("boom").contains("❌ **Step 1/5:** Configuration loading failed\n\n**Error:** boom\n\n"));
    assert_eq!(
        server_reached_text("200 OK"),
        "🔍 **LM Studio Connectivity Diagnosis**\n\n✅ **Step 1/5:** Configuration loaded\n✅ **Step 2/5:** Basic connectivity OK (Status: 200 OK)\n\n**Step 3/5:** Testing API endpoints..."
    );
    let refused = server_unreachable_text("connection refused");
    let analysis = analyze_connection_error("connection refused");
    assert!(refused.contains(&format!("**Analysis:** {}", analysis.issue)));
    assert!(refused.ends_with(&analysis.solutions));
    assert_eq!(
        endpoint_checked_text("⚠️ API endpoint issues"),
        "🔍 **LM Studio Connectivity Diagnosis**\n\n✅ **Step 1/5:** Configuration loaded\n✅ **Step 2/5:** Basic connectivity OK\n⚠️ **Step 3/5:** ⚠️ API endpoint issues\n\n**Step 4/5:** Testing model availability..."
    );
    let both = models_checked_text("✅ API endpoint responding", "❌ Models endpoint unreachable");
    assert!(both.contains("✅ **Step 3/5:** ✅ API endpoint responding\n❌ **Step 4/5:** ❌ Models endpoint unreachable\n\n**Step 5/5:**"));
}

#[test]
fn diagnosis_probes_are_judged() {
    let listed = ModelsProbe::Listed(vec!["a".to_string(), "b".to_string()]);
    assert_eq!(models_probe_status(&listed, "a", "b"), "✅ All configured models available");
    assert_eq!(models_probe_status(&listed, "a", "c"), "⚠️ Some configured models missing");
    assert_eq!(models_probe_status(&ModelsProbe::NoData, "a", "b"), "❌ No model data in response");
    assert_eq!(models_probe_status(&ModelsProbe::Unreachable, "a", "b"), "❌ Models endpoint unreachable");
    assert_eq!(
        perf_status("1.25", &PerfProbe::Answered("  OK \n".to_string())),
        "✅ Performance test OK (1.25s) - Response: \"OK\""
    );
    assert_eq!(perf_status("0.50", &PerfProbe::Unparsable), "⚠️ Performance test partial (0.50s) - Could not parse response");
    assert_eq!(perf_status("2.00", &PerfProbe::HttpError("500 Internal Server Error".to_string())), "❌ Performance test failed (2.00s) - HTTP 500 Internal Server Error");
    assert_eq!(perf_status("2.00", &PerfProbe::SendError("timed out".to_string())), "❌ Performance test failed (2.00s) - timed out");
}

#[test]
fn owner_command_messages() {
    assert_eq!(restart_record(12, 34, 1700000000), "12|34|1700000000");
    assert_eq!(left_server_message("G"), "✅ **Successfully Left Server**\n\nThe bot has left **G**.\n\n👋 **Goodbye!**");
    assert_eq!(leave_failed_message("G", "nope"), "❌ **Error Leaving Server**\n\nFailed to leave **G**: nope");
    assert_eq!(admin_notice_text(AdminNotice::ShutdownStarted), "🛑 **Bot Shutdown Initiated**\n\nSaving contexts and shutting down gracefully...");
    assert_eq!(admin_notice_text(AdminNotice::NotInServer), "❌ **Error**\nThis command can only be used in a server, not in DMs.");
}
