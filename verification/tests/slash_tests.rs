use meri_bot::commands::slash::{classify_slash_command, handle_slash_command, option_text, slash_command_specs, SlashCommand, SlashOption, SlashResponse};

fn opt(name: &str, value: Option<&str>) -> SlashOption {
    SlashOption { name: name.to_string(), value: value.map(|v| v.to_string()) }
}

#[test]
fn slash_commands_are_dispatched() {
    assert_eq!(classify_slash_command("ping"), SlashCommand::Ping);
    assert_eq!(classify_slash_command("clearreasoncontext"), SlashCommand::ClearReasonContext);
    assert_eq!(classify_slash_command("Ping"), SlashCommand::Unknown);
    assert!(matches!(handle_slash_command("ping", &vec![]), SlashResponse::Ping));
    match handle_slash_command("nope", &vec![]) {
        SlashResponse::Reply(t) => assert_eq!(t, "Unknown slash command: nope"),
        _ => panic!("expected a reply"),
    }
    match handle_slash_command("echo", &vec![]) {
        SlashResponse::Reply(t) => assert_eq!(t, "No message provided"),
        _ => panic!("expected a reply"),
    }
    match handle_slash_command("echo", &vec![opt("message", Some("hi"))]) {
        SlashResponse::Reply(t) => assert_eq!(t, "hi"),
        _ => panic!("expected a reply"),
    }
    match handle_slash_command("lm", &vec![opt("prompt", Some(""))]) {
        SlashResponse::Reply(t) => assert_eq!(t, "Please provide a prompt! Usage: `/lm prompt:your question here`"),
        _ => panic!("expected a reply"),
    }
    match handle_slash_command("rank", &vec![opt("url", Some("https://x"))]) {
        SlashResponse::Deferred(a, b) => {
            assert_eq!(a, "📊 Processing ranking analysis...");
            assert!(b.starts_with("📊 **Content Ranking Analysis**\n\nURL: https://x\nAnalysis Type: comprehensive\n\n"));
        }
        _ => panic!("expected a deferred reply"),
    }
    match handle_slash_command("clearcontext", &vec![]) {
        SlashResponse::ClearChat(t) => assert_eq!(t, "✅ Your personal chat context has been cleared!"),
        _ => panic!("expected a clear"),
    }
    match handle_slash_command("help", &vec![]) {
        SlashResponse::Reply(t) => assert!(t.starts_with("**🤖 Meri Bot - Slash Commands Help**")),
        _ => panic!("expected a reply"),
    }
}

#[test]
fn first_option_of_a_name_wins() {
    let o = vec![opt("a", None), opt("a", Some("x")), opt("b", Some("y"))];
    assert_eq!(option_text(&o, "a", "d"), "d");
    assert_eq!(option_text(&o, "b", "d"), "y");
    assert_eq!(option_text(&o, "c", "d"), "d");
}

#[test]
fn nine_commands_are_registered() {
    let specs = slash_command_specs();
    assert_eq!(specs.len(), 9);
    assert_eq!(specs[0].name, "ping");
    assert_eq!(specs[5].name, "rank");
    assert_eq!(specs[5].options[1].choices.len(), 7);
    assert!(!specs[5].options[1].required);
    assert_eq!(specs[8].description, "Clear your personal reasoning context");
}
