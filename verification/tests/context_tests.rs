use meri_bot::commands::search::ChatMessage;
use meri_bot::context::{generate_enhanced_system_prompt, CrossUserContext};

#[test]
fn enhanced_prompt_appends_context() {
    assert_eq!(generate_enhanced_system_prompt("base", ""), "base");
    assert_eq!(
        generate_enhanced_system_prompt("base", "ctx"),
        "base\n\n**Cross-User Context Information:**\nctx\n\nUse this context to provide more personalized and contextually aware responses. Reference users by name when appropriate and acknowledge shared conversation history."
    );
}

#[test]
fn profiles_count_messages_and_topics() {
    let mut c = CrossUserContext::new();
    c.update_user_profile(7, "Ann", "I love Rust and Music", "casual", 100);
    c.update_user_profile(7, "Ann", "more RUST, also space", "formal", 200);
    let p = c.get_user_by_id(7).unwrap();
    assert_eq!(p.total_messages, 2);
    assert_eq!(p.username, "Ann");
    assert_eq!(p.conversation_style, "formal");
    assert_eq!(p.last_interaction, 200);
    assert_eq!(p.interests, vec!["rust".to_string(), "music".to_string(), "space".to_string()]);
    assert_eq!(
        p.context_summary,
        "Ann is interested in rust, music, space. They have sent 2 messages and prefer formal style conversations."
    );
    assert!(c.get_user_by_id(8).is_none());
}

#[test]
fn interests_are_capped_at_ten() {
    let mut c = CrossUserContext::new();
    c.update_user_profile(1, "Bo", "programming rust python javascript ai gaming music art science technology books movies", "x", 0);
    let p = c.get_user_by_id(1).unwrap();
    assert_eq!(p.interests.len(), 10);
    assert_eq!(p.preferred_topics.len(), 10);
    assert_eq!(p.interests[0], "programming");
}

#[test]
fn shared_threads_keep_fifty_messages() {
    let mut c = CrossUserContext::new();
    for i in 0..60 {
        let m = ChatMessage { role: "user".to_string(), content: i.to_string() };
        c.update_shared_conversation("t", &[1, 2, 1], &m, "topic", i);
    }
    c.update_user_relationships(1, &[2, 3, 2], &[4]);
    c.update_user_relationships(1, &[3, 5], &[]);
    // A later update keeps the first topic and adds new participants.
    let m = ChatMessage { role: "user".to_string(), content: "60".to_string() };
    c.update_shared_conversation("t", &[9], &m, "other", 60);
    let seen = c.get_shared_conversation_context(1, &[]);
    assert!(seen.contains("**Thread 't':** topic\n"));
    assert!(!seen.contains("other"));
    assert!(seen.contains("58") && seen.contains("59") && seen.contains("60"));
    assert!(!seen.contains(": 57"));
    assert!(c.get_shared_conversation_context(9, &[]).contains("**Thread 't':**"));
    assert!(!c.get_shared_conversation_context(4, &[]).contains("**Thread 't':**"));
}

#[test]
fn profile_updates_leave_other_users_alone() {
    let mut c = CrossUserContext::new();
    c.update_user_profile(1, "Ann", "rust music", "casual", 0);
    c.update_user_profile(2, "Bo", "art", "formal", 0);
    c.update_user_profile(1, "Ann", "music rust science", "casual", 1);
    let ann = c.get_user_by_id(1).unwrap();
    assert_eq!(ann.total_messages, 2);
    assert_eq!(ann.interests, vec!["rust".to_string(), "music".to_string(), "science".to_string()]);
    let bo = c.get_user_by_id(2).unwrap();
    assert_eq!(bo.total_messages, 1);
    assert_eq!(bo.interests, vec!["art".to_string()]);
}

#[test]
fn users_are_found_by_name() {
    let mut c = CrossUserContext::new();
    c.update_user_profile(1, "Alice", "hello", "casual", 0);
    c.update_user_profile(2, "Alicent", "hello", "casual", 0);
    c.update_user_profile(3, "Bob", "hello", "casual", 0);
    assert_eq!(c.get_user_by_name("ALICE").unwrap().user_id, 1);
    assert_eq!(c.get_user_by_name("cent").unwrap().user_id, 2);
    assert_eq!(c.get_user_by_name("ali").unwrap().user_id, 1);
    assert!(c.get_user_by_name("zed").is_none());
    assert_eq!(c.extract_mentioned_users("ask Bob and alice, or Alicent"), vec![3, 2]);
    assert!(c.get_conversation_partners(1, &[]).is_empty());
}

#[test]
fn cross_user_context_lists_every_part() {
    let mut c = CrossUserContext::new();
    c.update_user_profile(1, "Ann", "rust", "casual", 0);
    c.update_user_profile(2, "Bo", "music", "formal", 0);
    let m = ChatMessage { role: "user".to_string(), content: "hi there".to_string() };
    c.update_shared_conversation("t1", &[1, 2], &m, "chat", 5);
    c.update_user_relationships(1, &[], &[2, 9]);
    c.set_conversation_history(2, vec![ChatMessage { role: "assistant".to_string(), content: "x".repeat(120) }]);
    assert_eq!(c.get_shared_conversation_context(1, &[]), "**Thread 't1':** chat\n- user: hi there\n\n");
    assert_eq!(c.get_shared_conversation_context(3, &[]), "");
    let text = c.generate_cross_user_context(1, &[2, 4], &[]);
    let expected = format!(
        "**Current User Context:** Ann is interested in rust. They have sent 1 messages and prefer casual style conversations.\n\n\
**Mentioned Users Context:**\n- Bo: Bo is interested in music. They have sent 1 messages and prefer formal style conversations.\n\n\
**Shared Conversation Context:**\n**Thread 't1':** chat\n- user: hi there\n\n\n\n\
**User Relationships:**\n- Has conversed with Bo (interests: music)\n\n\
**Mentioned Users' Recent Conversations:**\n- Bo:\n  - assistant: {}\n\n",
        "x".repeat(100)
    );
    assert_eq!(text, expected);
    assert_eq!(CrossUserContext::new().generate_cross_user_context(5, &[], &[]), "");
}
