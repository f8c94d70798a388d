//! Discord's slash commands: the command list the bot registers, how an
//! interaction is answered, and the texts of the answers.
use vstd::prelude::*;
use crate::text::{from_chars, push_str, to_chars};

verus! {

/// The slash commands the bot knows.
#[derive(PartialEq, Eq, Structural, Clone, Copy, Debug)]
pub enum SlashCommand {
    Ping,
    Echo,
    Lm,
    Reason,
    Sum,
    Rank,
    Help,
    ClearContext,
    ClearReasonContext,
    Unknown,
}

/// The command a name stands for.
pub open spec fn slash_command_spec(name: Seq<char>) -> SlashCommand {
    if name == "ping"@ {
        SlashCommand::Ping
    } else if name == "echo"@ {
        SlashCommand::Echo
    } else if name == "lm"@ {
        SlashCommand::Lm
    } else if name == "reason"@ {
        SlashCommand::Reason
    } else if name == "sum"@ {
        SlashCommand::Sum
    } else if name == "rank"@ {
        SlashCommand::Rank
    } else if name == "help"@ {
        SlashCommand::Help
    } else if name == "clearcontext"@ {
        SlashCommand::ClearContext
    } else if name == "clearreasoncontext"@ {
        SlashCommand::ClearReasonContext
    } else {
        SlashCommand::Unknown
    }
}

fn same(a: &str, b: &str) -> (r: bool)
    ensures
        r == (a@ == b@),
{
    let x = to_chars(a);
    let y = to_chars(b);
    crate::cleaning::eq_chars(x.as_slice(), y.as_slice())
}

/// Reads the name of an invoked slash command.
pub fn classify_slash_command(name: &str) -> (c: SlashCommand)
    ensures
        c == slash_command_spec(name@),
{
    if same(name, "ping") {
        SlashCommand::Ping
    } else if same(name, "echo") {
        SlashCommand::Echo
    } else if same(name, "lm") {
        SlashCommand::Lm
    } else if same(name, "reason") {
        SlashCommand::Reason
    } else if same(name, "sum") {
        SlashCommand::Sum
    } else if same(name, "rank") {
        SlashCommand::Rank
    } else if same(name, "help") {
        SlashCommand::Help
    } else if same(name, "clearcontext") {
        SlashCommand::ClearContext
    } else if same(name, "clearreasoncontext") {
        SlashCommand::ClearReasonContext
    } else {
        SlashCommand::Unknown
    }
}

/// An option of an invoked slash command; the value is kept when it is a
/// string.
pub struct SlashOption {
    pub name: String,
    pub value: Option<String>,
}

/// The text of the first option called `name`, or `default` when there is
/// none or its value is not a string.
pub open spec fn option_text_spec(options: Seq<SlashOption>, name: Seq<char>, default: Seq<char>) -> Seq<char> {
    if exists|i: int| 0 <= i < options.len() && #[trigger] options[i].name@ == name {
        let i = choose|i: int|
            0 <= i < options.len() && #[trigger] options[i].name@ == name && forall|j: int|
                0 <= j < i ==> #[trigger] options[j].name@ != name;
        match options[i].value {
            Some(v) => v@,
            None => default,
        }
    } else {
        default
    }
}

/// Reads an option's text.
pub fn option_text(options: &Vec<SlashOption>, name: &str, default: &str) -> (r: String)
    ensures
        r@ == option_text_spec(options@, name@, default@),
{
    let mut i: usize = 0;
    while i < options.len()
        invariant
            i <= options@.len(),
            forall|j: int| 0 <= j < i ==> #[trigger] options@[j].name@ != name@,
        decreases options@.len() - i,
    {
        if same(options[i].name.as_str(), name) {
            proof {
                let c = choose|c: int|
                    0 <= c < options@.len() && #[trigger] options@[c].name@ == name@ && forall|j: int|
                        0 <= j < c ==> #[trigger] options@[j].name@ != name@;
                assert(options@[i as int].name@ == name@);
                if c < i {
                    assert(options@[c].name@ != name@);
                } else if c > i {
                    assert(options@[i as int].name@ != name@);
                }
            }
            return match &options[i].value {
                Some(v) => v.clone(),
                None => String::from_str(default),
            };
        }
        i = i + 1;
    }
    String::from_str(default)
}

/// How an interaction is answered.
pub enum SlashResponse {
    /// Measure the time to answer and reply with the delay.
    Ping,
    /// Reply with this text.
    Reply(String),
    /// Reply with the first text at once, then follow up with the second.
    Deferred(String, String),
    /// Forget the user's chat context, then reply with this text.
    ClearChat(String),
    /// Forget the user's reasoning context, then reply with this text.
    ClearReasoning(String),
}

/// The help text of the slash commands.
pub open spec fn slash_help_spec() -> Seq<char> {
    "**🤖 Meri Bot - Slash Commands Help**\n\n**📝 Basic Commands:**\n• `/ping` - Test bot connectivity\n• `/echo message:text` - Echo back your message\n• `/help` - Show this help message\n\n**🧠 AI & Language Model Commands:**\n• `/lm prompt:your question` - AI chat with personal context *(placeholder)*\n• `/reason question:your reasoning question` - Advanced reasoning and analysis *(placeholder)*\n• `/clearcontext` - Clear your personal chat context\n• `/clearreasoncontext` - Clear your personal reasoning context\n\n**🔍 Analysis Commands:**\n• `/sum url:https://example.com` - Text summarization *(placeholder)*\n• `/rank url:https://example.com` - Content ranking and analysis *(placeholder)*\n\n**💡 Usage Examples:**\n• `/lm prompt:What is the weather like?`\n• `/reason question:Analyze this problem: 2+2=?`\n• `/sum url:https://example.com`\n• `/rank url:https://example.com analysis_type:usability`\n\n**🔗 Additional Features:**\n• Mention the bot with `<@Bot> <prompt>` for global context chat\n• Use prefix commands (^lm, ^reason, ^sum) for full AI functionality\n• Reply to messages for context-aware responses\n• Attach files for document analysis\n• Attach images for vision analysis\n\n**⚠️ Note:**\nSlash commands are currently in development. For full AI functionality, use:\n• Prefix commands: `^lm`, `^reason`, `^sum`, `^rank`\n• Bot mentions: `<@Bot> <prompt>`\n\n**❓ Need More Help?**\nUse `/help` for general help or mention the bot for AI chat."@
}

/// The answer to an invoked slash command, given its name and options.
pub open spec fn slash_response_ok(name: Seq<char>, options: Seq<SlashOption>, r: SlashResponse) -> bool {
    match slash_command_spec(name) {
        SlashCommand::Ping => r is Ping,
        SlashCommand::Echo => r matches SlashResponse::Reply(t) && t@ == option_text_spec(options, "message"@, "No message provided"@),
        SlashCommand::Lm => {
            let p = option_text_spec(options, "prompt"@, ""@);
            if p.len() == 0 {
                r matches SlashResponse::Reply(t) && t@ == "Please provide a prompt! Usage: `/lm prompt:your question here`"@
            } else {
                r matches SlashResponse::Deferred(a, b) && a@ == "🤖 Processing your AI request..."@ && b@ == "🤖 **AI Response**\n\n**Your Question:** "@ + p + "\n\n**AI Response:** This is a placeholder response from the slash command. The actual LM integration with your existing AI logic will be implemented in the next update.\n\n*Note: This slash command is currently using placeholder responses. For full AI functionality, use the prefix commands (^lm) or mention the bot directly.*"@
            }
        },
        SlashCommand::Reason => {
            let q = option_text_spec(options, "question"@, ""@);
            if q.len() == 0 {
                r matches SlashResponse::Reply(t) && t@ == "Please provide a question! Usage: `/reason question:your reasoning question`"@
            } else {
                r matches SlashResponse::Deferred(a, b) && a@ == "🧠 Processing your reasoning request..."@ && b@ == "🧠 **Reasoning Analysis**\n\nQuestion: "@ + q + "\n\nThis is a placeholder response. The actual reasoning integration will be implemented here."@
            }
        },
        SlashCommand::Sum => {
            let u = option_text_spec(options, "url"@, ""@);
            if u.len() == 0 {
                r matches SlashResponse::Reply(t) && t@ == "Please provide a URL! Usage: `/sum url:https://example.com`"@
            } else {
                r matches SlashResponse::Deferred(a, b) && a@ == "📄 Processing summarization request..."@ && b@ == "📄 **Content Summarization**\n\nURL: "@ + u + "\n\nThis is a placeholder response. The actual summarization integration will be implemented here."@
            }
        },
        SlashCommand::Rank => {
            let u = option_text_spec(options, "url"@, ""@);
            let k = option_text_spec(options, "analysis_type"@, "comprehensive"@);
            if u.len() == 0 {
                r matches SlashResponse::Reply(t) && t@ == "Please provide a URL! Usage: `/rank url:https://example.com`"@
            } else {
                r matches SlashResponse::Deferred(a, b) && a@ == "📊 Processing ranking analysis..."@ && b@ == "📊 **Content Ranking Analysis**\n\nURL: "@ + u + "\nAnalysis Type: "@ + k + "\n\nThis is a placeholder response. The actual ranking integration will be implemented here."@
            }
        },
        SlashCommand::Help => r matches SlashResponse::Reply(t) && t@ == slash_help_spec(),
        SlashCommand::ClearContext => r matches SlashResponse::ClearChat(t) && t@ == "✅ Your personal chat context has been cleared!"@,
        SlashCommand::ClearReasonContext => r matches SlashResponse::ClearReasoning(t) && t@ == "✅ Your personal reasoning context has been cleared!"@,
        SlashCommand::Unknown => r matches SlashResponse::Reply(t) && t@ == "Unknown slash command: "@ + name,
    }
}

fn deferred(initial: &str, head: &str, arg: &String, tail: &str) -> (r: SlashResponse)
    ensures
        r matches SlashResponse::Deferred(a, b) && a@ == initial@ && b@ == head@ + arg@ + tail@,
{
    let mut out = to_chars(head);
    push_str(&mut out, arg.as_str());
    push_str(&mut out, tail);
    SlashResponse::Deferred(String::from_str(initial), from_chars(out.as_slice()))
}

/// Answers an invoked slash command.
pub fn handle_slash_command(name: &str, options: &Vec<SlashOption>) -> (r: SlashResponse)
    ensures
        slash_response_ok(name@, options@, r),
{
    match classify_slash_command(name) {
        SlashCommand::Ping => SlashResponse::Ping,
        SlashCommand::Echo => SlashResponse::Reply(option_text(options, "message", "No message provided")),
        SlashCommand::Lm => {
            let p = option_text(options, "prompt", "");
            if p.as_str().is_empty() {
                SlashResponse::Reply(String::from_str("Please provide a prompt! Usage: `/lm prompt:your question here`"))
            } else {
                deferred("🤖 Processing your AI request...", "🤖 **AI Response**\n\n**Your Question:** ", &p, "\n\n**AI Response:** This is a placeholder response from the slash command. The actual LM integration with your existing AI logic will be implemented in the next update.\n\n*Note: This slash command is currently using placeholder responses. For full AI functionality, use the prefix commands (^lm) or mention the bot directly.*")
            }
        },
        SlashCommand::Reason => {
            let q = option_text(options, "question", "");
            if q.as_str().is_empty() {
                SlashResponse::Reply(String::from_str("Please provide a question! Usage: `/reason question:your reasoning question`"))
            } else {
                deferred("🧠 Processing your reasoning request...", "🧠 **Reasoning Analysis**\n\nQuestion: ", &q, "\n\nThis is a placeholder response. The actual reasoning integration will be implemented here.")
            }
        },
        SlashCommand::Sum => {
            let u = option_text(options, "url", "");
            if u.as_str().is_empty() {
                SlashResponse::Reply(String::from_str("Please provide a URL! Usage: `/sum url:https://example.com`"))
            } else {
                deferred("📄 Processing summarization request...", "📄 **Content Summarization**\n\nURL: ", &u, "\n\nThis is a placeholder response. The actual summarization integration will be implemented here.")
            }
        },
        SlashCommand::Rank => {
            let u = option_text(options, "url", "");
            let k = option_text(options, "analysis_type", "comprehensive");
            if u.as_str().is_empty() {
                SlashResponse::Reply(String::from_str("Please provide a URL! Usage: `/rank url:https://example.com`"))
            } else {
                let mut out = to_chars("📊 **Content Ranking Analysis**\n\nURL: ");
                push_str(&mut out, u.as_str());
                push_str(&mut out, "\nAnalysis Type: ");
                push_str(&mut out, k.as_str());
                push_str(&mut out, "\n\nThis is a placeholder response. The actual ranking integration will be implemented here.");
                SlashResponse::Deferred(String::from_str("📊 Processing ranking analysis..."), from_chars(out.as_slice()))
            }
        },
        SlashCommand::Help => SlashResponse::Reply(String::from_str("**🤖 Meri Bot - Slash Commands Help**\n\n**📝 Basic Commands:**\n• `/ping` - Test bot connectivity\n• `/echo message:text` - Echo back your message\n• `/help` - Show this help message\n\n**🧠 AI & Language Model Commands:**\n• `/lm prompt:your question` - AI chat with personal context *(placeholder)*\n• `/reason question:your reasoning question` - Advanced reasoning and analysis *(placeholder)*\n• `/clearcontext` - Clear your personal chat context\n• `/clearreasoncontext` - Clear your personal reasoning context\n\n**🔍 Analysis Commands:**\n• `/sum url:https://example.com` - Text summarization *(placeholder)*\n• `/rank url:https://example.com` - Content ranking and analysis *(placeholder)*\n\n**💡 Usage Examples:**\n• `/lm prompt:What is the weather like?`\n• `/reason question:Analyze this problem: 2+2=?`\n• `/sum url:https://example.com`\n• `/rank url:https://example.com analysis_type:usability`\n\n**🔗 Additional Features:**\n• Mention the bot with `<@Bot> <prompt>` for global context chat\n• Use prefix commands (^lm, ^reason, ^sum) for full AI functionality\n• Reply to messages for context-aware responses\n• Attach files for document analysis\n• Attach images for vision analysis\n\n**⚠️ Note:**\nSlash commands are currently in development. For full AI functionality, use:\n• Prefix commands: `^lm`, `^reason`, `^sum`, `^rank`\n• Bot mentions: `<@Bot> <prompt>`\n\n**❓ Need More Help?**\nUse `/help` for general help or mention the bot for AI chat.")),
        SlashCommand::ClearContext => SlashResponse::ClearChat(String::from_str("✅ Your personal chat context has been cleared!")),
        SlashCommand::ClearReasonContext => SlashResponse::ClearReasoning(String::from_str("✅ Your personal reasoning context has been cleared!")),
        SlashCommand::Unknown => {
            let mut out = to_chars("Unknown slash command: ");
            push_str(&mut out, name);
            SlashResponse::Reply(from_chars(out.as_slice()))
        },
    }
}

/// A fixed choice of a string option: the name shown and the value sent.
pub struct CommandChoice {
    pub name: String,
    pub value: String,
}

/// A string option of a slash command.
pub struct CommandOptionSpec {
    pub name: String,
    pub description: String,
    pub required: bool,
    pub choices: Vec<CommandChoice>,
}

/// A slash command as the bot registers it.
pub struct SlashCommandSpec {
    pub name: String,
    pub description: String,
    pub options: Vec<CommandOptionSpec>,
}

pub open spec fn choices_view(cs: Seq<CommandChoice>) -> Seq<(Seq<char>, Seq<char>)> {
    Seq::new(cs.len(), |i: int| (cs[i].name@, cs[i].value@))
}

pub open spec fn option_spec_view(o: CommandOptionSpec) -> (Seq<char>, Seq<char>, bool, Seq<(Seq<char>, Seq<char>)>) {
    (o.name@, o.description@, o.required, choices_view(o.choices@))
}

pub open spec fn command_spec_view(c: SlashCommandSpec) -> (Seq<char>, Seq<char>, Seq<(Seq<char>, Seq<char>, bool, Seq<(Seq<char>, Seq<char>)>)>) {
    (c.name@, c.description@, Seq::new(c.options@.len(), |i: int| option_spec_view(c.options@[i])))
}

/// The commands the bot registers: name, description and string options
/// (name, description, whether required, and fixed choices).
pub open spec fn registered_commands() -> Seq<(Seq<char>, Seq<char>, Seq<(Seq<char>, Seq<char>, bool, Seq<(Seq<char>, Seq<char>)>)>)> {
    seq![
        ("ping"@, "Test bot connectivity and response time"@, seq![]),
        ("echo"@, "Echo back your message"@, seq![("message"@, "The message to echo"@, true, seq![])]),
        ("lm"@, "AI chat with personal context"@, seq![("prompt"@, "Your question or prompt for the AI"@, true, seq![])]),
        ("reason"@, "Advanced reasoning and analysis"@, seq![("question"@, "Your reasoning question"@, true, seq![])]),
        ("sum"@, "Summarize web content or documents"@, seq![("url"@, "URL to summarize"@, true, seq![])]),
        ("rank"@, "Rank and analyze web content"@, seq![
            ("url"@, "URL to analyze"@, true, seq![]),
            ("analysis_type"@, "Type of analysis to perform"@, false, seq![
                ("Comprehensive"@, "comprehensive"@),
                ("Usability"@, "usability"@),
                ("Quality"@, "quality"@),
                ("Accessibility"@, "accessibility"@),
                ("SEO"@, "seo"@),
                ("Performance"@, "performance"@),
                ("Security"@, "security"@),
            ]),
        ]),
        ("help"@, "Show help information for all commands"@, seq![]),
        ("clearcontext"@, "Clear your personal chat context"@, seq![]),
        ("clearreasoncontext"@, "Clear your personal reasoning context"@, seq![]),
    ]
}

fn choice(name: &str, value: &str) -> (c: CommandChoice)
    ensures
        c.name@ == name@,
        c.value@ == value@,
{
    CommandChoice { name: String::from_str(name), value: String::from_str(value) }
}

fn string_option(name: &str, description: &str, required: bool, choices: Vec<CommandChoice>) -> (o: CommandOptionSpec)
    ensures
        o.name@ == name@,
        o.description@ == description@,
        o.required == required,
        o.choices@ == choices@,
{
    CommandOptionSpec { name: String::from_str(name), description: String::from_str(description), required, choices }
}

fn command(name: &str, description: &str, options: Vec<CommandOptionSpec>) -> (c: SlashCommandSpec)
    ensures
        c.name@ == name@,
        c.description@ == description@,
        c.options@ == options@,
{
    SlashCommandSpec { name: String::from_str(name), description: String::from_str(description), options }
}

/// The slash commands the bot registers with Discord.
pub fn slash_command_specs() -> (r: Vec<SlashCommandSpec>)
    ensures
        Seq::new(r@.len(), |i: int| command_spec_view(r@[i])) == registered_commands(),
{
    let kinds = vec![
        choice("Comprehensive", "comprehensive"),
        choice("Usability", "usability"),
        choice("Quality", "quality"),
        choice("Accessibility", "accessibility"),
        choice("SEO", "seo"),
        choice("Performance", "performance"),
        choice("Security", "security"),
    ];
    let r = vec![
        command("ping", "Test bot connectivity and response time", vec![]),
        command("echo", "Echo back your message", vec![string_option("message", "The message to echo", true, vec![])]),
        command("lm", "AI chat with personal context", vec![string_option("prompt", "Your question or prompt for the AI", true, vec![])]),
        command("reason", "Advanced reasoning and analysis", vec![string_option("question", "Your reasoning question", true, vec![])]),
        command("sum", "Summarize web content or documents", vec![string_option("url", "URL to summarize", true, vec![])]),
        command("rank", "Rank and analyze web content", vec![
            string_option("url", "URL to analyze", true, vec![]),
            string_option("analysis_type", "Type of analysis to perform", false, kinds),
        ]),
        command("help", "Show help information for all commands", vec![]),
        command("clearcontext", "Clear your personal chat context", vec![]),
        command("clearreasoncontext", "Clear your personal reasoning context", vec![]),
    ];
    assert(Seq::new(r@.len(), |i: int| command_spec_view(r@[i])) =~~= registered_commands());
    r
}

} // verus!
