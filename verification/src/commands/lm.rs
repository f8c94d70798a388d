//! The `^lm` chat command: request parsing, answer chunking and framing.
use vstd::prelude::*;
use crate::chunking::{chunk_ok, split_by_lines, split_message_spec, views};
use crate::config::without_bom;
use crate::streaming::{frame_chunks, framed_chunk};
use crate::text::{
    contains_pat, contains_str, decimal, decimal_chars, from_chars, push_all, push_str,
    slice_chars, starts_with, starts_with_str, to_chars, trim, trim_chars,
};

verus! {

/// The command group of the chat command.
pub struct Lm;

impl Lm {
    pub fn new() -> (r: Self)
        ensures
            r == Lm,
    {
        Lm
    }
}

/// Logging is set up by the program that hosts the commands; nothing is
/// left to do here.
pub fn init_logging() -> (r: Result<(), std::io::Error>)
    ensures
        r is Ok,
{
    Ok(())
}

/// One part of a multimodal chat message.
pub enum MessageContent {
    Text { content_type: String, text: String },
    Image { content_type: String, image_url: ImageUrl },
}

/// The address (or data URL) of an image.
pub struct ImageUrl {
    pub url: String,
}

/// A chat message made of text and image parts.
pub struct MultimodalChatMessage {
    pub role: String,
    pub content: Vec<MessageContent>,
}

/// Counts kept while an answer streams in.
pub struct StreamingStats {
    pub total_characters: usize,
    pub message_count: usize,
}

/// What a `^lm` invocation asks for.
#[derive(PartialEq, Eq, Structural, Clone, Copy)]
pub enum LmCommand {
    /// No prompt at all.
    Empty,
    /// `--test` / `-t`: check the connection.
    ConnectivityTest,
    /// `--clear` / `-c`: forget the conversation.
    ClearContext,
    /// `--models` / `-models`: list the server's models.
    ListModels,
    /// `-s <query>` / `--search <query>`.
    Search,
    /// A search flag without a query.
    MissingSearchQuery,
    /// `-v <prompt>` / `--vision <prompt>`.
    Vision,
    /// A vision flag without a prompt.
    MissingVisionPrompt,
    /// Anything else: a chat prompt.
    Chat,
}

/// The text after a one-letter flag (`-x `, three characters) or a long
/// flag (`--xxxxxx `, nine characters).
pub open spec fn flag_argument(input: Seq<char>, short: Seq<char>) -> Seq<char> {
    if starts_with(input, short) {
        input.skip(3)
    } else {
        input.skip(9)
    }
}

/// How the bot reads a `^lm` invocation, after trimming it: the exact flags
/// first, then the search and vision prefixes, then a chat prompt.
pub open spec fn lm_command_spec(raw: Seq<char>) -> LmCommand {
    let input = trim(raw);
    if input.len() == 0 {
        LmCommand::Empty
    } else if input == "--test"@ || input == "-t"@ {
        LmCommand::ConnectivityTest
    } else if input == "--clear"@ || input == "-c"@ {
        LmCommand::ClearContext
    } else if input == "--models"@ || input == "-models"@ {
        LmCommand::ListModels
    } else if starts_with(input, "-s "@) || starts_with(input, "--search "@) {
        if trim(flag_argument(input, "-s "@)).len() == 0 {
            LmCommand::MissingSearchQuery
        } else {
            LmCommand::Search
        }
    } else if starts_with(input, "-v "@) || starts_with(input, "--vision "@) {
        if trim(flag_argument(input, "-v "@)).len() == 0 {
            LmCommand::MissingVisionPrompt
        } else {
            LmCommand::Vision
        }
    } else {
        LmCommand::Chat
    }
}

/// The text that goes with the command.
pub open spec fn lm_argument_spec(raw: Seq<char>) -> Seq<char> {
    let input = trim(raw);
    match lm_command_spec(raw) {
        LmCommand::Search => flag_argument(input, "-s "@),
        LmCommand::Vision => flag_argument(input, "-v "@),
        LmCommand::Chat => input,
        _ => Seq::empty(),
    }
}

fn equals(a: &Vec<char>, b: &str) -> (r: bool)
    ensures
        r == (a@ == b@),
{
    let bc = to_chars(b);
    crate::cleaning::eq_chars(a.as_slice(), bc.as_slice())
}

/// Reads a `^lm` invocation.
pub fn parse_lm_input(raw: &str) -> (r: (LmCommand, String))
    ensures
        r.0 == lm_command_spec(raw@),
        r.1@ == lm_argument_spec(raw@),
{
    let chars = to_chars(raw);
    let input = trim_chars(chars.as_slice());
    let input_str = from_chars(input.as_slice());
    if input.len() == 0 {
        return (LmCommand::Empty, String::new());
    }
    if equals(&input, "--test") || equals(&input, "-t") {
        return (LmCommand::ConnectivityTest, String::new());
    }
    if equals(&input, "--clear") || equals(&input, "-c") {
        return (LmCommand::ClearContext, String::new());
    }
    if equals(&input, "--models") || equals(&input, "-models") {
        return (LmCommand::ListModels, String::new());
    }
    let short_search = starts_with_str(input_str.as_str(), "-s ");
    if short_search || starts_with_str(input_str.as_str(), "--search ") {
        proof {
            reveal_strlit("-s ");
            reveal_strlit("--search ");
        }
        let from: usize = if short_search {
            3
        } else {
            9
        };
        let query = slice_chars(input.as_slice(), from, input.len());
        assert(query@ =~= flag_argument(input@, "-s "@));
        if trim_chars(query.as_slice()).len() == 0 {
            return (LmCommand::MissingSearchQuery, String::new());
        }
        return (LmCommand::Search, from_chars(query.as_slice()));
    }
    let short_vision = starts_with_str(input_str.as_str(), "-v ");
    if short_vision || starts_with_str(input_str.as_str(), "--vision ") {
        proof {
            reveal_strlit("-v ");
            reveal_strlit("--vision ");
        }
        let from: usize = if short_vision {
            3
        } else {
            9
        };
        let prompt = slice_chars(input.as_slice(), from, input.len());
        assert(prompt@ =~= flag_argument(input@, "-v "@));
        if trim_chars(prompt.as_slice()).len() == 0 {
            return (LmCommand::MissingVisionPrompt, String::new());
        }
        return (LmCommand::Vision, from_chars(prompt.as_slice()));
    }
    (LmCommand::Chat, input_str)
}

/// The reply for an invocation that cannot run as given, if any.
pub open spec fn usage_reply_spec(command: LmCommand) -> Option<Seq<char>> {
    match command {
        LmCommand::Empty => Some("Please provide a prompt! Usage: `^lm <your prompt>`"@),
        LmCommand::MissingSearchQuery => Some(
            "Please provide a search query! Usage: `^lm -s <query>`"@,
        ),
        LmCommand::MissingVisionPrompt => Some(
            "Please provide a prompt for vision analysis! Usage: `^lm -v <prompt>` with image attached."@,
        ),
        _ => None,
    }
}

/// The usage reply for an invocation that cannot run as given.
pub fn usage_reply(command: LmCommand) -> (r: Option<String>)
    ensures
        match r {
            Some(t) => usage_reply_spec(command) == Some(t@),
            None => usage_reply_spec(command) is None,
        },
{
    match command {
        LmCommand::Empty => Some(String::from_str("Please provide a prompt! Usage: `^lm <your prompt>`")),
        LmCommand::MissingSearchQuery => Some(
            String::from_str("Please provide a search query! Usage: `^lm -s <query>`"),
        ),
        LmCommand::MissingVisionPrompt => Some(
            String::from_str(
                "Please provide a prompt for vision analysis! Usage: `^lm -v <prompt>` with image attached.",
            ),
        ),
        _ => None,
    }
}

/// The check on a vision request's attachment: there must be one, and its
/// content type must start with `image/`.
pub open spec fn vision_attachment_spec(has_attachment: bool, content_type: Option<Seq<char>>) -> Option<Seq<char>> {
    if !has_attachment {
        Some("Please attach an image for vision analysis!"@)
    } else if !starts_with(
        match content_type {
            Some(t) => t,
            None => Seq::empty(),
        },
        "image/"@,
    ) {
        Some("Please attach a valid image file!"@)
    } else {
        None
    }
}

/// The reply refusing a vision request's attachment, or `None` when it is an image.
pub fn check_vision_attachment(has_attachment: bool, content_type: Option<&str>) -> (r: Option<String>)
    ensures
        match r {
            Some(t) => vision_attachment_spec(has_attachment, match content_type {
                Some(t) => Some(t@),
                None => None,
            }) == Some(t@),
            None => vision_attachment_spec(has_attachment, match content_type {
                Some(t) => Some(t@),
                None => None,
            }) is None,
        },
{
    if !has_attachment {
        return Some(String::from_str("Please attach an image for vision analysis!"));
    }
    let is_image = match content_type {
        Some(t) => starts_with_str(t, "image/"),
        None => false,
    };
    proof {
        reveal_strlit("image/");
    }
    if !is_image {
        return Some(String::from_str("Please attach a valid image file!"));
    }
    None
}

/// A prompt file's text: byte-order mark removed, then trimmed.
pub fn clean_prompt_text(content: &str) -> (r: String)
    ensures
        r@ == trim(without_bom(content@)),
{
    let no_bom = crate::config::strip_bom(content);
    crate::text::trim_str(no_bom.as_str())
}

/// The error for a refused chat request: a model that is not loaded gets its
/// own message, anything else shows the status and the server's text.
pub open spec fn api_error_spec(model: Seq<char>, status: Seq<char>, body: Seq<char>) -> Seq<char> {
    if contains_pat(body, "No models loaded"@) || contains_pat(body, "model_not_found"@) {
        "Model '"@ + model + "' is not loaded in LM Studio. Please load the model and try again."@
    } else {
        "API error: "@ + status + " - "@ + body
    }
}

/// Explains a refused chat request.
pub fn api_error_message(model: &str, status: &str, body: &str) -> (m: String)
    ensures
        m@ == api_error_spec(model@, status@, body@),
{
    if contains_str(body, "No models loaded") || contains_str(body, "model_not_found") {
        let mut out = to_chars("Model '");
        push_str(&mut out, model);
        push_str(&mut out, "' is not loaded in LM Studio. Please load the model and try again.");
        from_chars(out.as_slice())
    } else {
        let mut out = to_chars("API error: ");
        push_str(&mut out, status);
        push_str(&mut out, " - ");
        push_str(&mut out, body);
        from_chars(out.as_slice())
    }
}

/// Splits an answer into Discord-sized chunks at line boundaries: lines are
/// packed greedily while a chunk stays within `max_len` bytes, and a single
/// line longer than that is kept whole.
pub fn split_message(content: &str, max_len: usize) -> (chunks: Vec<String>)
    ensures
        views(chunks@) == split_message_spec(content@, max_len as nat),
        forall|k: int|
            0 <= k < chunks@.len() ==> (#[trigger] chunks@[k])@.len() > 0 && chunk_ok(
                chunks@[k]@,
                max_len as nat,
            ),
{
    split_by_lines(content, max_len)
}

/// The messages that carry a chat answer: chunked within `max_len` bytes and
/// framed as `AI Response`, numbered when there are several.
pub fn format_chat_answer(content: &str, max_len: usize) -> (messages: Vec<String>)
    ensures
        messages@.len() == split_message_spec(content@, max_len as nat).len(),
        forall|k: int|
            0 <= k < messages@.len() ==> (#[trigger] messages@[k])@ == framed_chunk(
                "AI Response"@,
                k as nat,
                messages@.len() as nat,
                split_message_spec(content@, max_len as nat)[k],
            ),
{
    let chunks = split_message(content, max_len);
    let framed = frame_chunks("AI Response", &chunks);
    assert forall|k: int| 0 <= k < framed@.len() implies (#[trigger] framed@[k])@ == framed_chunk(
        "AI Response"@,
        k as nat,
        framed@.len() as nat,
        split_message_spec(content@, max_len as nat)[k],
    ) by {
        assert(views(chunks@)[k] == chunks@[k]@);
    }
    framed
}

/// The line for one model of the server's list: numbered from 1, marked when
/// it is the configured model.
pub open spec fn model_line(index: nat, id: Seq<char>, configured: Seq<char>) -> Seq<char> {
    decimal(index + 1) + ". "@ + (if id == configured {
        "✅ **CONFIGURED**"@
    } else {
        "⚪"@
    }) + " "@ + id + "\n"@
}

/// The lines for the models that have an id, numbered by their place in the list.
pub open spec fn model_lines(ids: Seq<Option<String>>, configured: Seq<char>) -> Seq<char>
    decreases ids.len(),
{
    if ids.len() == 0 {
        Seq::empty()
    } else {
        model_lines(ids.drop_last(), configured) + match ids.last() {
            Some(id) => model_line((ids.len() - 1) as nat, id@, configured),
            None => Seq::empty(),
        }
    }
}

/// The model listing shown by `^lm --models`.
pub open spec fn model_list_spec(ids: Seq<Option<String>>, configured: Seq<char>, server: Seq<char>) -> Seq<char> {
    "**Available Models** 📋\n\n"@ + model_lines(ids, configured)
        + "\n**Current Configuration:**\n• Default Model: `"@ + configured + "`\n• Server: `"@ + server
        + "`"@
}

/// Lists the server's models, marking the configured one.
pub fn format_model_list(ids: &Vec<Option<String>>, configured: &str, server: &str) -> (text: String)
    ensures
        text@ == model_list_spec(ids@, configured@, server@),
{
    let conf = to_chars(configured);
    let mut out = to_chars("**Available Models** 📋\n\n");
    let ghost head = out@;
    let mut i: usize = 0;
    while i < ids.len()
        invariant
            i <= ids@.len(),
            conf@ == configured@,
            out@ == head + model_lines(ids@.take(i as int), configured@),
        decreases ids@.len() - i,
    {
        assert(ids@.take(i + 1).drop_last() =~= ids@.take(i as int));
        let ghost before = out@;
        match &ids[i] {
            Some(id) => {
                let idc = to_chars(id.as_str());
                let n = decimal_chars(i as u128 + 1);
                push_all(&mut out, n.as_slice());
                push_str(&mut out, ". ");
                if crate::cleaning::eq_chars(idc.as_slice(), conf.as_slice()) {
                    push_str(&mut out, "✅ **CONFIGURED**");
                } else {
                    push_str(&mut out, "⚪");
                }
                push_str(&mut out, " ");
                push_all(&mut out, idc.as_slice());
                push_str(&mut out, "\n");
                assert(out@ =~= before + model_line(i as nat, id@, configured@));
            },
            None => {
                assert(out@ =~= before + Seq::<char>::empty());
            },
        }
        i = i + 1;
    }
    assert(ids@.take(ids@.len() as int) =~= ids@);
    push_str(&mut out, "\n**Current Configuration:**\n• Default Model: `");
    push_str(&mut out, configured);
    push_str(&mut out, "`\n• Server: `");
    push_str(&mut out, server);
    push_str(&mut out, "`");
    from_chars(out.as_slice())
}

/// A partial answer shown while it streams: `**Part n:**` and a code block.
pub open spec fn part_message_spec(index: nat, content: Seq<char>) -> Seq<char> {
    "**Part "@ + decimal(index) + ":**\n```\n"@ + content + "\n```"@
}

/// Formats a partial answer for its message.
pub fn format_part_message(index: u64, content: &str) -> (m: String)
    ensures
        m@ == part_message_spec(index as nat, content@),
{
    let mut out = to_chars("**Part ");
    let n = decimal_chars(index as u128);
    push_all(&mut out, n.as_slice());
    push_str(&mut out, ":**\n```\n");
    push_str(&mut out, content);
    push_str(&mut out, "\n```");
    from_chars(out.as_slice())
}

/// A streamed answer shown in one message that is edited as content
/// arrives; the message itself stays with the caller.
pub struct MessageState {
    pub current_content: String,
    pub message_index: usize,
    pub char_limit: usize,
}

impl MessageState {
    /// Adds streamed content and returns the message's new text.
    pub fn update_chat_message(&mut self, new_content: &str) -> (text: String)
        ensures
            final(self).current_content@ == old(self).current_content@ + new_content@,
            final(self).message_index == old(self).message_index,
            final(self).char_limit == old(self).char_limit,
            text@ == crate::commands::reason::part_text(
                final(self).message_index as nat,
                final(self).current_content@,
            ),
    {
        let mut c = to_chars(self.current_content.as_str());
        push_str(&mut c, new_content);
        self.current_content = from_chars(c.as_slice());
        self.render()
    }

    /// Adds the last of the content, if any, and returns the final text.
    pub fn finalize_chat_message(&mut self, remaining_content: &str) -> (text: String)
        ensures
            final(self).current_content@ == old(self).current_content@ + remaining_content@,
            final(self).message_index == old(self).message_index,
            final(self).char_limit == old(self).char_limit,
            text@ == crate::commands::reason::part_text(
                final(self).message_index as nat,
                final(self).current_content@,
            ),
    {
        if !remaining_content.is_empty() {
            let mut c = to_chars(self.current_content.as_str());
            push_str(&mut c, remaining_content);
            self.current_content = from_chars(c.as_slice());
        } else {
            assert(self.current_content@ =~= self.current_content@ + remaining_content@);
        }
        self.render()
    }

    fn render(&self) -> (text: String)
        ensures
            text@ == crate::commands::reason::part_text(
                self.message_index as nat,
                self.current_content@,
            ),
    {
        let mut out = to_chars("**Part ");
        let n = decimal_chars(self.message_index as u128);
        push_all(&mut out, n.as_slice());
        push_str(&mut out, ":**\n```\n");
        push_str(&mut out, self.current_content.as_str());
        push_str(&mut out, "\n```");
        from_chars(out.as_slice())
    }
}

/// What the chat command reports along the way.
pub enum LmNotice {
    /// No prompt was given.
    AskPrompt,
    /// The settings could not be loaded; the error.
    ConfigError(String),
    /// The system prompt could not be read; the error.
    PromptFailed(String),
    /// The answer is on its way.
    Thinking,
    /// The answer failed; the error.
    Failed(String),
    /// The connection test started.
    Testing,
    /// The connection test failed; the error.
    ConnectionFailed(String),
    /// The conversation was forgotten.
    Cleared,
    /// There was no conversation to forget.
    NothingToClear,
    /// The model list is being fetched.
    CheckingModels,
    /// The model list could not be read.
    BadModelList,
    /// The server refused the model list; its status.
    ModelsHttpError(String),
    /// The model list could not be fetched; the error.
    ModelsConnectionFailed(String),
    /// A search started.
    Searching,
    /// The search failed; the error.
    SearchFailed(String),
}

/// The text of a notice.
pub open spec fn lm_notice_spec(n: LmNotice) -> Seq<char> {
    match n {
        LmNotice::AskPrompt => "Please provide a prompt! Usage: `^lm <your prompt>`"@,
        LmNotice::ConfigError(a0) => "❌ Configuration error: "@ + a0@,
        LmNotice::PromptFailed(a0) => "❌ Failed to load system prompt: "@ + a0@,
        LmNotice::Thinking => "🤔 **AI is thinking...**"@,
        LmNotice::Failed(a0) => "❌ Error: "@ + a0@,
        LmNotice::Testing => "🔍 Testing API connectivity..."@,
        LmNotice::ConnectionFailed(a0) => "❌ **Connection Failed**\n\nError: "@ + a0@,
        LmNotice::Cleared => "✅ Your conversation history has been cleared."@,
        LmNotice::NothingToClear => "ℹ️ You don't have any conversation history to clear."@,
        LmNotice::CheckingModels => "🔍 Checking available models..."@,
        LmNotice::BadModelList => "❌ Invalid response format from server"@,
        LmNotice::ModelsHttpError(a0) => "❌ Failed to get models: HTTP "@ + a0@,
        LmNotice::ModelsConnectionFailed(a0) => "❌ Connection failed: "@ + a0@,
        LmNotice::Searching => "🔍 Searching..."@,
        LmNotice::SearchFailed(a0) => "❌ Search failed: "@ + a0@,
    }
}

/// Writes a notice.
pub fn lm_notice_text(n: &LmNotice) -> (m: String)
    ensures
        m@ == lm_notice_spec(*n),
{
    match n {
        LmNotice::AskPrompt => {
            String::from_str("Please provide a prompt! Usage: `^lm <your prompt>`")
        },
        LmNotice::ConfigError(a0) => {
            let mut out = to_chars("❌ Configuration error: ");
            push_str(&mut out, a0.as_str());
            from_chars(out.as_slice())
        },
        LmNotice::PromptFailed(a0) => {
            let mut out = to_chars("❌ Failed to load system prompt: ");
            push_str(&mut out, a0.as_str());
            from_chars(out.as_slice())
        },
        LmNotice::Thinking => {
            String::from_str("🤔 **AI is thinking...**")
        },
        LmNotice::Failed(a0) => {
            let mut out = to_chars("❌ Error: ");
            push_str(&mut out, a0.as_str());
            from_chars(out.as_slice())
        },
        LmNotice::Testing => {
            String::from_str("🔍 Testing API connectivity...")
        },
        LmNotice::ConnectionFailed(a0) => {
            let mut out = to_chars("❌ **Connection Failed**\n\nError: ");
            push_str(&mut out, a0.as_str());
            from_chars(out.as_slice())
        },
        LmNotice::Cleared => {
            String::from_str("✅ Your conversation history has been cleared.")
        },
        LmNotice::NothingToClear => {
            String::from_str("ℹ️ You don't have any conversation history to clear.")
        },
        LmNotice::CheckingModels => {
            String::from_str("🔍 Checking available models...")
        },
        LmNotice::BadModelList => {
            String::from_str("❌ Invalid response format from server")
        },
        LmNotice::ModelsHttpError(a0) => {
            let mut out = to_chars("❌ Failed to get models: HTTP ");
            push_str(&mut out, a0.as_str());
            from_chars(out.as_slice())
        },
        LmNotice::ModelsConnectionFailed(a0) => {
            let mut out = to_chars("❌ Connection failed: ");
            push_str(&mut out, a0.as_str());
            from_chars(out.as_slice())
        },
        LmNotice::Searching => {
            String::from_str("🔍 Searching...")
        },
        LmNotice::SearchFailed(a0) => {
            let mut out = to_chars("❌ Search failed: ");
            push_str(&mut out, a0.as_str());
            from_chars(out.as_slice())
        },
    }
}

/// The report of a successful connection test; the temperature comes
/// already formatted.
pub fn connection_ok_text(base_url: &str, model: &str, temperature: &str, max_tokens: i32) -> (m: String)
    ensures
        m@ == "✅ **Connection Successful**\n\n**Server:** "@ + base_url@ + "\n**Model:** "@ + model@
            + "\n**Temperature:** "@ + temperature@ + "\n**Max Tokens:** "@
            + crate::text::signed_decimal(max_tokens as int),
{
    let mut out = to_chars("✅ **Connection Successful**\n\n**Server:** ");
    push_str(&mut out, base_url);
    push_str(&mut out, "\n**Model:** ");
    push_str(&mut out, model);
    push_str(&mut out, "\n**Temperature:** ");
    push_str(&mut out, temperature);
    push_str(&mut out, "\n**Max Tokens:** ");
    let d = crate::text::signed_decimal_chars(max_tokens as i64);
    push_all(&mut out, d.as_slice());
    from_chars(out.as_slice())
}

} // verus!
