//! The `^reason` command: reasoning answers without their think blocks.
use vstd::prelude::*;
use crate::chunking::{chunk_ok, split_by_lines, split_message_spec, views};
use crate::streaming::{frame_chunks, framed_chunk};
use crate::text::{
    contains_pat, contains_str, decimal, decimal_chars, from_chars, push_all, push_str,
    replace_all, replace_chars, slice_chars, starts_with, starts_with_str, to_chars, trim,
    trim_chars, utf8_len, utf8_len_of, byte_boundary, byte_prefix, prefix_bytes,
};
use crate::ytsubs::last_index_of;
use crate::thinking::{filter_thinking, filter_thinking_spec, process_reasoning, process_reasoning_spec};

verus! {

/// The command group of the reasoning command.
pub struct Reason;

impl Reason {
    pub fn new() -> (r: Self)
        ensures
            r == Reason,
    {
        Reason
    }
}

/// Splits an answer into Discord-sized chunks at line boundaries: lines are
/// packed greedily while a chunk stays within `max_len` bytes, and a single
/// line longer than that is kept whole.
pub fn split_message(content: &str, max_len: usize) -> (chunks: Vec<String>)
    ensures
        views(chunks@) == split_message_spec(content@, max_len as nat),
        forall|k: int|
            0 <= k < chunks@.len() ==> (#[trigger] chunks@[k])@.len() > 0 && chunk_ok(
                chunks@[k]@,
                max_len as nat,
            ),
{
    split_by_lines(content, max_len)
}

/// Removes `<think>…</think>` blocks, trims every line, drops blank lines and
/// trims the result.
pub fn filter_thinking_tags(content: &str) -> (r: String)
    ensures
        r@ == filter_thinking_spec(content@),
{
    filter_thinking(content)
}

/// The filtered answer, or a notice when only thinking content was left.
pub fn process_reasoning_content(content: &str) -> (r: String)
    ensures
        r@ == process_reasoning_spec(content@),
{
    process_reasoning(content)
}

/// What a `^reason` invocation asks for.
#[derive(PartialEq, Eq, Structural, Clone, Copy)]
pub enum ReasonCommand {
    /// No question at all.
    Empty,
    /// `-s <query>` / `--search <query>`.
    Search,
    /// A search flag without a query.
    MissingSearchQuery,
    /// `--clear…` or `-c`: forget the reasoning conversation.
    Clear,
    /// Anything else: a question.
    Question,
}

/// How the bot reads a `^reason` invocation, after trimming it.
pub open spec fn reason_command_spec(raw: Seq<char>) -> ReasonCommand {
    let input = trim(raw);
    if input.len() == 0 {
        ReasonCommand::Empty
    } else if starts_with(input, "-s "@) || starts_with(input, "--search "@) {
        if trim(reason_query(input)).len() == 0 {
            ReasonCommand::MissingSearchQuery
        } else {
            ReasonCommand::Search
        }
    } else if starts_with(input, "--clear"@) || input == "-c"@ {
        ReasonCommand::Clear
    } else {
        ReasonCommand::Question
    }
}

/// The query after a search flag.
pub open spec fn reason_query(input: Seq<char>) -> Seq<char> {
    if starts_with(input, "-s "@) {
        input.skip(3)
    } else {
        input.skip(9)
    }
}

/// The text that goes with the command: the query or the question.
pub open spec fn reason_argument_spec(raw: Seq<char>) -> Seq<char> {
    match reason_command_spec(raw) {
        ReasonCommand::Search => reason_query(trim(raw)),
        ReasonCommand::Question => trim(raw),
        _ => Seq::empty(),
    }
}

fn equals(a: &Vec<char>, b: &str) -> (r: bool)
    ensures
        r == (a@ == b@),
{
    let bc = to_chars(b);
    crate::cleaning::eq_chars(a.as_slice(), bc.as_slice())
}

/// Reads a `^reason` invocation.
pub fn parse_reason_input(raw: &str) -> (r: (ReasonCommand, String))
    ensures
        r.0 == reason_command_spec(raw@),
        r.1@ == reason_argument_spec(raw@),
{
    let chars = to_chars(raw);
    let input = trim_chars(chars.as_slice());
    let input_str = from_chars(input.as_slice());
    if input.len() == 0 {
        return (ReasonCommand::Empty, String::new());
    }
    let short = starts_with_str(input_str.as_str(), "-s ");
    if short || starts_with_str(input_str.as_str(), "--search ") {
        proof {
            reveal_strlit("-s ");
            reveal_strlit("--search ");
        }
        let from: usize = if short {
            3
        } else {
            9
        };
        let query = slice_chars(input.as_slice(), from, input.len());
        assert(query@ =~= reason_query(input@));
        if trim_chars(query.as_slice()).len() == 0 {
            return (ReasonCommand::MissingSearchQuery, String::new());
        }
        return (ReasonCommand::Search, from_chars(query.as_slice()));
    }
    if starts_with_str(input_str.as_str(), "--clear") || equals(&input, "-c") {
        return (ReasonCommand::Clear, String::new());
    }
    (ReasonCommand::Question, input_str)
}

/// The reply after a request to clear the reasoning conversation.
pub fn clear_reply(had_context: bool) -> (m: String)
    ensures
        m@ == (if had_context {
            "**Reasoning Context Cleared** ✅\nYour reasoning conversation history has been reset. The next reasoning question you ask will start a brand new context."@
        } else {
            "**No Reasoning Context Found** ℹ️\nYou don't have any active reasoning conversation history to clear."@
        }),
{
    if had_context {
        String::from_str(
            "**Reasoning Context Cleared** ✅\nYour reasoning conversation history has been reset. The next reasoning question you ask will start a brand new context.",
        )
    } else {
        String::from_str(
            "**No Reasoning Context Found** ℹ️\nYou don't have any active reasoning conversation history to clear.",
        )
    }
}

/// The system prompt used when no reasoning prompt file can be read.
pub fn fallback_reasoning_prompt() -> (p: String)
    ensures
        p@ == "You are an advanced AI reasoning assistant. Think step-by-step through problems and provide detailed, logical explanations. Break down complex questions into smaller parts and explain your reasoning process clearly."@,
{
    String::from_str(
        "You are an advanced AI reasoning assistant. Think step-by-step through problems and provide detailed, logical explanations. Break down complex questions into smaller parts and explain your reasoning process clearly.",
    )
}

/// The checks before a reasoning request is sent, in order, with the reply
/// for the first that fails.
pub open spec fn preflight_spec(
    system_prompt: Seq<char>,
    message_count: nat,
    model: Seq<char>,
    base_url: Seq<char>,
) -> Option<Seq<char>> {
    if trim(system_prompt).len() == 0 {
        Some("**Error:** System prompt configuration is invalid. Check your prompt files."@)
    } else if message_count < 2 {
        Some("**Error:** Failed to prepare reasoning request. Please try again."@)
    } else if trim(model).len() == 0 {
        Some("**Error:** Invalid reasoning model configuration. Check your lmapiconf.txt file."@)
    } else if trim(base_url).len() == 0 {
        Some("**Error:** Invalid server configuration. Check your lmapiconf.txt file."@)
    } else {
        None
    }
}

fn blank(s: &str) -> (b: bool)
    ensures
        b == (trim(s@).len() == 0),
{
    let c = to_chars(s);
    trim_chars(c.as_slice()).len() == 0
}

/// Checks a reasoning request before it is sent.
pub fn preflight(system_prompt: &str, message_count: usize, model: &str, base_url: &str) -> (r: Option<String>)
    ensures
        match r {
            Some(m) => preflight_spec(system_prompt@, message_count as nat, model@, base_url@) == Some(m@),
            None => preflight_spec(system_prompt@, message_count as nat, model@, base_url@) is None,
        },
{
    if blank(system_prompt) {
        Some(String::from_str("**Error:** System prompt configuration is invalid. Check your prompt files."))
    } else if message_count < 2 {
        Some(String::from_str("**Error:** Failed to prepare reasoning request. Please try again."))
    } else if blank(model) {
        Some(String::from_str("**Error:** Invalid reasoning model configuration. Check your lmapiconf.txt file."))
    } else if blank(base_url) {
        Some(String::from_str("**Error:** Invalid server configuration. Check your lmapiconf.txt file."))
    } else {
        None
    }
}

/// A reasoning request that cannot be sent: the text shown in the channel
/// and the error returned.
pub struct RequestRefusal {
    pub shown: String,
    pub error: String,
}

/// The checks on a streaming request, in order; `temperature_ok` says
/// whether the temperature lies in 0.0 to 2.0.
pub open spec fn request_refusal_spec(
    message_count: nat,
    model: Seq<char>,
    temperature_ok: bool,
    max_tokens: int,
    base_url: Seq<char>,
) -> Option<(Seq<char>, Seq<char>)> {
    let api_url = base_url + "/v1/chat/completions"@;
    if message_count == 0 {
        Some(("**Error:** Failed to prepare chat request. Please try again."@, "Chat request has no messages"@))
    } else if trim(model).len() == 0 {
        Some(("**Error:** Invalid model configuration. Check your lmapiconf.txt file."@, "Chat request has empty model name"@))
    } else if !temperature_ok {
        Some(("**Error:** Invalid temperature configuration. Check your lmapiconf.txt file."@, "Invalid temperature value"@))
    } else if max_tokens <= 0 || max_tokens > 32000 {
        Some(("**Error:** Invalid max_tokens configuration. Check your lmapiconf.txt file."@, "Invalid max_tokens value"@))
    } else if !starts_with(api_url, "http://"@) && !starts_with(api_url, "https://"@) {
        Some(("**Error:** Invalid server URL configuration. Check your lmapiconf.txt file."@, "Invalid API URL format"@))
    } else {
        None
    }
}

fn refusal(shown: &str, error: &str) -> (r: RequestRefusal)
    ensures
        r.shown@ == shown@,
        r.error@ == error@,
{
    RequestRefusal { shown: String::from_str(shown), error: String::from_str(error) }
}

/// Checks a streaming request before it is sent.
pub fn check_request(
    message_count: usize,
    model: &str,
    temperature_ok: bool,
    max_tokens: i32,
    base_url: &str,
) -> (r: Option<RequestRefusal>)
    ensures
        match r {
            Some(x) => request_refusal_spec(message_count as nat, model@, temperature_ok, max_tokens as int, base_url@) == Some((x.shown@, x.error@)),
            None => request_refusal_spec(message_count as nat, model@, temperature_ok, max_tokens as int, base_url@) is None,
        },
{
    if message_count == 0 {
        return Some(refusal("**Error:** Failed to prepare chat request. Please try again.", "Chat request has no messages"));
    }
    if blank(model) {
        return Some(refusal("**Error:** Invalid model configuration. Check your lmapiconf.txt file.", "Chat request has empty model name"));
    }
    if !temperature_ok {
        return Some(refusal("**Error:** Invalid temperature configuration. Check your lmapiconf.txt file.", "Invalid temperature value"));
    }
    if max_tokens <= 0 || max_tokens > 32000 {
        return Some(refusal("**Error:** Invalid max_tokens configuration. Check your lmapiconf.txt file.", "Invalid max_tokens value"));
    }
    let api_url = crate::text::concat_str(base_url, "/v1/chat/completions");
    if !starts_with_str(api_url.as_str(), "http://") && !starts_with_str(api_url.as_str(), "https://") {
        return Some(refusal("**Error:** Invalid server URL configuration. Check your lmapiconf.txt file.", "Invalid API URL format"));
    }
    None
}

/// What a failed probe of the server means: a permission, timeout or
/// refusal error stops the request with an explanation; anything else lets
/// it go ahead.
pub open spec fn probe_failure_spec(base_url: Seq<char>, e: Seq<char>) -> Option<Seq<char>> {
    if contains_pat(e, "os error 10013"@) || contains_pat(e, "access permissions"@) {
        Some(
            "Windows Network Permission Error (10013): Cannot connect to "@ + base_url
                + ".\n\n**Common Solutions:**\n1. **Windows Firewall:** Allow the application through Windows Defender Firewall\n2. **Network Access:** Ensure the AI server at "@
                + base_url
                + " is running and accessible\n3. **Port Access:** Check if port 11434 is blocked by antivirus or firewall\n4. **Local Network:** Try using localhost (127.0.0.1) instead of "@
                + replace_all(base_url, "http://"@, Seq::empty())
                + " if running locally\n5. **Administrator:** Try running as administrator if needed\n\n**Original error:** "@
                + e,
        )
    } else if contains_pat(e, "timeout"@) || contains_pat(e, "timed out"@) {
        Some(
            "Connection Timeout: Cannot reach AI server at "@ + base_url
                + ".\n\n**Check:**\n1. AI server is running and accessible\n2. Network connection is stable\n3. Server is not overloaded\n\n**Original error:** "@
                + e,
        )
    } else if contains_pat(e, "refused"@) || contains_pat(e, "connection refused"@) {
        Some(
            "Connection Refused: AI server at "@ + base_url
                + " is not accepting connections.\n\n**Check:**\n1. AI server (LM Studio/Ollama) is running\n2. Server is listening on the correct port\n3. No other application is using the port\n\n**Original error:** "@
                + e,
        )
    } else {
        None
    }
}

/// Explains a failed probe of the server, or `None` to go ahead anyway.
pub fn probe_failure(base_url: &str, error_text: &str) -> (r: Option<String>)
    ensures
        match r {
            Some(m) => probe_failure_spec(base_url@, error_text@) == Some(m@),
            None => probe_failure_spec(base_url@, error_text@) is None,
        },
{
    let e = error_text;
    if contains_str(e, "os error 10013") || contains_str(e, "access permissions") {
        let mut out = to_chars("Windows Network Permission Error (10013): Cannot connect to ");
        push_str(&mut out, base_url);
        push_str(&mut out, ".\n\n**Common Solutions:**\n1. **Windows Firewall:** Allow the application through Windows Defender Firewall\n2. **Network Access:** Ensure the AI server at ");
        push_str(&mut out, base_url);
        push_str(&mut out, " is running and accessible\n3. **Port Access:** Check if port 11434 is blocked by antivirus or firewall\n4. **Local Network:** Try using localhost (127.0.0.1) instead of ");
        let b = to_chars(base_url);
        let scheme = to_chars("http://");
        let nothing: Vec<char> = Vec::new();
        proof {
            reveal_strlit("http://");
        }
        let host = replace_chars(b.as_slice(), scheme.as_slice(), nothing.as_slice());
        assert(nothing@ =~= Seq::<char>::empty());
        push_all(&mut out, host.as_slice());
        push_str(&mut out, " if running locally\n5. **Administrator:** Try running as administrator if needed\n\n**Original error:** ");
        push_str(&mut out, e);
        Some(from_chars(out.as_slice()))
    } else if contains_str(e, "timeout") || contains_str(e, "timed out") {
        let mut out = to_chars("Connection Timeout: Cannot reach AI server at ");
        push_str(&mut out, base_url);
        push_str(&mut out, ".\n\n**Check:**\n1. AI server is running and accessible\n2. Network connection is stable\n3. Server is not overloaded\n\n**Original error:** ");
        push_str(&mut out, e);
        Some(from_chars(out.as_slice()))
    } else if contains_str(e, "refused") || contains_str(e, "connection refused") {
        let mut out = to_chars("Connection Refused: AI server at ");
        push_str(&mut out, base_url);
        push_str(&mut out, " is not accepting connections.\n\n**Check:**\n1. AI server (LM Studio/Ollama) is running\n2. Server is listening on the correct port\n3. No other application is using the port\n\n**Original error:** ");
        push_str(&mut out, e);
        Some(from_chars(out.as_slice()))
    } else {
        None
    }
}

/// Why a streamed reasoning answer is refused.
#[derive(PartialEq, Eq, Structural, Clone, Copy)]
pub enum AnswerFailure {
    /// No delta carried any content.
    NoContent,
    /// The content was empty.
    ZeroCharacters,
    /// The content was only whitespace.
    OnlyWhitespace,
    /// Nothing was left once think blocks and blank lines were removed.
    FilteredOut,
}

impl AnswerFailure {
    /// The error text of the refusal.
    pub fn message(&self) -> (m: String)
        ensures
            m@ == match self {
                AnswerFailure::NoContent => "No content received from API stream"@,
                AnswerFailure::ZeroCharacters => "API returned 0 characters in response - this indicates a problem with the API or model"@,
                AnswerFailure::OnlyWhitespace => "API returned only whitespace"@,
                AnswerFailure::FilteredOut => "Processed response is empty after filtering"@,
            },
    {
        match self {
            AnswerFailure::NoContent => String::from_str("No content received from API stream"),
            AnswerFailure::ZeroCharacters => String::from_str(
                "API returned 0 characters in response - this indicates a problem with the API or model",
            ),
            AnswerFailure::OnlyWhitespace => String::from_str("API returned only whitespace"),
            AnswerFailure::FilteredOut => String::from_str("Processed response is empty after filtering"),
        }
    }

    /// What the answer message is edited to for the refusal, if anything.
    pub fn shown_text(&self) -> (m: Option<String>)
        ensures
            match self {
                AnswerFailure::OnlyWhitespace => m matches Some(t) && t@ == "**Error:** AI server returned empty response. Please try again."@,
                AnswerFailure::FilteredOut => m matches Some(t) && t@ == "**Error:** AI response was filtered out completely. Please try again."@,
                _ => m is None,
            },
    {
        match self {
            AnswerFailure::OnlyWhitespace => Some(String::from_str("**Error:** AI server returned empty response. Please try again.")),
            AnswerFailure::FilteredOut => Some(String::from_str("**Error:** AI response was filtered out completely. Please try again.")),
            _ => None,
        }
    }
}

/// The answer shown for streamed content: refused when nothing usable came
/// or nothing is left after filtering, otherwise the content with its think
/// blocks removed (twice, as the filtered text is processed again).
pub open spec fn answer_spec(raw: Seq<char>, received_any: bool) -> Result<Seq<char>, AnswerFailure> {
    if !received_any {
        Err(AnswerFailure::NoContent)
    } else if raw.len() == 0 {
        Err(AnswerFailure::ZeroCharacters)
    } else if trim(raw).len() == 0 {
        Err(AnswerFailure::OnlyWhitespace)
    } else if trim(process_reasoning_spec(filter_thinking_spec(raw))).len() == 0 {
        Err(AnswerFailure::FilteredOut)
    } else {
        Ok(process_reasoning_spec(filter_thinking_spec(raw)))
    }
}

/// Turns streamed content into the answer to show, or refuses it.
pub fn reasoning_answer(raw: &str, received_any: bool) -> (r: Result<String, AnswerFailure>)
    ensures
        match r {
            Ok(a) => answer_spec(raw@, received_any) == Ok::<Seq<char>, AnswerFailure>(a@),
            Err(f) => answer_spec(raw@, received_any) == Err::<Seq<char>, AnswerFailure>(f),
        },
{
    if !received_any {
        return Err(AnswerFailure::NoContent);
    }
    if raw.is_empty() {
        return Err(AnswerFailure::ZeroCharacters);
    }
    if blank(raw) {
        return Err(AnswerFailure::OnlyWhitespace);
    }
    let filtered = filter_thinking(raw);
    let processed = process_reasoning(filtered.as_str());
    if blank(processed.as_str()) {
        return Err(AnswerFailure::FilteredOut);
    }
    Ok(processed)
}

/// The messages that carry a reasoning answer: chunked within `max_len`
/// bytes and framed as `Reasoning Analysis`, numbered when there are several.
pub fn format_reasoning_answer(content: &str, max_len: usize) -> (messages: Vec<String>)
    ensures
        messages@.len() == split_message_spec(content@, max_len as nat).len(),
        forall|k: int|
            0 <= k < messages@.len() ==> (#[trigger] messages@[k])@ == framed_chunk(
                "Reasoning Analysis"@,
                k as nat,
                messages@.len() as nat,
                split_message_spec(content@, max_len as nat)[k],
            ),
{
    let chunks = split_message(content, max_len);
    let framed = frame_chunks("Reasoning Analysis", &chunks);
    assert forall|k: int| 0 <= k < framed@.len() implies (#[trigger] framed@[k])@ == framed_chunk(
        "Reasoning Analysis"@,
        k as nat,
        framed@.len() as nat,
        split_message_spec(content@, max_len as nat)[k],
    ) by {
        assert(views(chunks@)[k] == chunks@[k]@);
    }
    framed
}

/// The text of a partial answer message.
pub open spec fn part_text(index: nat, content: Seq<char>) -> Seq<char> {
    "**Part "@ + decimal(index) + ":**\n```\n"@ + content + "\n```"@
}

/// The answer being streamed into numbered messages.
pub struct PartState {
    pub current_content: String,
    pub message_index: usize,
    pub char_limit: usize,
}

/// What to do with the messages after new content arrives.
pub enum PartUpdate {
    /// Edit the current message to this text.
    Edit(String),
    /// Edit the current message to the first text (the full part), then
    /// send a new message with the second text.
    Rollover(String, String),
}

fn part_text_of(index: usize, content: &Vec<char>) -> (t: Vec<char>)
    ensures
        t@ == part_text(index as nat, content@),
{
    let mut out = to_chars("**Part ");
    let n = decimal_chars(index as u128);
    push_all(&mut out, n.as_slice());
    push_str(&mut out, ":**\n```\n");
    push_all(&mut out, content.as_slice());
    push_str(&mut out, "\n```");
    out
}

impl PartState {
    /// Adds streamed content: while the framed part fits within the limit it
    /// is edited in place; once it is longer, the current message is edited
    /// to the full part and a new numbered part starts with the new content.
    pub fn add_content(&mut self, new_content: &str) -> (u: PartUpdate)
        requires
            old(self).message_index < usize::MAX,
        ensures
            ({
                let grown = old(self).current_content@ + new_content@;
                let framed = part_text(old(self).message_index as nat, grown);
                if utf8_len(framed) > old(self).char_limit {
                    &&& final(self).message_index == old(self).message_index + 1
                    &&& final(self).current_content@ == new_content@
                    &&& u matches PartUpdate::Rollover(a, b) && a@ == framed && b@ == part_text(
                        final(self).message_index as nat,
                        new_content@,
                    )
                } else {
                    &&& final(self).message_index == old(self).message_index
                    &&& final(self).current_content@ == grown
                    &&& u matches PartUpdate::Edit(a) && a@ == framed
                }
            }),
            final(self).char_limit == old(self).char_limit,
    {
        let mut grown = to_chars(self.current_content.as_str());
        push_str(&mut grown, new_content);
        let framed = part_text_of(self.message_index, &grown);
        let len = utf8_len_of(framed.as_slice());
        if len > self.char_limit as u128 {
            self.message_index = self.message_index + 1;
            self.current_content = String::from_str(new_content);
            let fresh = to_chars(new_content);
            let next = part_text_of(self.message_index, &fresh);
            PartUpdate::Rollover(from_chars(framed.as_slice()), from_chars(next.as_slice()))
        } else {
            self.current_content = from_chars(grown.as_slice());
            PartUpdate::Edit(from_chars(framed.as_slice()))
        }
    }
}

/// The text of the last message once the answer is complete.
pub open spec fn complete_text(index: nat, content: Seq<char>) -> Seq<char> {
    if index == 1 {
        "**Complete**\n```\n"@ + content + "\n```"@
    } else {
        "**Complete (Part "@ + decimal(index) + "/"@ + decimal(index) + ")**\n```\n"@ + content
            + "\n```"@
    }
}

/// Marks the last part as complete.
pub fn complete_message(index: usize, content: &str) -> (m: String)
    ensures
        m@ == complete_text(index as nat, content@),
{
    if index == 1 {
        let mut out = to_chars("**Complete**\n```\n");
        push_str(&mut out, content);
        push_str(&mut out, "\n```");
        from_chars(out.as_slice())
    } else {
        let mut out = to_chars("**Complete (Part ");
        let n = decimal_chars(index as u128);
        push_all(&mut out, n.as_slice());
        push_str(&mut out, "/");
        push_all(&mut out, n.as_slice());
        push_str(&mut out, ")**\n```\n");
        push_str(&mut out, content);
        push_str(&mut out, "\n```");
        from_chars(out.as_slice())
    }
}

/// The user prompt of a reasoning search.
pub open spec fn reasoning_search_prompt_spec(query: Seq<char>, formatted: Seq<char>) -> Seq<char> {
    "User's search query: "@ + query + "\n\nSources to analyze:\n"@ + formatted
        + "\n\nProvide a VERY CONCISE analytical response that:\n1. Addresses the user's question directly\n2. Cites 2-3 sources with [title](URL) format\n3. Uses clear reasoning\n\nCRITICAL: Keep your ENTIRE response under 1200 characters. Be extremely concise and direct."@
}

/// Builds the user prompt of a reasoning search.
pub fn reasoning_search_prompt(query: &str, formatted: &str) -> (p: String)
    ensures
        p@ == reasoning_search_prompt_spec(query@, formatted@),
{
    let mut out = to_chars("User's search query: ");
    push_str(&mut out, query);
    push_str(&mut out, "\n\nSources to analyze:\n");
    push_str(&mut out, formatted);
    push_str(
        &mut out,
        "\n\nProvide a VERY CONCISE analytical response that:\n1. Addresses the user's question directly\n2. Cites 2-3 sources with [title](URL) format\n3. Uses clear reasoning\n\nCRITICAL: Keep your ENTIRE response under 1200 characters. Be extremely concise and direct.",
    );
    from_chars(out.as_slice())
}

/// Where the search note goes: appended to the last message while that stays
/// within 2000 bytes (`Ok`), else into a message of its own (`Err`).
pub open spec fn search_note_spec(last_message: Seq<char>, query: Seq<char>) -> Result<Seq<char>, Seq<char>> {
    let note = "\n\n---\n*Reasoning Search: "@ + query + "*"@;
    if utf8_len(last_message + note) <= 2000 {
        Ok(last_message + note)
    } else {
        Err(note)
    }
}

/// Places the search note after a reasoning search answer.
pub fn place_search_note(last_message: &str, query: &str) -> (r: Result<String, String>)
    ensures
        match (r, search_note_spec(last_message@, query@)) {
            (Ok(a), Ok(b)) => a@ == b,
            (Err(a), Err(b)) => a@ == b,
            _ => false,
        },
{
    let mut note = to_chars("\n\n---\n*Reasoning Search: ");
    push_str(&mut note, query);
    push_str(&mut note, "*");
    let mut whole = to_chars(last_message);
    push_all(&mut whole, note.as_slice());
    if utf8_len_of(whole.as_slice()) <= 2000 {
        Ok(from_chars(whole.as_slice()))
    } else {
        Err(from_chars(note.as_slice()))
    }
}

/// How many characters the next part of a long summary takes: when the rest
/// is longer than `limit` bytes, up to and including the last `.` within the
/// first `limit` bytes, else up to the last space there, else the whole
/// `limit` bytes; otherwise all of it.
pub open spec fn next_part_len(r: Seq<char>, limit: nat) -> int {
    if utf8_len(r) > limit {
        let p = byte_prefix(r, limit);
        match last_index_of(p, '.') {
            Some(k) => k + 1,
            None => match last_index_of(p, ' ') {
                Some(k) => k,
                None => p.len() as int,
            },
        }
    } else {
        r.len() as int
    }
}

/// The parts that `r` is posted in, when that ends within `fuel` parts and
/// every cut falls on a character boundary.
pub open spec fn summary_parts(r: Seq<char>, limit: nat, fuel: nat) -> Option<Seq<Seq<char>>>
    decreases fuel,
{
    if trim(r).len() == 0 {
        Some(Seq::empty())
    } else if fuel == 0 || (utf8_len(r) > limit && !byte_boundary(r, limit)) {
        None
    } else {
        let n = next_part_len(r, limit);
        match summary_parts(r.skip(n), limit, (fuel - 1) as nat) {
            Some(rest) => Some(seq![r.take(n)] + rest),
            None => None,
        }
    }
}

/// Posting `r` in parts comes to an end without cutting a character.
pub open spec fn summary_posts_end(r: Seq<char>, limit: nat) -> bool {
    exists|f: nat| #[trigger] summary_parts(r, limit, f) is Some
}

/// The parts that `r` is posted in.
pub open spec fn summary_chunks(r: Seq<char>, limit: nat) -> Seq<Seq<char>> {
    summary_parts(r, limit, choose|f: nat| #[trigger] summary_parts(r, limit, f) is Some)->0
}

/// More steps give the same parts.
pub proof fn lemma_summary_parts_fuel(r: Seq<char>, limit: nat, f: nat, g: nat)
    requires
        summary_parts(r, limit, f) is Some,
        f <= g,
    ensures
        summary_parts(r, limit, g) == summary_parts(r, limit, f),
    decreases f,
{
    if trim(r).len() != 0 {
        let n = next_part_len(r, limit);
        lemma_summary_parts_fuel(r.skip(n), limit, (f - 1) as nat, (g - 1) as nat);
    }
}

/// The same parts, whatever the number of steps that suffices.
pub proof fn lemma_summary_chunks(r: Seq<char>, limit: nat, f: nat)
    requires
        summary_parts(r, limit, f) is Some,
    ensures
        summary_parts(r, limit, f) == Some(summary_chunks(r, limit)),
{
    let g = choose|g: nat| #[trigger] summary_parts(r, limit, g) is Some;
    if f <= g {
        lemma_summary_parts_fuel(r, limit, f, g);
    } else {
        lemma_summary_parts_fuel(r, limit, g, f);
    }
}

/// The text of an analytical summary part.
pub open spec fn summary_part_text(index: nat, chunk: Seq<char>) -> Seq<char> {
    "**Analytical Summary (Part "@ + decimal(index) + "):**\n\n"@ + chunk
}

/// The parts already posted, followed by those still to come.
pub open spec fn after_parts(done: Seq<Seq<char>>, rest: Option<Seq<Seq<char>>>) -> Option<Seq<Seq<char>>> {
    match rest {
        Some(r) => Some(done + r),
        None => None,
    }
}

/// A rest whose next part is empty is posted again and again: no number of
/// steps ends it.
pub proof fn lemma_summary_stuck(r: Seq<char>, limit: nat, f: nat)
    requires
        trim(r).len() > 0,
        next_part_len(r, limit) == 0,
    ensures
        summary_parts(r, limit, f) is None,
    decreases f,
{
    if f > 0 {
        assert(r.skip(0) =~= r);
        lemma_summary_stuck(r, limit, (f - 1) as nat);
    }
}

/// The messages that post a long analytical summary, numbered from
/// `first_index`; nothing is posted for blank content.  `None` when the
/// posting would never end (a part comes out empty when the only space
/// within the limit opens the rest, and the same rest would be posted again
/// and again) or would cut a character in two.
pub fn analytical_summary_parts(content: &str, first_index: usize, char_limit: usize) -> (r: Option<Vec<String>>)
    ensures
        r is Some <==> summary_posts_end(content@, char_limit as nat),
        r matches Some(parts) ==> {
            &&& parts@.len() == summary_chunks(content@, char_limit as nat).len()
            &&& forall|k: int|
                0 <= k < parts@.len() ==> (#[trigger] parts@[k])@ == summary_part_text(
                    (first_index + k) as nat,
                    summary_chunks(content@, char_limit as nat)[k],
                )
        },
{
    let ghost limit = char_limit as nat;
    let chars = to_chars(content);
    let ghost mut done: Seq<Seq<char>> = Seq::empty();
    let mut parts: Vec<String> = Vec::new();
    let mut pos: usize = 0;
    assert(chars@.skip(0) =~= chars@);
    assert forall|f: nat| #[trigger] summary_parts(content@, limit, f + 0) == after_parts(
        done,
        summary_parts(chars@.skip(0), limit, f),
    ) by {
        if let Some(x) = summary_parts(content@, limit, f) {
            assert(done + x =~= x);
        }
    }
    loop
        invariant
            pos <= chars@.len(),
            chars@ == content@,
            limit == char_limit as nat,
            parts@.len() == done.len(),
            forall|f: nat|
                #[trigger] summary_parts(content@, limit, f + done.len()) == after_parts(
                    done,
                    summary_parts(chars@.skip(pos as int), limit, f),
                ),
            forall|f: nat| f < done.len() ==> #[trigger] summary_parts(content@, limit, f) is None,
            forall|k: int|
                0 <= k < parts@.len() ==> (#[trigger] parts@[k])@ == summary_part_text(
                    (first_index + k) as nat,
                    done[k],
                ),
        decreases chars@.len() - pos,
    {
        let r = slice_chars(chars.as_slice(), pos, chars.len());
        assert(r@ =~= chars@.skip(pos as int));
        if trim_chars(r.as_slice()).len() == 0 {
            proof {
                assert(summary_parts(content@, limit, 0 + done.len()) == after_parts(
                    done,
                    summary_parts(r@, limit, 0),
                ));
                assert(done + Seq::<Seq<char>>::empty() =~= done);
                lemma_summary_chunks(content@, limit, done.len());
            }
            return Some(parts);
        }
        let long = utf8_len_of(r.as_slice()) > char_limit as u128;
        if long {
            if !crate::text::has_byte_boundary(r.as_slice(), char_limit as u128) {
                proof {
                    assert forall|f: nat| !(#[trigger] summary_parts(content@, limit, f) is Some) by {
                        if f >= done.len() {
                            let g = (f - done.len()) as nat;
                            assert(summary_parts(content@, limit, g + done.len()) == after_parts(
                                done,
                                summary_parts(r@, limit, g),
                            ));
                            assert(g + done.len() == f);
                        }
                    }
                }
                return None;
            }
        }
        let n: usize = if long {
            let p = prefix_bytes(r.as_slice(), char_limit as u128);
            proof {
                crate::ytsubs::lemma_last_index_bound(p@, '.');
                crate::ytsubs::lemma_last_index_bound(p@, ' ');
            }
            match crate::ytsubs::last_index(p.as_slice(), '.') {
                Some(k) => k + 1,
                None => match crate::ytsubs::last_index(p.as_slice(), ' ') {
                    Some(k) => k,
                    None => p.len(),
                },
            }
        } else {
            r.len()
        };
        assert(n as int == next_part_len(r@, limit));
        if n == 0 {
            proof {
                assert forall|f: nat| !(#[trigger] summary_parts(content@, limit, f) is Some) by {
                    if f >= done.len() {
                        let g = (f - done.len()) as nat;
                        lemma_summary_stuck(r@, limit, g);
                        assert(summary_parts(content@, limit, g + done.len()) == after_parts(
                            done,
                            summary_parts(r@, limit, g),
                        ));
                        assert(g + done.len() == f);
                    }
                }
            }
            return None;
        }
        let chunk = slice_chars(r.as_slice(), 0, n);
        assert(chunk@ =~= r@.take(n as int));
        let mut text = to_chars("**Analytical Summary (Part ");
        let d = decimal_chars(first_index as u128 + parts.len() as u128);
        push_all(&mut text, d.as_slice());
        push_str(&mut text, "):**\n\n");
        push_all(&mut text, chunk.as_slice());
        parts.push(from_chars(text.as_slice()));
        assert(chars@.skip(pos as int).skip(n as int) =~= chars@.skip(pos + n));
        let ghost old_done = done;
        proof {
            done = done.push(chunk@);
            assert forall|f: nat| #[trigger] summary_parts(content@, limit, f + done.len()) == after_parts(
                done,
                summary_parts(chars@.skip(pos + n), limit, f),
            ) by {
                assert(summary_parts(content@, limit, (f + 1) + old_done.len()) == after_parts(
                    old_done,
                    summary_parts(r@, limit, f + 1),
                ));
                assert((f + 1) + old_done.len() == f + done.len());
                if let Some(x) = summary_parts(chars@.skip(pos + n), limit, f) {
                    assert(old_done + (seq![r@.take(n as int)] + x) =~= done + x);
                }
            }
            assert forall|f: nat| f < done.len() implies #[trigger] summary_parts(content@, limit, f) is None by {
                if f == old_done.len() {
                    assert(summary_parts(content@, limit, 0 + old_done.len()) == after_parts(
                        old_done,
                        summary_parts(r@, limit, 0),
                    ));
                }
            }
        }
        pos = pos + n;
    }
}

/// The error when the reasoning request itself could not be sent.
pub open spec fn stream_request_failure_spec(api_url: Seq<char>, base_url: Seq<char>, e: Seq<char>) -> Seq<char> {
    if contains_pat(e, "os error 10013"@) || contains_pat(e, "access permissions"@) {
        "Windows Network Permission Error (10013): Cannot connect to AI API at "@ + api_url
            + ".\n\n**Solutions:**\n1. **Windows Firewall:** Add firewall exception for this application\n2. **Run as Administrator:** Try running the bot as administrator\n3. **Check AI Server:** Ensure LM Studio/Ollama is running at "@
            + base_url
            + "\n4. **Port Access:** Verify port 11434 isn't blocked\n5. **Network Config:** Try localhost (127.0.0.1) if running locally\n\n**Original error:** "@
            + e
    } else if contains_pat(e, "timeout"@) || contains_pat(e, "timed out"@) {
        "Request Timeout: The AI server at "@ + base_url
            + " took too long to respond.\n\n**Check:**\n1. AI server is not overloaded\n2. Model is loaded and ready\n3. Server has enough resources\n\n**Original error:** "@
            + e
    } else {
        "Streaming API request to "@ + api_url + " failed: "@ + e
    }
}

/// Explains a reasoning request that could not be sent.
pub fn stream_request_failure(api_url: &str, base_url: &str, error: &str) -> (m: String)
    ensures
        m@ == stream_request_failure_spec(api_url@, base_url@, error@),
{
    let mut out: Vec<char> = Vec::new();
    if contains_str(error, "os error 10013") || contains_str(error, "access permissions") {
        push_str(&mut out, "Windows Network Permission Error (10013): Cannot connect to AI API at ");
        push_str(&mut out, api_url);
        push_str(&mut out, ".\n\n**Solutions:**\n1. **Windows Firewall:** Add firewall exception for this application\n2. **Run as Administrator:** Try running the bot as administrator\n3. **Check AI Server:** Ensure LM Studio/Ollama is running at ");
        push_str(&mut out, base_url);
        push_str(&mut out, "\n4. **Port Access:** Verify port 11434 isn't blocked\n5. **Network Config:** Try localhost (127.0.0.1) if running locally\n\n**Original error:** ");
        push_str(&mut out, error);
    } else if contains_str(error, "timeout") || contains_str(error, "timed out") {
        push_str(&mut out, "Request Timeout: The AI server at ");
        push_str(&mut out, base_url);
        push_str(&mut out, " took too long to respond.\n\n**Check:**\n1. AI server is not overloaded\n2. Model is loaded and ready\n3. Server has enough resources\n\n**Original error:** ");
        push_str(&mut out, error);
    } else {
        push_str(&mut out, "Streaming API request to ");
        push_str(&mut out, api_url);
        push_str(&mut out, " failed: ");
        push_str(&mut out, error);
    }
    from_chars(out.as_slice())
}

/// The error when the server refused the reasoning request.
pub fn stream_status_failure(status: &str, body: &str) -> (m: String)
    ensures
        m@ == "Streaming API request failed: HTTP "@ + status@ + " - "@ + body@,
{
    let mut out = to_chars("Streaming API request failed: HTTP ");
    push_str(&mut out, status);
    push_str(&mut out, " - ");
    push_str(&mut out, body);
    from_chars(out.as_slice())
}

/// The error when the stream stalled before any content came.
pub fn stream_timeout_message() -> (m: String)
    ensures
        m@ == "Streaming timeout - no content received from AI server"@,
{
    String::from_str("Streaming timeout - no content received from AI server")
}

impl PartState {
    /// Finishes a streamed answer: refused when nothing at all came; the
    /// remaining content (if not blank) is added as by `add_content`; then,
    /// unless the current part is blank, its final text.
    pub fn finalize(&mut self, remaining: &str) -> (r: Result<(Option<PartUpdate>, Option<String>), String>)
        requires
            old(self).message_index < usize::MAX,
        ensures
            remaining@.len() == 0 && trim(old(self).current_content@).len() == 0 ==> (r matches Err(e)
                && e@ == "Cannot finalize message with 0 characters - this indicates no content was received from the API or streaming failed"@
                && *final(self) == *old(self)),
            !(remaining@.len() == 0 && trim(old(self).current_content@).len() == 0) ==> (r matches Ok((u, t)) && {
                &&& final(self).char_limit == old(self).char_limit
                &&& (trim(remaining@).len() == 0 ==> u is None && final(self).current_content@ == old(self).current_content@
                    && final(self).message_index == old(self).message_index)
                &&& (trim(remaining@).len() > 0 ==> (u is Some && {
                    let grown = old(self).current_content@ + remaining@;
                    let framed = part_text(old(self).message_index as nat, grown);
                    if utf8_len(framed) > old(self).char_limit {
                        &&& final(self).message_index == old(self).message_index + 1
                        &&& final(self).current_content@ == remaining@
                        &&& u matches Some(PartUpdate::Rollover(a, b)) && a@ == framed && b@ == part_text(
                            final(self).message_index as nat,
                            remaining@,
                        )
                    } else {
                        &&& final(self).message_index == old(self).message_index
                        &&& final(self).current_content@ == grown
                        &&& u matches Some(PartUpdate::Edit(a)) && a@ == framed
                    }
                }))
                &&& (trim(final(self).current_content@).len() == 0 ==> t is None)
                &&& (trim(final(self).current_content@).len() > 0 ==> (t matches Some(x) && x@ == complete_text(
                    final(self).message_index as nat,
                    final(self).current_content@,
                )))
            }),
    {
        if remaining.is_empty() && blank(self.current_content.as_str()) {
            return Err(String::from_str("Cannot finalize message with 0 characters - this indicates no content was received from the API or streaming failed"));
        }
        let u = if blank(remaining) {
            None
        } else {
            Some(self.add_content(remaining))
        };
        let t = if blank(self.current_content.as_str()) {
            None
        } else {
            Some(complete_message(self.message_index, self.current_content.as_str()))
        };
        Ok((u, t))
    }
}

/// The stream of a reasoning search answer: the raw text so far, the part of
/// its filtered form not yet posted, and the byte limit of a post.
pub struct SearchStream {
    pub raw: String,
    pub filtered: String,
    pub char_limit: usize,
}

/// What a delta of a reasoning search answer leads to.
pub enum SearchAdvance {
    /// Post this text (then the pending text starts afresh).
    Post(String),
    /// Nothing to post yet.
    Wait,
}

/// The effect of a delta: the raw text grows; when its filtered form is now
/// longer (in bytes) than the pending text, what lies beyond the pending
/// text's length is appended to it, and once the pending text reaches the
/// limit it is posted and cleared.  `None` when that cut falls inside a
/// character.
pub open spec fn search_delta_spec(raw: Seq<char>, filtered: Seq<char>, limit: nat, delta: Seq<char>) -> Option<(Seq<char>, Option<Seq<char>>)> {
    let now = filter_thinking_spec(raw + delta);
    let n = utf8_len(filtered);
    if utf8_len(now) > n {
        if byte_boundary(now, n) {
            let pending = filtered + now.skip(byte_prefix(now, n).len() as int);
            if utf8_len(pending) >= limit {
                Some((Seq::empty(), Some(pending)))
            } else {
                Some((pending, None))
            }
        } else {
            None
        }
    } else {
        Some((filtered, None))
    }
}

impl SearchStream {
    /// Takes a streamed delta; `None` (with nothing changed) where the
    /// filtered text cannot be cut at the pending text's length.
    pub fn add_delta(&mut self, delta: &str) -> (r: Option<SearchAdvance>)
        ensures
            final(self).char_limit == old(self).char_limit,
            match (r, search_delta_spec(old(self).raw@, old(self).filtered@, old(self).char_limit as nat, delta@)) {
                (None, None) => *final(self) == *old(self),
                (Some(a), Some((pending, post))) => {
                    &&& final(self).raw@ == old(self).raw@ + delta@
                    &&& final(self).filtered@ == pending
                    &&& match (a, post) {
                        (SearchAdvance::Post(t), Some(p)) => t@ == p,
                        (SearchAdvance::Wait, None) => true,
                        _ => false,
                    }
                },
                _ => false,
            },
    {
        let mut raw = to_chars(self.raw.as_str());
        push_str(&mut raw, delta);
        let raw_s = from_chars(raw.as_slice());
        let now = filter_thinking(raw_s.as_str());
        let now_c = to_chars(now.as_str());
        let fc = to_chars(self.filtered.as_str());
        let n = utf8_len_of(fc.as_slice());
        let m = utf8_len_of(now_c.as_slice());
        if m > n {
            if !crate::text::has_byte_boundary(now_c.as_slice(), n) {
                return None;
            }
            let head = prefix_bytes(now_c.as_slice(), n);
            assert(head@.len() <= now_c@.len()) by {
                let k = choose|k: int| 0 <= k <= now_c@.len() && utf8_len(#[trigger] now_c@.take(k)) == n as nat;
            }
            let rest = slice_chars(now_c.as_slice(), head.len(), now_c.len());
            assert(rest@ =~= now_c@.skip(head@.len() as int));
            let mut pending = fc;
            push_all(&mut pending, rest.as_slice());
            self.raw = raw_s;
            if utf8_len_of(pending.as_slice()) >= self.char_limit as u128 {
                self.filtered = String::new();
                Some(SearchAdvance::Post(from_chars(pending.as_slice())))
            } else {
                self.filtered = from_chars(pending.as_slice());
                Some(SearchAdvance::Wait)
            }
        } else {
            self.raw = raw_s;
            Some(SearchAdvance::Wait)
        }
    }

    /// What is posted when the stream ends: the pending text unless blank,
    /// else the processed raw text when the raw text is not blank.
    pub fn leftover(&self) -> (r: Option<String>)
        ensures
            trim(self.filtered@).len() > 0 ==> (r matches Some(t) && t@ == self.filtered@),
            trim(self.filtered@).len() == 0 && trim(self.raw@).len() > 0 ==> (r matches Some(t) && t@
                == process_reasoning_spec(self.raw@)),
            trim(self.filtered@).len() == 0 && trim(self.raw@).len() == 0 ==> r is None,
    {
        if !blank(self.filtered.as_str()) {
            Some(self.filtered.clone())
        } else if !blank(self.raw.as_str()) {
            Some(process_reasoning(self.raw.as_str()))
        } else {
            None
        }
    }
}

/// What the reasoning command reports along the way.
pub enum ReasonNotice {
    /// No question was given.
    AskQuestion,
    /// A search flag came without a query.
    AskQuery,
    /// The settings could not be loaded; the error.
    ConfigError(String),
    /// A reasoning search started.
    Refining,
    /// The first message could not be sent.
    SendFailed,
    /// The search runs.
    SearchingExact,
    /// The results are being analysed.
    Analyzing,
    /// The question was blank.
    AskValidQuestion,
    /// The answer is on its way.
    Reasoning,
    /// The fallback first message.
    Processing,
    /// The answer failed.
    NoResponse,
    /// The reasoning conversation was forgotten and saved.
    ContextReset,
    /// There was no reasoning conversation to forget.
    NoContextToReset,
}

/// The text of a notice.
pub open spec fn reason_notice_spec(n: ReasonNotice) -> Seq<char> {
    match n {
        ReasonNotice::AskQuestion => "Please provide a question! Usage: `^reason <your reasoning question>`"@,
        ReasonNotice::AskQuery => "Please provide a search query! Usage: `^reason -s <search query>`"@,
        ReasonNotice::ConfigError(a0) => "LM Studio configuration error: "@ + a0@ + "\n\nMake sure `lmapiconf.txt` exists and contains all required settings. Check `example_lmapiconf.txt` for reference."@,
        ReasonNotice::Refining => "Refining search query for reasoning analysis..."@,
        ReasonNotice::SendFailed => "Failed to send message!"@,
        ReasonNotice::SearchingExact => "Searching with your exact query..."@,
        ReasonNotice::Analyzing => "Analyzing search results with reasoning model..."@,
        ReasonNotice::AskValidQuestion => "Please provide a valid question! Usage: `^reason <your reasoning question>`"@,
        ReasonNotice::Reasoning => "🤔 **AI is reasoning...**"@,
        ReasonNotice::Processing => "**Processing:**\n```\nProcessing your question...\n```"@,
        ReasonNotice::NoResponse => "Failed to get response!"@,
        ReasonNotice::ContextReset => "**Reasoning Context Cleared** ✅\nYour reasoning conversation history has been fully reset and saved. The next reasoning question you ask will start a brand new context."@,
        ReasonNotice::NoContextToReset => "**No Reasoning Context Found** ℹ️\nYou don't have any active reasoning conversation history to clear. Start a reasoning conversation with `^reason <your question>`.\n\nIf you believe reasoning context is still being used, please report this as a bug."@,
    }
}

/// Writes a notice.
pub fn reason_notice_text(n: &ReasonNotice) -> (m: String)
    ensures
        m@ == reason_notice_spec(*n),
{
    match n {
        ReasonNotice::AskQuestion => {
            String::from_str("Please provide a question! Usage: `^reason <your reasoning question>`")
        },
        ReasonNotice::AskQuery => {
            String::from_str("Please provide a search query! Usage: `^reason -s <search query>`")
        },
        ReasonNotice::ConfigError(a0) => {
            let mut out = to_chars("LM Studio configuration error: ");
            push_str(&mut out, a0.as_str());
            push_str(&mut out, "\n\nMake sure `lmapiconf.txt` exists and contains all required settings. Check `example_lmapiconf.txt` for reference.");
            from_chars(out.as_slice())
        },
        ReasonNotice::Refining => {
            String::from_str("Refining search query for reasoning analysis...")
        },
        ReasonNotice::SendFailed => {
            String::from_str("Failed to send message!")
        },
        ReasonNotice::SearchingExact => {
            String::from_str("Searching with your exact query...")
        },
        ReasonNotice::Analyzing => {
            String::from_str("Analyzing search results with reasoning model...")
        },
        ReasonNotice::AskValidQuestion => {
            String::from_str("Please provide a valid question! Usage: `^reason <your reasoning question>`")
        },
        ReasonNotice::Reasoning => {
            String::from_str("🤔 **AI is reasoning...**")
        },
        ReasonNotice::Processing => {
            String::from_str("**Processing:**\n```\nProcessing your question...\n```")
        },
        ReasonNotice::NoResponse => {
            String::from_str("Failed to get response!")
        },
        ReasonNotice::ContextReset => {
            String::from_str("**Reasoning Context Cleared** ✅\nYour reasoning conversation history has been fully reset and saved. The next reasoning question you ask will start a brand new context.")
        },
        ReasonNotice::NoContextToReset => {
            String::from_str("**No Reasoning Context Found** ℹ️\nYou don't have any active reasoning conversation history to clear. Start a reasoning conversation with `^reason <your question>`.\n\nIf you believe reasoning context is still being used, please report this as a bug.")
        },
    }
}

/// The message shown when a reasoning search fails.
pub fn reasoning_search_failed(query: &str, error: &str) -> (m: String)
    ensures
        m@ == "**Reasoning Search Failed**\n\nQuery: `"@ + query@ + "`\nError: "@ + error@
            + "\n\nCheck your SerpAPI configuration in lmapiconf.txt"@,
{
    let mut out = to_chars("**Reasoning Search Failed**\n\nQuery: `");
    push_str(&mut out, query);
    push_str(&mut out, "`\nError: ");
    push_str(&mut out, error);
    push_str(&mut out, "\n\nCheck your SerpAPI configuration in lmapiconf.txt");
    from_chars(out.as_slice())
}

/// A prompt file's text is used when, without its byte-order mark and
/// trimmed, it holds at least 50 bytes; shorter or empty files are skipped.
pub fn accepted_prompt(content: &str) -> (r: Option<String>)
    ensures
        ({
            let t = trim(crate::config::without_bom(content@));
            match r {
                Some(p) => p@ == t && utf8_len(t) >= 50,
                None => utf8_len(t) < 50,
            }
        }),
{
    let t = crate::commands::lm::clean_prompt_text(content);
    let c = to_chars(t.as_str());
    if utf8_len_of(c.as_slice()) < 50 {
        None
    } else {
        Some(t)
    }
}

/// The error when no reasoning prompt file could be used, listing the paths
/// tried, one per line.
pub fn no_reasoning_prompt(attempted: &Vec<String>) -> (m: String)
    ensures
        m@ == "No valid reasoning prompt file found in any expected location.\n\nAttempted paths:\n"@
            + crate::text::join_sep(views(attempted@), "\n"@)
            + "\n\nPlease ensure one of these files exists and contains a proper reasoning system prompt:\n- reasoning_prompt.txt (preferred)\n- system_prompt.txt (fallback)\n\nThe prompt should contain instructions for analytical reasoning and step-by-step thinking."@,
{
    let mut parts: Vec<Vec<char>> = Vec::new();
    let mut i: usize = 0;
    while i < attempted.len()
        invariant
            i <= attempted@.len(),
            parts@.len() == i,
            forall|k: int| 0 <= k < i ==> (#[trigger] parts@[k])@ == attempted@[k]@,
        decreases attempted@.len() - i,
    {
        parts.push(to_chars(attempted[i].as_str()));
        i = i + 1;
    }
    assert(Seq::new(parts@.len(), |k: int| parts@[k]@) =~= views(attempted@));
    let nl = to_chars("\n");
    let joined = crate::text::join_chars(&parts, nl.as_slice());
    let mut out = to_chars("No valid reasoning prompt file found in any expected location.\n\nAttempted paths:\n");
    push_all(&mut out, joined.as_slice());
    push_str(&mut out, "\n\nPlease ensure one of these files exists and contains a proper reasoning system prompt:\n- reasoning_prompt.txt (preferred)\n- system_prompt.txt (fallback)\n\nThe prompt should contain instructions for analytical reasoning and step-by-step thinking.");
    from_chars(out.as_slice())
}

/// The system prompt for analysing search results when no prompt file can
/// be used.
pub fn fallback_search_analysis_prompt() -> (p: String)
    ensures
        p@ == "You are an expert analytical reasoner. Analyze these web search results to provide a comprehensive, logical analysis. Focus on reasoning through the information, identifying patterns, and providing insights. Use Discord formatting and embed relevant links naturally using [title](URL) format."@,
{
    String::from_str("You are an expert analytical reasoner. Analyze these web search results to provide a comprehensive, logical analysis. Focus on reasoning through the information, identifying patterns, and providing insights. Use Discord formatting and embed relevant links naturally using [title](URL) format.")
}

} // verus!
