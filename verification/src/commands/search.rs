//! Search: result formatting and the prompts and replies of AI-assisted search.
use vstd::prelude::*;
use crate::text::{contains_pat, contains_str, decimal, decimal_chars, from_chars, push_all, push_str, to_chars};

verus! {

/// A chat message exchanged with the model.
#[derive(Clone, Debug)]
pub struct ChatMessage {
    pub role: String,
    pub content: String,
}

/// One web search hit.
#[derive(Clone, Debug)]
pub struct SearchResult {
    pub title: String,
    pub link: String,
    pub snippet: String,
}

/// Web search is not wired to a provider: it finds nothing.
pub fn multi_search(query: &str) -> (results: Vec<SearchResult>)
    ensures
        results@.len() == 0,
{
    Vec::new()
}

/// One result as the model sees it.
pub open spec fn result_block(index: nat, r: SearchResult) -> Seq<char> {
    "Source "@ + decimal(index + 1) + ": "@ + r.title@ + "\nURL: "@ + r.link@ + "\nContent: "@ + (
    if r.snippet@.len() == 0 {
        "No content preview available"@
    } else {
        r.snippet@
    }) + "\n\n"@
}

/// All results, one block each, numbered from 1.
pub open spec fn results_text(results: Seq<SearchResult>) -> Seq<char>
    decreases results.len(),
{
    if results.len() == 0 {
        Seq::empty()
    } else {
        results_text(results.drop_last()) + result_block(
            (results.len() - 1) as nat,
            results.last(),
        )
    }
}

/// Formats the results for the model, numbered from 1.
pub fn format_search_results(results: &Vec<SearchResult>) -> (text: String)
    ensures
        text@ == results_text(results@),
{
    let mut out: Vec<char> = Vec::new();
    let mut i: usize = 0;
    while i < results.len()
        invariant
            i <= results@.len(),
            out@ == results_text(results@.take(i as int)),
        decreases results@.len() - i,
    {
        let r = &results[i];
        assert(results@.take(i + 1).drop_last() =~= results@.take(i as int));
        let ghost before = out@;
        push_str(&mut out, "Source ");
        let n = decimal_chars(i as u128 + 1);
        push_all(&mut out, n.as_slice());
        push_str(&mut out, ": ");
        push_str(&mut out, r.title.as_str());
        push_str(&mut out, "\nURL: ");
        push_str(&mut out, r.link.as_str());
        push_str(&mut out, "\nContent: ");
        if r.snippet.as_str().is_empty() {
            push_str(&mut out, "No content preview available");
        } else {
            push_str(&mut out, r.snippet.as_str());
        }
        push_str(&mut out, "\n\n");
        assert(out@ =~= before + result_block(i as nat, results@[i as int]));
        i = i + 1;
    }
    assert(results@.take(results@.len() as int) =~= results@);
    from_chars(out.as_slice())
}

/// The user prompt of an AI-assisted search.
pub open spec fn search_prompt_spec(query: Seq<char>, formatted: Seq<char>) -> Seq<char> {
    "User's search query: "@ + query + "\n\nSources to analyze:\n"@ + formatted
        + "\n\nProvide a VERY CONCISE summary that:\n1. Addresses the user's question directly\n2. Cites 2-3 sources with [title](URL) format\n3. Provides key insights\n\nCRITICAL: Keep your ENTIRE response under 1200 characters. Be extremely concise and direct."@
}

/// Builds the user prompt of an AI-assisted search.
pub fn search_user_prompt(query: &str, formatted: &str) -> (p: String)
    ensures
        p@ == search_prompt_spec(query@, formatted@),
{
    let mut out = to_chars("User's search query: ");
    push_str(&mut out, query);
    push_str(&mut out, "\n\nSources to analyze:\n");
    push_str(&mut out, formatted);
    push_str(
        &mut out,
        "\n\nProvide a VERY CONCISE summary that:\n1. Addresses the user's question directly\n2. Cites 2-3 sources with [title](URL) format\n3. Provides key insights\n\nCRITICAL: Keep your ENTIRE response under 1200 characters. Be extremely concise and direct.",
    );
    from_chars(out.as_slice())
}

/// A reply that a retrieval-only model gives instead of an analysis.
pub open spec fn is_fallback_reply(reply: Seq<char>) -> bool {
    contains_pat(reply, "Search functionality is not available"@) || contains_pat(
        reply,
        "fallback"@,
    )
}

/// Whether the model answered with a retrieval fallback instead of an analysis.
pub fn looks_like_fallback(reply: &str) -> (b: bool)
    ensures
        b == is_fallback_reply(reply@),
{
    contains_str(reply, "Search functionality is not available") || contains_str(reply, "fallback")
}

/// The message posted for an AI-assisted search.
pub open spec fn search_reply_spec(model: Seq<char>, query: Seq<char>, reply: Seq<char>) -> Seq<char> {
    if is_fallback_reply(reply) {
        "❌ **AI-Enhanced Search Failed**\n\n**Issue:** The AI model `"@ + model
            + "` appears to be a search/retrieval model, not suitable for content analysis.\n\n**Solution:** Please update your `lmapiconf.txt` to use a chat/completion model for `DEFAULT_MODEL`.\n\n**Recommended models:**\n• `llama3.2:3b`\n• `llama3.2:7b`\n• `qwen2.5:4b`\n• `qwen2.5:7b`\n• `mistral:7b`\n\n*Search query: "@
            + query + "*"@
    } else {
        "**AI-Enhanced Search Results**\n\n"@ + reply + "\n\n---\n*Search query: "@ + query + "*"@
    }
}

/// The message posted for the model's reply to a search.
pub fn search_reply(model: &str, query: &str, reply: &str) -> (m: String)
    ensures
        m@ == search_reply_spec(model@, query@, reply@),
{
    if looks_like_fallback(reply) {
        let mut out = to_chars("❌ **AI-Enhanced Search Failed**\n\n**Issue:** The AI model `");
        push_str(&mut out, model);
        push_str(
            &mut out,
            "` appears to be a search/retrieval model, not suitable for content analysis.\n\n**Solution:** Please update your `lmapiconf.txt` to use a chat/completion model for `DEFAULT_MODEL`.\n\n**Recommended models:**\n• `llama3.2:3b`\n• `llama3.2:7b`\n• `qwen2.5:4b`\n• `qwen2.5:7b`\n• `mistral:7b`\n\n*Search query: ",
        );
        push_str(&mut out, query);
        push_str(&mut out, "*");
        from_chars(out.as_slice())
    } else {
        let mut out = to_chars("**AI-Enhanced Search Results**\n\n");
        push_str(&mut out, reply);
        push_str(&mut out, "\n\n---\n*Search query: ");
        push_str(&mut out, query);
        push_str(&mut out, "*");
        from_chars(out.as_slice())
    }
}

/// How one attempt of a chat completion failed.
pub enum ChatFailure {
    /// The request could not be sent; the error's text.
    Send(String),
    /// The server answered with a non-success status: its code, its text
    /// (as `reqwest` displays it) and the response body.
    Status(u16, String, String),
    /// The response body could not be read; the error's text.
    Read(String),
}

/// What to do after a failed attempt.
pub enum ChatStep {
    /// Wait this many milliseconds and try again; the text is kept as the
    /// last error.
    Retry(u64, String),
    /// Give up with this error.
    Fail(String),
}

/// Whether a send error is worth another attempt.
pub open spec fn transient_send_error(e: Seq<char>) -> bool {
    contains_pat(e, "timeout"@) || contains_pat(e, "connection reset"@) || contains_pat(
        e,
        "connection aborted"@,
    ) || contains_pat(e, "broken pipe"@) || contains_pat(e, "connection closed"@)
}

/// The decision after a failed attempt of a chat completion: transient send
/// errors, server errors (5xx) and unreadable bodies are retried after
/// `attempt` seconds while attempts remain; other failures end the request
/// with an explanation.
pub open spec fn chat_step_spec(
    attempt: nat,
    max_attempts: nat,
    failure: ChatFailure,
    base_url: Seq<char>,
    model: Seq<char>,
    api_url: Seq<char>,
) -> (bool, nat, Seq<char>) {
    match failure {
        ChatFailure::Send(e) => {
            let e = e@;
            if attempt < max_attempts && transient_send_error(e) {
                (true, attempt * 1000, e)
            } else if contains_pat(e, "os error 10013"@) || contains_pat(e, "access permissions"@) {
                (false, 0, "🚫 **Windows Network Permission Error**\n\nCannot connect to LM Studio API\n\n**Quick Fixes:**\n• **Run as Administrator**: Right-click and 'Run as administrator'\n• **Windows Firewall**: Add firewall exception for this program\n• **Try localhost**: Use `http://127.0.0.1:1234` in lmapiconf.txt\n\n**Current URL:** "@ + base_url + "\n**Error:** "@ + e)
            } else if contains_pat(e, "refused"@) || contains_pat(e, "connection refused"@) {
                (false, 0, "🚫 **Connection Refused**\n\nLM Studio is not accepting connections\n\n**Solutions:**\n• **Start LM Studio**: Make sure LM Studio is running\n• **Load Model**: Ensure a model is loaded\n• **Enable Server**: Click 'Start Server' in LM Studio\n• **Check Port**: Verify port 1234 is available\n\n**Current URL:** "@ + base_url + "\n**Error:** "@ + e)
            } else {
                (false, 0, "API request failed: "@ + e)
            }
        },
        ChatFailure::Status(code, status, body) => {
            if attempt < max_attempts && 500 <= code && code <= 599 {
                (true, attempt * 1000, "HTTP "@ + status@ + " - "@ + body@)
            } else {
                (false, 0, "🚫 **API Error (HTTP "@ + status@ + ")**\n\n**Response:** "@ + body@
                    + "\n\n**Solutions:**\n• **Model Loaded**: Ensure model '"@ + model
                    + "' is loaded in LM Studio\n• **Model Name**: Verify model name matches exactly\n• **Server Status**: Check LM Studio server logs\n• **Memory**: Ensure sufficient RAM for the model\n\n**API URL:** "@
                    + api_url)
            }
        },
        ChatFailure::Read(e) => {
            if attempt < max_attempts {
                (true, attempt * 1000, e@)
            } else {
                (false, 0, "Failed to read response: "@ + e@)
            }
        },
    }
}

/// Decides what follows a failed attempt of a chat completion.
pub fn next_chat_step(
    attempt: u64,
    max_attempts: u64,
    failure: ChatFailure,
    base_url: &str,
    model: &str,
    api_url: &str,
) -> (step: ChatStep)
    requires
        attempt <= u64::MAX / 1000,
    ensures
        ({
            let (retry, delay, text) = chat_step_spec(attempt as nat, max_attempts as nat, failure, base_url@, model@, api_url@);
            match step {
                ChatStep::Retry(d, t) => retry && d == delay && t@ == text,
                ChatStep::Fail(t) => !retry && t@ == text,
            }
        }),
{
    match failure {
        ChatFailure::Send(e) => {
            let es = e.as_str();
            let transient = contains_str(es, "timeout") || contains_str(es, "connection reset")
                || contains_str(es, "connection aborted") || contains_str(es, "broken pipe")
                || contains_str(es, "connection closed");
            if attempt < max_attempts && transient {
                ChatStep::Retry(attempt * 1000, e)
            } else if contains_str(es, "os error 10013") || contains_str(es, "access permissions") {
                let mut out = to_chars("🚫 **Windows Network Permission Error**\n\nCannot connect to LM Studio API\n\n**Quick Fixes:**\n• **Run as Administrator**: Right-click and 'Run as administrator'\n• **Windows Firewall**: Add firewall exception for this program\n• **Try localhost**: Use `http://127.0.0.1:1234` in lmapiconf.txt\n\n**Current URL:** ");
                push_str(&mut out, base_url);
                push_str(&mut out, "\n**Error:** ");
                push_str(&mut out, es);
                ChatStep::Fail(from_chars(out.as_slice()))
            } else if contains_str(es, "refused") || contains_str(es, "connection refused") {
                let mut out = to_chars("🚫 **Connection Refused**\n\nLM Studio is not accepting connections\n\n**Solutions:**\n• **Start LM Studio**: Make sure LM Studio is running\n• **Load Model**: Ensure a model is loaded\n• **Enable Server**: Click 'Start Server' in LM Studio\n• **Check Port**: Verify port 1234 is available\n\n**Current URL:** ");
                push_str(&mut out, base_url);
                push_str(&mut out, "\n**Error:** ");
                push_str(&mut out, es);
                ChatStep::Fail(from_chars(out.as_slice()))
            } else {
                let mut out = to_chars("API request failed: ");
                push_str(&mut out, es);
                ChatStep::Fail(from_chars(out.as_slice()))
            }
        },
        ChatFailure::Status(code, status, body) => {
            if attempt < max_attempts && 500 <= code && code <= 599 {
                let mut out = to_chars("HTTP ");
                push_str(&mut out, status.as_str());
                push_str(&mut out, " - ");
                push_str(&mut out, body.as_str());
                ChatStep::Retry(attempt * 1000, from_chars(out.as_slice()))
            } else {
                let mut out = to_chars("🚫 **API Error (HTTP ");
                push_str(&mut out, status.as_str());
                push_str(&mut out, ")**\n\n**Response:** ");
                push_str(&mut out, body.as_str());
                push_str(&mut out, "\n\n**Solutions:**\n• **Model Loaded**: Ensure model '");
                push_str(&mut out, model);
                push_str(&mut out, "' is loaded in LM Studio\n• **Model Name**: Verify model name matches exactly\n• **Server Status**: Check LM Studio server logs\n• **Memory**: Ensure sufficient RAM for the model\n\n**API URL:** ");
                push_str(&mut out, api_url);
                ChatStep::Fail(from_chars(out.as_slice()))
            }
        },
        ChatFailure::Read(e) => {
            if attempt < max_attempts {
                ChatStep::Retry(attempt * 1000, e)
            } else {
                let mut out = to_chars("Failed to read response: ");
                push_str(&mut out, e.as_str());
                ChatStep::Fail(from_chars(out.as_slice()))
            }
        },
    }
}

/// The error after every attempt failed.
pub fn attempts_exhausted(max_attempts: u64, last_error: Option<String>) -> (m: String)
    ensures
        m@ == "Request failed after "@ + decimal(max_attempts as nat) + " attempts. Last error: "@
            + match last_error {
            Some(e) => e@,
            None => "Unknown error"@,
        },
{
    let mut out = to_chars("Request failed after ");
    let n = decimal_chars(max_attempts as u128);
    push_all(&mut out, n.as_slice());
    push_str(&mut out, " attempts. Last error: ");
    match last_error {
        Some(e) => push_str(&mut out, e.as_str()),
        None => push_str(&mut out, "Unknown error"),
    }
    from_chars(out.as_slice())
}

/// The explanation when the server cannot be reached at all; the error's
/// text decides which advice is given.
pub open spec fn unreachable_spec(base_url: Seq<char>, e: Seq<char>) -> Seq<char> {
    if contains_pat(e, "os error 10013"@) || contains_pat(e, "access permissions"@) {
        "🚫 **Windows Network Permission Error (10013)**\n\nCannot connect to LM Studio at `"@ + base_url
            + "`\n\n**Solutions:**\n• **Add Firewall Exception**: Windows Defender Firewall → Allow an app → Add this program\n• **Run as Administrator**: Try running the bot with administrator privileges\n• **Check LM Studio**: Ensure LM Studio is running and accessible\n• **Try localhost**: Use `http://127.0.0.1:1234` instead of `http://localhost:1234`\n• **Check Port**: Verify no other application is using the port\n\n**Original error:** "@
            + e
    } else if contains_pat(e, "timeout"@) || contains_pat(e, "timed out"@) {
        "⏰ **Connection Timeout**\n\nCannot reach LM Studio server at `"@ + base_url
            + "` within 10 seconds\n\n**Solutions:**\n• **Check LM Studio**: Ensure LM Studio is running and responsive\n• **Network Connection**: Verify your network connection is stable\n• **Server Load**: LM Studio might be overloaded - wait and retry\n• **Firewall**: Check if firewall is blocking the connection\n\n**Original error:** "@
            + e
    } else if contains_pat(e, "refused"@) || contains_pat(e, "connection refused"@) {
        "🚫 **Connection Refused**\n\nLM Studio at `"@ + base_url
            + "` is not accepting connections\n\n**Solutions:**\n• **Start LM Studio**: Make sure LM Studio is running\n• **Check Port**: Verify LM Studio is listening on the correct port (usually 1234)\n• **Load Model**: Ensure a model is loaded in LM Studio\n• **Server Status**: Check LM Studio's server status indicator\n• **Alternative Port**: Try port 11434 if using Ollama instead\n\n**Original error:** "@
            + e
    } else if contains_pat(e, "dns"@) || contains_pat(e, "name resolution"@) {
        "🌐 **DNS Resolution Error**\n\nCannot resolve hostname in `"@ + base_url
            + "`\n\n**Solutions:**\n• **Use IP Address**: Try `http://127.0.0.1:1234` instead of `http://localhost:1234`\n• **Check Hostname**: Verify the hostname is correct\n• **DNS Settings**: Check your DNS configuration\n\n**Original error:** "@
            + e
    } else {
        "🔗 **Connection Error**\n\nCannot connect to LM Studio at `"@ + base_url
            + "`\n\n**Solutions:**\n• **Check URL**: Verify the base URL in lmapiconf.txt\n• **Start LM Studio**: Ensure LM Studio is running\n• **Network**: Check your network connection\n• **Firewall**: Verify firewall settings\n\n**Original error:** "@
            + e
    }
}

/// Explains why the server at `base_url` could not be reached, from the
/// text of the connection error.
pub fn unreachable_server(base_url: &str, error_text: &str) -> (m: String)
    ensures
        m@ == unreachable_spec(base_url@, error_text@),
{
    let e = error_text;
    let (head, tail) = if contains_str(e, "os error 10013") || contains_str(e, "access permissions") {
        ("🚫 **Windows Network Permission Error (10013)**\n\nCannot connect to LM Studio at `",
         "`\n\n**Solutions:**\n• **Add Firewall Exception**: Windows Defender Firewall → Allow an app → Add this program\n• **Run as Administrator**: Try running the bot with administrator privileges\n• **Check LM Studio**: Ensure LM Studio is running and accessible\n• **Try localhost**: Use `http://127.0.0.1:1234` instead of `http://localhost:1234`\n• **Check Port**: Verify no other application is using the port\n\n**Original error:** ")
    } else if contains_str(e, "timeout") || contains_str(e, "timed out") {
        ("⏰ **Connection Timeout**\n\nCannot reach LM Studio server at `",
         "` within 10 seconds\n\n**Solutions:**\n• **Check LM Studio**: Ensure LM Studio is running and responsive\n• **Network Connection**: Verify your network connection is stable\n• **Server Load**: LM Studio might be overloaded - wait and retry\n• **Firewall**: Check if firewall is blocking the connection\n\n**Original error:** ")
    } else if contains_str(e, "refused") || contains_str(e, "connection refused") {
        ("🚫 **Connection Refused**\n\nLM Studio at `",
         "` is not accepting connections\n\n**Solutions:**\n• **Start LM Studio**: Make sure LM Studio is running\n• **Check Port**: Verify LM Studio is listening on the correct port (usually 1234)\n• **Load Model**: Ensure a model is loaded in LM Studio\n• **Server Status**: Check LM Studio's server status indicator\n• **Alternative Port**: Try port 11434 if using Ollama instead\n\n**Original error:** ")
    } else if contains_str(e, "dns") || contains_str(e, "name resolution") {
        ("🌐 **DNS Resolution Error**\n\nCannot resolve hostname in `",
         "`\n\n**Solutions:**\n• **Use IP Address**: Try `http://127.0.0.1:1234` instead of `http://localhost:1234`\n• **Check Hostname**: Verify the hostname is correct\n• **DNS Settings**: Check your DNS configuration\n\n**Original error:** ")
    } else {
        ("🔗 **Connection Error**\n\nCannot connect to LM Studio at `",
         "`\n\n**Solutions:**\n• **Check URL**: Verify the base URL in lmapiconf.txt\n• **Start LM Studio**: Ensure LM Studio is running\n• **Network**: Check your network connection\n• **Firewall**: Verify firewall settings\n\n**Original error:** ")
    };
    let mut out = to_chars(head);
    push_str(&mut out, base_url);
    push_str(&mut out, tail);
    push_str(&mut out, e);
    from_chars(out.as_slice())
}

/// Whether the chat endpoint's answer shows that the API is up: a success,
/// or a 400 or 422 (the API answered, only the probe's request was refused).
pub open spec fn endpoint_responds(code: u16) -> bool {
    (200 <= code && code <= 299) || code == 400 || code == 422
}

/// The verdict on the chat endpoint's status: `None` when the API is up,
/// else the explanation (404 has its own).
pub open spec fn endpoint_status_spec(code: u16, status: Seq<char>, body: Seq<char>, api_url: Seq<char>, base_url: Seq<char>) -> Option<Seq<char>> {
    if endpoint_responds(code) {
        None
    } else if code == 404 {
        Some("🚫 **API Endpoint Not Found (404)**\n\nThe endpoint `"@ + api_url
            + "` was not found\n\n**Solutions:**\n• **Check LM Studio Version**: Ensure you're using a recent version that supports OpenAI API\n• **Enable API Server**: Make sure the 'Start Server' option is enabled in LM Studio\n• **Correct Port**: LM Studio usually uses port 1234, Ollama uses 11434\n• **API Path**: Verify the API path is `/v1/chat/completions`\n\n**Current URL:** "@
            + base_url)
    } else {
        Some("🚫 **API Error (HTTP "@ + status + ")**\n\nLM Studio API returned an error\n\n**Response:** "@ + body
            + "\n\n**Solutions:**\n• **Load Model**: Ensure a model is loaded in LM Studio\n• **Check Model Name**: Verify the model name in lmapiconf.txt matches loaded model\n• **Server Status**: Check LM Studio's status and logs\n\n**API URL:** "@
            + api_url)
    }
}

/// Judges the chat endpoint's answer to the probe: its status code, the
/// status as `reqwest` displays it, and the body (read only when the API
/// is not up).
pub fn endpoint_status_failure(code: u16, status: &str, body: &str, api_url: &str, base_url: &str) -> (r: Option<String>)
    ensures
        match r {
            Some(m) => endpoint_status_spec(code, status@, body@, api_url@, base_url@) == Some(m@),
            None => endpoint_status_spec(code, status@, body@, api_url@, base_url@) is None,
        },
{
    if (200 <= code && code <= 299) || code == 400 || code == 422 {
        None
    } else if code == 404 {
        let mut out = to_chars("🚫 **API Endpoint Not Found (404)**\n\nThe endpoint `");
        push_str(&mut out, api_url);
        push_str(&mut out, "` was not found\n\n**Solutions:**\n• **Check LM Studio Version**: Ensure you're using a recent version that supports OpenAI API\n• **Enable API Server**: Make sure the 'Start Server' option is enabled in LM Studio\n• **Correct Port**: LM Studio usually uses port 1234, Ollama uses 11434\n• **API Path**: Verify the API path is `/v1/chat/completions`\n\n**Current URL:** ");
        push_str(&mut out, base_url);
        Some(from_chars(out.as_slice()))
    } else {
        let mut out = to_chars("🚫 **API Error (HTTP ");
        push_str(&mut out, status);
        push_str(&mut out, ")**\n\nLM Studio API returned an error\n\n**Response:** ");
        push_str(&mut out, body);
        push_str(&mut out, "\n\n**Solutions:**\n• **Load Model**: Ensure a model is loaded in LM Studio\n• **Check Model Name**: Verify the model name in lmapiconf.txt matches loaded model\n• **Server Status**: Check LM Studio's status and logs\n\n**API URL:** ");
        push_str(&mut out, api_url);
        Some(from_chars(out.as_slice()))
    }
}

/// The explanation when the server answers but the chat endpoint's probe
/// could not be sent.
pub fn endpoint_unreachable(base_url: &str, error_text: &str) -> (m: String)
    ensures
        m@ == "⚠️ **API Configuration Issue**\n\nBasic connectivity to `"@ + base_url@
            + "` works, but API test failed\n\n**Likely Issues:**\n• **Model Not Loaded**: No model is loaded in LM Studio\n• **Wrong Model Name**: Model name in lmapiconf.txt doesn't match loaded model\n• **API Not Enabled**: LM Studio server is not started\n• **Version Issue**: LM Studio version doesn't support OpenAI API\n\n**Error:** "@
            + error_text@,
{
    let mut out = to_chars("⚠️ **API Configuration Issue**\n\nBasic connectivity to `");
    push_str(&mut out, base_url);
    push_str(&mut out, "` works, but API test failed\n\n**Likely Issues:**\n• **Model Not Loaded**: No model is loaded in LM Studio\n• **Wrong Model Name**: Model name in lmapiconf.txt doesn't match loaded model\n• **API Not Enabled**: LM Studio server is not started\n• **Version Issue**: LM Studio version doesn't support OpenAI API\n\n**Error:** ");
    push_str(&mut out, error_text);
    from_chars(out.as_slice())
}

/// The error when a chat completion's body is not JSON: at most its first
/// 500 characters, and the parser's error.
pub fn invalid_response_message(response_text: &str, parse_error: &str) -> (m: String)
    ensures
        m@ == "🚫 **Invalid API Response**\n\nFailed to parse JSON response from LM Studio\n\n**Response:** "@
            + (if response_text@.len() <= 500 { response_text@ } else { response_text@.take(500) })
            + "\n**Parse Error:** "@ + parse_error@
            + "\n\n**Solutions:**\n• **Update LM Studio**: Ensure you're using a recent version\n• **Check Model**: Verify the model supports chat completions\n• **Server Logs**: Check LM Studio logs for errors"@,
{
    let mut out = to_chars("🚫 **Invalid API Response**\n\nFailed to parse JSON response from LM Studio\n\n**Response:** ");
    let r = to_chars(response_text);
    let head = crate::text::take_chars(r.as_slice(), 500);
    push_all(&mut out, head.as_slice());
    push_str(&mut out, "\n**Parse Error:** ");
    push_str(&mut out, parse_error);
    push_str(&mut out, "\n\n**Solutions:**\n• **Update LM Studio**: Ensure you're using a recent version\n• **Check Model**: Verify the model supports chat completions\n• **Server Logs**: Check LM Studio logs for errors");
    from_chars(out.as_slice())
}

/// The error when a chat completion's JSON has no answer where one is
/// expected; `shown` is the JSON as it is displayed.
pub fn unexpected_format_message(shown: &str) -> (m: String)
    ensures
        m@ == "🚫 **Unexpected API Response Format**\n\nLM Studio returned a valid JSON response, but the structure was unexpected\n\n**Response:** "@
            + shown@
            + "\n\n**Solutions:**\n• **Update LM Studio**: Ensure compatibility with OpenAI API format\n• **Check Model**: Verify the model supports chat completions\n• **API Version**: Ensure you're using a compatible API version"@,
{
    let mut out = to_chars("🚫 **Unexpected API Response Format**\n\nLM Studio returned a valid JSON response, but the structure was unexpected\n\n**Response:** ");
    push_str(&mut out, shown);
    push_str(&mut out, "\n\n**Solutions:**\n• **Update LM Studio**: Ensure compatibility with OpenAI API format\n• **Check Model**: Verify the model supports chat completions\n• **API Version**: Ensure you're using a compatible API version");
    from_chars(out.as_slice())
}

/// The system prompt of AI-assisted search.
pub fn search_analysis_prompt() -> (p: String)
    ensures
        p@ == "You are an expert research analyst. Analyze these web search results to provide a concise, informative summary. Use Discord formatting and embed relevant links using [title](URL) format. CRITICAL: Your ENTIRE response must be under 1200 characters including all formatting. Be extremely concise."@,
{
    String::from_str("You are an expert research analyst. Analyze these web search results to provide a concise, informative summary. Use Discord formatting and embed relevant links using [title](URL) format. CRITICAL: Your ENTIRE response must be under 1200 characters including all formatting. Be extremely concise.")
}

/// The progress of AI-assisted search: `false` while searching, `true`
/// while the results are analysed.
pub fn search_progress_text(analysing: bool) -> (m: String)
    ensures
        m@ == if analysing { "Analyzing search results with AI..."@ } else { "Searching with your exact query..."@ },
{
    if analysing {
        String::from_str("Analyzing search results with AI...")
    } else {
        String::from_str("Searching with your exact query...")
    }
}

/// The error when the settings loaded from `source` but the connectivity
/// probe failed with `error`.
pub fn connectivity_test_failed(source: &str, error: &str, base_url: &str, model: &str, timeout: u64) -> (m: String)
    ensures
        m@ == "❌ **Connectivity Test Failed**\n\nConfiguration loaded successfully from `"@ + source@
            + "`, but connectivity test failed:\n\n"@ + error@ + "\n\n**Config Details:**\n• Base URL: "@ + base_url@
            + "\n• Default Model: "@ + model@ + "\n• Timeout: "@ + decimal(timeout as nat) + "s"@,
{
    let mut out = to_chars("❌ **Connectivity Test Failed**\n\nConfiguration loaded successfully from `");
    push_str(&mut out, source);
    push_str(&mut out, "`, but connectivity test failed:\n\n");
    push_str(&mut out, error);
    push_str(&mut out, "\n\n**Config Details:**\n• Base URL: ");
    push_str(&mut out, base_url);
    push_str(&mut out, "\n• Default Model: ");
    push_str(&mut out, model);
    push_str(&mut out, "\n• Timeout: ");
    let d = decimal_chars(timeout as u128);
    push_all(&mut out, d.as_slice());
    push_str(&mut out, "s");
    from_chars(out.as_slice())
}

} // verus!
