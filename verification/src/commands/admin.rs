//! Owner-only commands: who counts as the owner, and the connectivity
//! diagnosis with its classification of failures and its final report.
use vstd::prelude::*;
use crate::chunking::views;
use crate::text::{
    contains_pat, contains_str, decimal, decimal_chars, from_chars, join_sep, push_all, push_str,
    starts_with, starts_with_str, to_chars, trim, trim_str,
};

verus! {

/// The command group of the owner-only commands.
pub struct Admin;

impl Admin {
    pub fn new() -> (r: Self)
        ensures
            r == Admin,
    {
        Admin
    }
}

/// The owner id: `BOT_OWNER_ID`, else `BOT_USER_ID`, else the bot's own id.
pub open spec fn owner_id_spec(owner_setting: Option<Seq<char>>, user_setting: Option<Seq<char>>) -> Seq<char> {
    match owner_setting {
        Some(o) => o,
        None => match user_setting {
            Some(u) => u,
            None => "1385309017881968761"@,
        },
    }
}

/// Picks the owner id from the two environment settings.
pub fn resolve_owner_id(owner_setting: Option<String>, user_setting: Option<String>) -> (id: String)
    ensures
        id@ == owner_id_spec(
            match owner_setting {
                Some(o) => Some(o@),
                None => None,
            },
            match user_setting {
                Some(u) => Some(u@),
                None => None,
            },
        ),
{
    match owner_setting {
        Some(o) => o,
        None => match user_setting {
            Some(u) => u,
            None => String::from_str("1385309017881968761"),
        },
    }
}

/// Whether the author is the owner: the author's id, written in decimal,
/// equals the owner id.
pub fn is_owner(author_id: u64, owner_id: &str) -> (b: bool)
    ensures
        b == (decimal(author_id as nat) == owner_id@),
{
    let d = decimal_chars(author_id as u128);
    let o = to_chars(owner_id);
    crate::cleaning::eq_chars(d.as_slice(), o.as_slice())
}

/// The reply to anyone else.
pub fn access_denied() -> (m: String)
    ensures
        m@ == "❌ **Access Denied**\nThis command can only be used by the bot owner."@,
{
    String::from_str("❌ **Access Denied**\nThis command can only be used by the bot owner.")
}

/// The help text of the owner-only commands.
pub fn admin_help_text() -> (m: String)
    ensures
        m@ == "**🔧 Admin Commands**\n\n`^restart` - Restart the bot gracefully\n`^shutdown` - Shutdown the bot gracefully\n`^forcerestart` - Force restart the bot (immediate shutdown)\n`^leaveserver` - Make the bot leave the current server\n`^adminhelp` - Show this help message\n\n**Note:** These commands can only be used by the bot owner."@,
{
    String::from_str(
        "**🔧 Admin Commands**\n\n`^restart` - Restart the bot gracefully\n`^shutdown` - Shutdown the bot gracefully\n`^forcerestart` - Force restart the bot (immediate shutdown)\n`^leaveserver` - Make the bot leave the current server\n`^adminhelp` - Show this help message\n\n**Note:** These commands can only be used by the bot owner.",
    )
}

/// What went wrong with a connection, and what to try.
pub struct ConnectionAnalysis {
    pub issue: String,
    pub solutions: String,
}

/// The diagnosis of a connection error from its text, first match wins.
pub open spec fn connection_issue(e: Seq<char>) -> (Seq<char>, Seq<char>) {
    if contains_pat(e, "os error 10013"@) || contains_pat(e, "access permissions"@) {
        (
            "Windows network permission error (10013)"@,
            "• Run the bot as Administrator\n• Add Windows Firewall exception\n• Try using 127.0.0.1 instead of localhost"@,
        )
    } else if contains_pat(e, "timeout"@) || contains_pat(e, "timed out"@) {
        (
            "Connection timeout - server not responding"@,
            "• Check if LM Studio is running\n• Verify network connection\n• Ensure server isn't overloaded"@,
        )
    } else if contains_pat(e, "refused"@) || contains_pat(e, "connection refused"@) {
        (
            "Connection refused - server not accepting connections"@,
            "• Start LM Studio application\n• Enable server in LM Studio (Server tab)\n• Check if correct port is used (1234 for LM Studio, 11434 for Ollama)"@,
        )
    } else if contains_pat(e, "dns"@) || contains_pat(e, "name resolution"@) {
        (
            "DNS resolution error - cannot resolve hostname"@,
            "• Use IP address (127.0.0.1) instead of hostname\n• Check DNS settings\n• Verify the hostname in configuration"@,
        )
    } else if contains_pat(e, "ssl"@) || contains_pat(e, "tls"@) || contains_pat(e, "certificate"@) {
        (
            "SSL/TLS certificate error"@,
            "• Use http:// instead of https:// for local servers\n• Check certificate configuration\n• Update LM Studio if using HTTPS"@,
        )
    } else {
        (
            "General network connectivity issue"@,
            "• Check network connection\n• Verify server URL in lmapiconf.txt\n• Ensure firewall allows connections\n• Try restarting LM Studio"@,
        )
    }
}

fn analysis(issue: &str, solutions: &str) -> (a: ConnectionAnalysis)
    ensures
        a.issue@ == issue@,
        a.solutions@ == solutions@,
{
    ConnectionAnalysis { issue: String::from_str(issue), solutions: String::from_str(solutions) }
}

/// Classifies a connection error by its text.
pub fn analyze_connection_error(error_text: &str) -> (a: ConnectionAnalysis)
    ensures
        (a.issue@, a.solutions@) == connection_issue(error_text@),
{
    let e = error_text;
    if contains_str(e, "os error 10013") || contains_str(e, "access permissions") {
        analysis(
            "Windows network permission error (10013)",
            "• Run the bot as Administrator\n• Add Windows Firewall exception\n• Try using 127.0.0.1 instead of localhost",
        )
    } else if contains_str(e, "timeout") || contains_str(e, "timed out") {
        analysis(
            "Connection timeout - server not responding",
            "• Check if LM Studio is running\n• Verify network connection\n• Ensure server isn't overloaded",
        )
    } else if contains_str(e, "refused") || contains_str(e, "connection refused") {
        analysis(
            "Connection refused - server not accepting connections",
            "• Start LM Studio application\n• Enable server in LM Studio (Server tab)\n• Check if correct port is used (1234 for LM Studio, 11434 for Ollama)",
        )
    } else if contains_str(e, "dns") || contains_str(e, "name resolution") {
        analysis(
            "DNS resolution error - cannot resolve hostname",
            "• Use IP address (127.0.0.1) instead of hostname\n• Check DNS settings\n• Verify the hostname in configuration",
        )
    } else if contains_str(e, "ssl") || contains_str(e, "tls") || contains_str(e, "certificate") {
        analysis(
            "SSL/TLS certificate error",
            "• Use http:// instead of https:// for local servers\n• Check certificate configuration\n• Update LM Studio if using HTTPS",
        )
    } else {
        analysis(
            "General network connectivity issue",
            "• Check network connection\n• Verify server URL in lmapiconf.txt\n• Ensure firewall allows connections\n• Try restarting LM Studio",
        )
    }
}

/// The verdict on the chat endpoint from the HTTP status of a probe
/// (`None` when the probe got no answer): a success, 400 or 422 shows the
/// endpoint works.
pub open spec fn api_status_spec(status: Option<u16>) -> Seq<char> {
    match status {
        None => "❌ API endpoint unreachable"@,
        Some(s) => if (200 <= s && s <= 299) || s == 400 || s == 422 {
            "✅ API endpoint responding"@
        } else if s == 404 {
            "❌ API endpoint not found (404)"@
        } else {
            "⚠️ API endpoint issues"@
        },
    }
}

/// Judges the chat endpoint from the HTTP status of a probe.
pub fn api_status(status: Option<u16>) -> (s: String)
    ensures
        s@ == api_status_spec(status),
{
    match status {
        None => String::from_str("❌ API endpoint unreachable"),
        Some(code) => if (200 <= code && code <= 299) || code == 400 || code == 422 {
            String::from_str("✅ API endpoint responding")
        } else if code == 404 {
            String::from_str("❌ API endpoint not found (404)")
        } else {
            String::from_str("⚠️ API endpoint issues")
        },
    }
}

/// The verdict on the configured models given the server's model ids.
pub open spec fn model_status_spec(names: Seq<Seq<char>>, default_model: Seq<char>, summary_model: Seq<char>) -> Seq<char> {
    let d = names.contains(default_model);
    let s = names.contains(summary_model);
    if d && s {
        "✅ All configured models available"@
    } else if d || s {
        "⚠️ Some configured models missing"@
    } else {
        "❌ Configured models not found"@
    }
}

fn has_name(names: &Vec<String>, name: &str) -> (b: bool)
    ensures
        b == views(names@).contains(name@),
{
    let n = to_chars(name);
    let mut i: usize = 0;
    while i < names.len()
        invariant
            i <= names@.len(),
            n@ == name@,
            forall|k: int| 0 <= k < i ==> names@[k]@ != name@,
        decreases names@.len() - i,
    {
        let c = to_chars(names[i].as_str());
        if crate::cleaning::eq_chars(c.as_slice(), n.as_slice()) {
            assert(views(names@)[i as int] == name@);
            return true;
        }
        i = i + 1;
    }
    assert forall|k: int| 0 <= k < views(names@).len() implies views(names@)[k] != name@ by {
        assert(views(names@)[k] == names@[k]@);
    }
    false
}

/// Judges whether the configured models are loaded.
pub fn model_status(names: &Vec<String>, default_model: &str, summary_model: &str) -> (s: String)
    ensures
        s@ == model_status_spec(views(names@), default_model@, summary_model@),
{
    let d = has_name(names, default_model);
    let m = has_name(names, summary_model);
    if d && m {
        String::from_str("✅ All configured models available")
    } else if d || m {
        String::from_str("⚠️ Some configured models missing")
    } else {
        String::from_str("❌ Configured models not found")
    }
}

/// The icon that leads a status line: the check mark or the warning sign
/// when the status starts with it, the cross otherwise.
pub open spec fn icon_of(status: Seq<char>) -> Seq<char> {
    if starts_with(status, "✅"@) {
        "✅"@
    } else if starts_with(status, "⚠️"@) {
        "⚠️"@
    } else {
        "❌"@
    }
}

fn push_icon(out: &mut Vec<char>, status: &str)
    ensures
        final(out)@ == old(out)@ + icon_of(status@),
{
    if starts_with_str(status, "✅") {
        push_str(out, "✅");
    } else if starts_with_str(status, "⚠️") {
        push_str(out, "⚠️");
    } else {
        push_str(out, "❌");
    }
}

/// At most ten model ids, one bullet each.
pub open spec fn model_bullets(names: Seq<Seq<char>>) -> Seq<char> {
    let shown = if names.len() <= 10 {
        names
    } else {
        names.take(10)
    };
    join_sep(Seq::new(shown.len(), |i: int| "• "@ + shown[i]), "\n"@)
}

/// The report's list of available models, when the server gave one.
pub open spec fn models_section(names: Option<Seq<Seq<char>>>) -> Seq<char> {
    match names {
        None => Seq::empty(),
        Some(ns) => "**Available Models:**\n"@ + (if ns.len() == 0 {
            "• No models found"@
        } else {
            model_bullets(ns)
        }) + "\n\n"@ + (if ns.len() > 10 {
            "• ... and "@ + decimal((ns.len() - 10) as nat) + " more models\n\n"@
        } else {
            Seq::empty()
        }),
    }
}

/// The report's recommendations and overall status.
pub open spec fn advice_section(
    api: Seq<char>,
    models: Seq<char>,
    perf: Seq<char>,
    slow: bool,
    default_model: Seq<char>,
    summary_model: Seq<char>,
) -> Seq<char> {
    "**Recommendations:**\n"@ + (if starts_with(api, "❌"@) {
        "• ❌ **Critical:** Enable API server in LM Studio (Server tab → Start Server)\n"@
    } else {
        Seq::empty()
    }) + (if starts_with(models, "❌"@) || starts_with(models, "⚠️"@) {
        "• ⚠️ **Important:** Load the required models in LM Studio\n  - Default model: `"@
            + default_model + "`\n  - Summarization model: `"@ + summary_model + "`\n"@
    } else {
        Seq::empty()
    }) + (if starts_with(perf, "❌"@) {
        "• 🐌 **Performance:** Consider using a smaller/faster model for better response times\n"@
    } else if slow {
        "• 🐌 **Performance:** Response time is slow - consider optimizing your setup\n"@
    } else {
        Seq::empty()
    }) + "\n**Status:** "@ + (if starts_with(api, "✅"@) && starts_with(models, "✅"@)
        && starts_with(perf, "✅"@) {
        "🟢 **All systems operational!**"@
    } else if starts_with(api, "❌"@) || starts_with(models, "❌"@) {
        "🔴 **Critical issues found - bot may not work properly**"@
    } else {
        "🟡 **Some issues found - bot should work but may have problems**"@
    })
}

/// The final diagnosis report.
pub open spec fn diagnosis_report_spec(
    seconds: Seq<char>,
    api: Seq<char>,
    models: Seq<char>,
    perf: Seq<char>,
    names: Option<Seq<Seq<char>>>,
    slow: bool,
    default_model: Seq<char>,
    summary_model: Seq<char>,
) -> Seq<char> {
    "🔍 **LM Studio Connectivity Diagnosis Complete** ("@ + seconds
        + "s)\n\n✅ **Step 1/5:** Configuration loaded\n✅ **Step 2/5:** Basic connectivity OK\n"@
        + icon_of(api) + " **Step 3/5:** "@ + api + "\n"@ + icon_of(models) + " **Step 4/5:** "@
        + models + "\n"@ + icon_of(perf) + " **Step 5/5:** "@ + perf + "\n\n"@ + models_section(names)
        + advice_section(api, models, perf, slow, default_model, summary_model)
}

fn push_models_section(out: &mut Vec<char>, names: &Option<Vec<String>>)
    ensures
        final(out)@ == old(out)@ + models_section(
            match names {
                Some(ns) => Some(views(ns@)),
                None => None,
            },
        ),
{
    match names {
        None => {
            assert(out@ =~= out@ + Seq::<char>::empty());
        },
        Some(ns) => {
            let ghost start = out@;
            let mut body = to_chars("**Available Models:**\n");
            if ns.len() == 0 {
                push_str(&mut body, "• No models found");
            } else {
                let shown: usize = if ns.len() <= 10 {
                    ns.len()
                } else {
                    10
                };
                let mut parts: Vec<Vec<char>> = Vec::new();
                let mut i: usize = 0;
                while i < shown
                    invariant
                        i <= shown <= ns@.len(),
                        shown == (if ns@.len() <= 10 {
                            ns@.len()
                        } else {
                            10
                        }),
                        parts@.len() == i,
                        forall|k: int| 0 <= k < i ==> (#[trigger] parts@[k])@ == "• "@ + ns@[k]@,
                    decreases shown - i,
                {
                    let mut b = to_chars("• ");
                    push_str(&mut b, ns[i].as_str());
                    parts.push(b);
                    i = i + 1;
                }
                let nl = to_chars("\n");
                let joined = crate::text::join_chars(&parts, nl.as_slice());
                let ghost vs = views(ns@);
                let ghost sh = if vs.len() <= 10 {
                    vs
                } else {
                    vs.take(10)
                };
                assert(Seq::new(parts@.len(), |k: int| parts@[k]@) =~= Seq::new(
                    sh.len(),
                    |k: int| "• "@ + sh[k],
                ));
                push_all(&mut body, joined.as_slice());
            }
            push_str(&mut body, "\n\n");
            if ns.len() > 10 {
                push_str(&mut body, "• ... and ");
                let more = decimal_chars((ns.len() - 10) as u128);
                push_all(&mut body, more.as_slice());
                push_str(&mut body, " more models\n\n");
            }
            push_all(out, body.as_slice());
            assert(out@ =~= start + models_section(Some(views(ns@))));
        },
    }
}

fn push_advice(
    out: &mut Vec<char>,
    api: &str,
    models: &str,
    perf: &str,
    slow: bool,
    default_model: &str,
    summary_model: &str,
)
    ensures
        final(out)@ == old(out)@ + advice_section(
            api@,
            models@,
            perf@,
            slow,
            default_model@,
            summary_model@,
        ),
{
    let mut body = to_chars("**Recommendations:**\n");
    if starts_with_str(api, "❌") {
        push_str(
            &mut body,
            "• ❌ **Critical:** Enable API server in LM Studio (Server tab → Start Server)\n",
        );
    }
    if starts_with_str(models, "❌") || starts_with_str(models, "⚠️") {
        push_str(
            &mut body,
            "• ⚠️ **Important:** Load the required models in LM Studio\n  - Default model: `",
        );
        push_str(&mut body, default_model);
        push_str(&mut body, "`\n  - Summarization model: `");
        push_str(&mut body, summary_model);
        push_str(&mut body, "`\n");
    }
    if starts_with_str(perf, "❌") {
        push_str(
            &mut body,
            "• 🐌 **Performance:** Consider using a smaller/faster model for better response times\n",
        );
    } else if slow {
        push_str(
            &mut body,
            "• 🐌 **Performance:** Response time is slow - consider optimizing your setup\n",
        );
    }
    push_str(&mut body, "\n**Status:** ");
    if starts_with_str(api, "✅") && starts_with_str(models, "✅") && starts_with_str(perf, "✅") {
        push_str(&mut body, "🟢 **All systems operational!**");
    } else if starts_with_str(api, "❌") || starts_with_str(models, "❌") {
        push_str(&mut body, "🔴 **Critical issues found - bot may not work properly**");
    } else {
        push_str(&mut body, "🟡 **Some issues found - bot should work but may have problems**");
    }
    assert(body@ =~= advice_section(api@, models@, perf@, slow, default_model@, summary_model@));
    push_all(out, body.as_slice());
}

/// Writes the final diagnosis report.  The elapsed time comes already
/// formatted, and `slow` says whether the test answer took over ten seconds.
pub fn diagnosis_report(
    seconds: &str,
    api: &str,
    models: &str,
    perf: &str,
    names: &Option<Vec<String>>,
    slow: bool,
    default_model: &str,
    summary_model: &str,
) -> (report: String)
    ensures
        report@ == diagnosis_report_spec(
            seconds@,
            api@,
            models@,
            perf@,
            match names {
                Some(ns) => Some(views(ns@)),
                None => None,
            },
            slow,
            default_model@,
            summary_model@,
        ),
{
    let mut out = to_chars("🔍 **LM Studio Connectivity Diagnosis Complete** (");
    push_str(&mut out, seconds);
    push_str(
        &mut out,
        "s)\n\n✅ **Step 1/5:** Configuration loaded\n✅ **Step 2/5:** Basic connectivity OK\n",
    );
    push_icon(&mut out, api);
    push_str(&mut out, " **Step 3/5:** ");
    push_str(&mut out, api);
    push_str(&mut out, "\n");
    push_icon(&mut out, models);
    push_str(&mut out, " **Step 4/5:** ");
    push_str(&mut out, models);
    push_str(&mut out, "\n");
    push_icon(&mut out, perf);
    push_str(&mut out, " **Step 5/5:** ");
    push_str(&mut out, perf);
    push_str(&mut out, "\n\n");
    push_models_section(&mut out, names);
    push_advice(&mut out, api, models, perf, slow, default_model, summary_model);
    from_chars(out.as_slice())
}

/// The message that announces leaving a server.
pub fn leaving_message(guild_name: &str) -> (m: String)
    ensures
        m@ == "🔄 **Leaving Server**\n\nPreparing to leave **"@ + guild_name@
            + "**...\nThis action cannot be undone."@,
{
    let mut out = to_chars("🔄 **Leaving Server**\n\nPreparing to leave **");
    push_str(&mut out, guild_name);
    push_str(&mut out, "**...\nThis action cannot be undone.");
    from_chars(out.as_slice())
}

/// The heading of every diagnosis message.
pub open spec fn diagnosis_heading() -> Seq<char> {
    "🔍 **LM Studio Connectivity Diagnosis**\n\n"@
}

/// The progress message once the settings are loaded.
pub fn config_loaded_text(base_url: &str, timeout: u64, default_model: &str, summary_model: &str) -> (m: String)
    ensures
        m@ == diagnosis_heading() + "✅ **Step 1/5:** Configuration loaded successfully\n• Base URL: `"@ + base_url@
            + "`\n• Timeout: "@ + decimal(timeout as nat) + "s\n• Default Model: `"@ + default_model@
            + "`\n• Summarization Model: `"@ + summary_model@ + "`\n\n**Step 2/5:** Testing basic connectivity..."@,
{
    let mut out = to_chars("🔍 **LM Studio Connectivity Diagnosis**\n\n");
    push_str(&mut out, "✅ **Step 1/5:** Configuration loaded successfully\n• Base URL: `");
    push_str(&mut out, base_url);
    push_str(&mut out, "`\n• Timeout: ");
    let t = decimal_chars(timeout as u128);
    push_all(&mut out, t.as_slice());
    push_str(&mut out, "s\n• Default Model: `");
    push_str(&mut out, default_model);
    push_str(&mut out, "`\n• Summarization Model: `");
    push_str(&mut out, summary_model);
    push_str(&mut out, "`\n\n**Step 2/5:** Testing basic connectivity...");
    from_chars(out.as_slice())
}

/// The diagnosis's end when the settings cannot be loaded.
pub fn config_failed_text(error_text: &str) -> (m: String)
    ensures
        m@ == diagnosis_heading() + "❌ **Step 1/5:** Configuration loading failed\n\n**Error:** "@ + error_text@
            + "\n\n**Next Steps:**\n• Copy `example_lmapiconf.txt` to `lmapiconf.txt`\n• Configure all required settings\n• Ensure LM Studio is running"@,
{
    let mut out = to_chars("🔍 **LM Studio Connectivity Diagnosis**\n\n");
    push_str(&mut out, "❌ **Step 1/5:** Configuration loading failed\n\n**Error:** ");
    push_str(&mut out, error_text);
    push_str(&mut out, "\n\n**Next Steps:**\n• Copy `example_lmapiconf.txt` to `lmapiconf.txt`\n• Configure all required settings\n• Ensure LM Studio is running");
    from_chars(out.as_slice())
}

/// The progress message once the server answered, with its status.
pub fn server_reached_text(status: &str) -> (m: String)
    ensures
        m@ == diagnosis_heading() + "✅ **Step 1/5:** Configuration loaded\n✅ **Step 2/5:** Basic connectivity OK (Status: "@
            + status@ + ")\n\n**Step 3/5:** Testing API endpoints..."@,
{
    let mut out = to_chars("🔍 **LM Studio Connectivity Diagnosis**\n\n");
    push_str(&mut out, "✅ **Step 1/5:** Configuration loaded\n✅ **Step 2/5:** Basic connectivity OK (Status: ");
    push_str(&mut out, status);
    push_str(&mut out, ")\n\n**Step 3/5:** Testing API endpoints...");
    from_chars(out.as_slice())
}

/// The diagnosis's end when the server cannot be reached: the error with
/// its analysis.
pub fn server_unreachable_text(error_text: &str) -> (m: String)
    ensures
        m@ == diagnosis_heading() + "✅ **Step 1/5:** Configuration loaded\n❌ **Step 2/5:** Basic connectivity failed\n\n**Error:** "@
            + error_text@ + "\n\n**Analysis:** "@ + connection_issue(error_text@).0
            + "\n\n**Recommended Actions:**\n"@ + connection_issue(error_text@).1,
{
    let a = analyze_connection_error(error_text);
    let mut out = to_chars("🔍 **LM Studio Connectivity Diagnosis**\n\n");
    push_str(&mut out, "✅ **Step 1/5:** Configuration loaded\n❌ **Step 2/5:** Basic connectivity failed\n\n**Error:** ");
    push_str(&mut out, error_text);
    push_str(&mut out, "\n\n**Analysis:** ");
    push_str(&mut out, a.issue.as_str());
    push_str(&mut out, "\n\n**Recommended Actions:**\n");
    push_str(&mut out, a.solutions.as_str());
    from_chars(out.as_slice())
}

/// The progress message once the chat endpoint was judged.
pub fn endpoint_checked_text(api: &str) -> (m: String)
    ensures
        m@ == diagnosis_heading() + "✅ **Step 1/5:** Configuration loaded\n✅ **Step 2/5:** Basic connectivity OK\n"@
            + icon_of(api@) + " **Step 3/5:** "@ + api@ + "\n\n**Step 4/5:** Testing model availability..."@,
{
    let mut out = to_chars("🔍 **LM Studio Connectivity Diagnosis**\n\n");
    push_str(&mut out, "✅ **Step 1/5:** Configuration loaded\n✅ **Step 2/5:** Basic connectivity OK\n");
    push_icon(&mut out, api);
    push_str(&mut out, " **Step 3/5:** ");
    push_str(&mut out, api);
    push_str(&mut out, "\n\n**Step 4/5:** Testing model availability...");
    from_chars(out.as_slice())
}

/// The progress message once the models were judged.
pub fn models_checked_text(api: &str, models: &str) -> (m: String)
    ensures
        m@ == diagnosis_heading() + "✅ **Step 1/5:** Configuration loaded\n✅ **Step 2/5:** Basic connectivity OK\n"@
            + icon_of(api@) + " **Step 3/5:** "@ + api@ + "\n"@ + icon_of(models@) + " **Step 4/5:** "@ + models@
            + "\n\n**Step 5/5:** Running performance test..."@,
{
    let mut out = to_chars("🔍 **LM Studio Connectivity Diagnosis**\n\n");
    push_str(&mut out, "✅ **Step 1/5:** Configuration loaded\n✅ **Step 2/5:** Basic connectivity OK\n");
    push_icon(&mut out, api);
    push_str(&mut out, " **Step 3/5:** ");
    push_str(&mut out, api);
    push_str(&mut out, "\n");
    push_icon(&mut out, models);
    push_str(&mut out, " **Step 4/5:** ");
    push_str(&mut out, models);
    push_str(&mut out, "\n\n**Step 5/5:** Running performance test...");
    from_chars(out.as_slice())
}

/// What the models endpoint gave.
pub enum ModelsProbe {
    /// A list of model ids.
    Listed(Vec<String>),
    /// A `data` field that is not a list.
    BadFormat,
    /// No `data` field.
    NoData,
    /// A body that is not JSON.
    Unparsable,
    /// A non-success status.
    HttpError,
    /// No answer.
    Unreachable,
}

/// The verdict on the models endpoint's answer.
pub open spec fn models_probe_spec(p: ModelsProbe, default_model: Seq<char>, summary_model: Seq<char>) -> Seq<char> {
    match p {
        ModelsProbe::Listed(names) => model_status_spec(views(names@), default_model, summary_model),
        ModelsProbe::BadFormat => "❌ Invalid models response format"@,
        ModelsProbe::NoData => "❌ No model data in response"@,
        ModelsProbe::Unparsable => "❌ Could not parse models response"@,
        ModelsProbe::HttpError => "❌ Models endpoint returned error"@,
        ModelsProbe::Unreachable => "❌ Models endpoint unreachable"@,
    }
}

/// Judges the models endpoint's answer.
pub fn models_probe_status(p: &ModelsProbe, default_model: &str, summary_model: &str) -> (s: String)
    ensures
        s@ == models_probe_spec(*p, default_model@, summary_model@),
{
    match p {
        ModelsProbe::Listed(names) => model_status(names, default_model, summary_model),
        ModelsProbe::BadFormat => String::from_str("❌ Invalid models response format"),
        ModelsProbe::NoData => String::from_str("❌ No model data in response"),
        ModelsProbe::Unparsable => String::from_str("❌ Could not parse models response"),
        ModelsProbe::HttpError => String::from_str("❌ Models endpoint returned error"),
        ModelsProbe::Unreachable => String::from_str("❌ Models endpoint unreachable"),
    }
}

/// What the timed test request gave.
pub enum PerfProbe {
    /// The answer's content.
    Answered(String),
    /// A JSON body without an answer in it.
    UnexpectedFormat,
    /// A body that is not JSON.
    Unparsable,
    /// A non-success status, as `reqwest` displays it.
    HttpError(String),
    /// The request could not be sent; the error's text.
    SendError(String),
}

/// The verdict on the timed test request; `seconds` is its duration,
/// already formatted.
pub open spec fn perf_status_spec(seconds: Seq<char>, p: PerfProbe) -> Seq<char> {
    match p {
        PerfProbe::Answered(c) => "✅ Performance test OK ("@ + seconds + "s) - Response: \""@ + trim(c@) + "\""@,
        PerfProbe::UnexpectedFormat => "⚠️ Performance test partial ("@ + seconds + "s) - Unexpected response format"@,
        PerfProbe::Unparsable => "⚠️ Performance test partial ("@ + seconds + "s) - Could not parse response"@,
        PerfProbe::HttpError(s) => "❌ Performance test failed ("@ + seconds + "s) - HTTP "@ + s@,
        PerfProbe::SendError(e) => "❌ Performance test failed ("@ + seconds + "s) - "@ + e@,
    }
}

/// Judges the timed test request.
pub fn perf_status(seconds: &str, p: &PerfProbe) -> (s: String)
    ensures
        s@ == perf_status_spec(seconds@, *p),
{
    match p {
        PerfProbe::Answered(c) => {
            let mut out = to_chars("✅ Performance test OK (");
            push_str(&mut out, seconds);
            push_str(&mut out, "s) - Response: \"");
            let t = trim_str(c.as_str());
            push_str(&mut out, t.as_str());
            push_str(&mut out, "\"");
            from_chars(out.as_slice())
        },
        PerfProbe::UnexpectedFormat => {
            let mut out = to_chars("⚠️ Performance test partial (");
            push_str(&mut out, seconds);
            push_str(&mut out, "s) - Unexpected response format");
            from_chars(out.as_slice())
        },
        PerfProbe::Unparsable => {
            let mut out = to_chars("⚠️ Performance test partial (");
            push_str(&mut out, seconds);
            push_str(&mut out, "s) - Could not parse response");
            from_chars(out.as_slice())
        },
        PerfProbe::HttpError(s) => {
            let mut out = to_chars("❌ Performance test failed (");
            push_str(&mut out, seconds);
            push_str(&mut out, "s) - HTTP ");
            push_str(&mut out, s.as_str());
            from_chars(out.as_slice())
        },
        PerfProbe::SendError(e) => {
            let mut out = to_chars("❌ Performance test failed (");
            push_str(&mut out, seconds);
            push_str(&mut out, "s) - ");
            push_str(&mut out, e.as_str());
            from_chars(out.as_slice())
        },
    }
}

/// The fixed messages of the owner-only commands.
#[derive(PartialEq, Eq, Structural, Clone, Copy, Debug)]
pub enum AdminNotice {
    RestartStarted,
    RestartSaved,
    ShutdownStarted,
    ShutdownSaved,
    ForceRestartStarted,
    ForceRestartSaved,
    DiagnosisStarted,
    DiagnosisLoading,
    NotInServer,
}

pub open spec fn admin_notice_spec(n: AdminNotice) -> Seq<char> {
    match n {
        AdminNotice::RestartStarted => "🔄 **Bot Restart Initiated**\n\nSaving contexts and shutting down gracefully...\nThe bot will restart automatically."@,
        AdminNotice::RestartSaved => "✅ **Contexts Saved**\n\n🔄 **Restarting Bot...**\n\nThe bot is now restarting. Please wait a moment for it to come back online."@,
        AdminNotice::ShutdownStarted => "🛑 **Bot Shutdown Initiated**\n\nSaving contexts and shutting down gracefully..."@,
        AdminNotice::ShutdownSaved => "✅ **Contexts Saved**\n\n🛑 **Shutting Down Bot...**\n\nThe bot is now shutting down gracefully."@,
        AdminNotice::ForceRestartStarted => "🔄 **Force Restart Initiated**\n\nShutting down bot process...\n\nThe bot will restart automatically and update this message when it comes back online."@,
        AdminNotice::ForceRestartSaved => "✅ **Contexts Saved**\n\n🔄 **Force Restarting Bot...**\n\nThe bot is now shutting down and will restart."@,
        AdminNotice::DiagnosisStarted => "🔍 **LM Studio Connectivity Diagnosis**\n\nTesting configuration and connectivity..."@,
        AdminNotice::DiagnosisLoading => "🔍 **LM Studio Connectivity Diagnosis**\n\n**Step 1/5:** Loading configuration..."@,
        AdminNotice::NotInServer => "❌ **Error**\nThis command can only be used in a server, not in DMs."@,
    }
}

/// The text of a fixed message of the owner-only commands.
pub fn admin_notice_text(n: AdminNotice) -> (m: String)
    ensures
        m@ == admin_notice_spec(n),
{
    match n {
        AdminNotice::RestartStarted => String::from_str("🔄 **Bot Restart Initiated**\n\nSaving contexts and shutting down gracefully...\nThe bot will restart automatically."),
        AdminNotice::RestartSaved => String::from_str("✅ **Contexts Saved**\n\n🔄 **Restarting Bot...**\n\nThe bot is now restarting. Please wait a moment for it to come back online."),
        AdminNotice::ShutdownStarted => String::from_str("🛑 **Bot Shutdown Initiated**\n\nSaving contexts and shutting down gracefully..."),
        AdminNotice::ShutdownSaved => String::from_str("✅ **Contexts Saved**\n\n🛑 **Shutting Down Bot...**\n\nThe bot is now shutting down gracefully."),
        AdminNotice::ForceRestartStarted => String::from_str("🔄 **Force Restart Initiated**\n\nShutting down bot process...\n\nThe bot will restart automatically and update this message when it comes back online."),
        AdminNotice::ForceRestartSaved => String::from_str("✅ **Contexts Saved**\n\n🔄 **Force Restarting Bot...**\n\nThe bot is now shutting down and will restart."),
        AdminNotice::DiagnosisStarted => String::from_str("🔍 **LM Studio Connectivity Diagnosis**\n\nTesting configuration and connectivity..."),
        AdminNotice::DiagnosisLoading => String::from_str("🔍 **LM Studio Connectivity Diagnosis**\n\n**Step 1/5:** Loading configuration..."),
        AdminNotice::NotInServer => String::from_str("❌ **Error**\nThis command can only be used in a server, not in DMs."),
    }
}

/// The record a forced restart leaves behind so that the new process can
/// edit the confirmation: channel, message and time, separated by `|`.
pub fn restart_record(channel_id: u64, message_id: u64, timestamp: u64) -> (r: String)
    ensures
        r@ == decimal(channel_id as nat) + "|"@ + decimal(message_id as nat) + "|"@ + decimal(timestamp as nat),
{
    let mut out = decimal_chars(channel_id as u128);
    push_str(&mut out, "|");
    let m = decimal_chars(message_id as u128);
    push_all(&mut out, m.as_slice());
    push_str(&mut out, "|");
    let t = decimal_chars(timestamp as u128);
    push_all(&mut out, t.as_slice());
    from_chars(out.as_slice())
}

/// The confirmation once the server was left.
pub fn left_server_message(guild_name: &str) -> (m: String)
    ensures
        m@ == "✅ **Successfully Left Server**\n\nThe bot has left **"@ + guild_name@ + "**.\n\n👋 **Goodbye!**"@,
{
    let mut out = to_chars("✅ **Successfully Left Server**\n\nThe bot has left **");
    push_str(&mut out, guild_name);
    push_str(&mut out, "**.\n\n👋 **Goodbye!**");
    from_chars(out.as_slice())
}

/// The error when leaving the server failed.
pub fn leave_failed_message(guild_name: &str, error_text: &str) -> (m: String)
    ensures
        m@ == "❌ **Error Leaving Server**\n\nFailed to leave **"@ + guild_name@ + "**: "@ + error_text@,
{
    let mut out = to_chars("❌ **Error Leaving Server**\n\nFailed to leave **");
    push_str(&mut out, guild_name);
    push_str(&mut out, "**: ");
    push_str(&mut out, error_text);
    from_chars(out.as_slice())
}

} // verus!
