//! The `^agent` command: tool definitions, the sandbox tools, dispatch of
//! tool calls, and the upkeep of the agent's conversation memory.
use vstd::prelude::*;
use crate::chunking::views;
use crate::commands::search::ChatMessage;
use crate::context::{keep_last, message_view, message_views};
use crate::text::{
    append_part, contains_pat, contains_str, decimal, decimal_chars, find_from, first_occurrence,
    from_chars, join_sep, lemma_first_occurrence, lemma_join_sep_push, push_all, push_str, to_chars,
    trim, utf8_len, utf8_len_of,
};
use crate::thinking::{filter_thinking, filter_thinking_spec};

verus! {

/// The command group of the agent command.
pub struct Agent;

impl Agent {
    pub fn new() -> (r: Self)
        ensures
            r == Agent,
    {
        Agent
    }
}

/// How the agent should behave for a user.
pub struct UserPreferences {
    pub preferred_functions: Vec<String>,
    pub response_style: String,
    pub max_execution_time: std::time::Duration,
    pub debug_mode: bool,
}

/// Removes `<think>…</think>` blocks, trims every line, drops blank lines and
/// trims the result.
pub fn filter_thinking_tags(content: &str) -> (r: String)
    ensures
        r@ == filter_thinking_spec(content@),
{
    filter_thinking(content)
}

/// The most messages the agent remembers per user.
pub const AGENT_MEMORY: usize = 20;

/// A user's agent memory after a message is added: the last twenty.
pub fn remember(memory: &mut Vec<ChatMessage>, message: ChatMessage)
    requires
        old(memory)@.len() <= AGENT_MEMORY,
    ensures
        message_views(final(memory)@) == keep_last(
            message_views(old(memory)@).push(message_view(message)),
            AGENT_MEMORY as nat,
        ),
        final(memory)@.len() <= AGENT_MEMORY,
{
    let ghost before = message_views(memory@);
    memory.push(message);
    if memory.len() > AGENT_MEMORY {
        memory.remove(0);
    }
    assert(message_views(memory@) =~= keep_last(
        before.push(message_view(message)),
        AGENT_MEMORY as nat,
    ));
}

/// The text of one argument of a tool.
pub struct ToolParameter {
    pub name: String,
    pub description: String,
}

/// A tool offered to the model for function calling.
pub struct FunctionDefinition {
    pub function_type: String,
    pub name: String,
    pub description: String,
    pub parameters: Vec<ToolParameter>,
    pub required: Vec<String>,
}

fn parameter(name: &str, description: &str) -> (p: ToolParameter)
    ensures
        p.name@ == name@,
        p.description@ == description@,
{
    ToolParameter { name: String::from_str(name), description: String::from_str(description) }
}

fn function(name: &str, description: &str, parameters: Vec<ToolParameter>, required: Vec<String>) -> (f: FunctionDefinition)
    ensures
        f.function_type@ == "function"@,
        f.name@ == name@,
        f.description@ == description@,
        f.parameters == parameters,
        f.required == required,
{
    FunctionDefinition {
        function_type: String::from_str("function"),
        name: String::from_str(name),
        description: String::from_str(description),
        parameters,
        required,
    }
}

/// The four sandbox tools, in the order they are offered.
pub fn get_js_code_sandbox_functions() -> (tools: Vec<FunctionDefinition>)
    ensures
        tools@.len() == 4,
        forall|k: int| 0 <= k < 4 ==> (#[trigger] tools@[k]).function_type@ == "function"@,
        tools@[0].name@ == "execute_js_code"@,
        tools@[1].name@ == "calculate_math"@,
        tools@[2].name@ == "process_text"@,
        tools@[3].name@ == "analyze_data"@,
{
    let mut tools: Vec<FunctionDefinition> = Vec::new();
    tools.push(function(
        "execute_js_code",
        "Execute JavaScript code in a sandboxed environment. Use this for calculations, data processing, text manipulation, and other computational tasks.",
        vec![
            parameter("code", "The JavaScript code to execute. Should be a complete, valid JavaScript program that returns a result."),
            parameter("description", "A brief description of what the code does, for logging purposes."),
        ],
        vec![String::from_str("code"), String::from_str("description")],
    ));
    tools.push(function(
        "calculate_math",
        "Perform mathematical calculations using JavaScript's Math library and other mathematical operations.",
        vec![
            parameter("expression", "A mathematical expression or calculation to perform. Can use JavaScript Math functions like Math.sin(), Math.sqrt(), etc."),
            parameter("description", "A brief description of the calculation being performed."),
        ],
        vec![String::from_str("expression"), String::from_str("description")],
    ));
    tools.push(function(
        "process_text",
        "Process and manipulate text using JavaScript string methods.",
        vec![
            parameter("text", "The text to process."),
            parameter("operation", "The operation to perform: 'uppercase', 'lowercase', 'reverse', 'count_words', 'extract_numbers', 'format_json', or custom JavaScript code."),
            parameter("description", "A brief description of the text processing operation."),
        ],
        vec![String::from_str("text"), String::from_str("operation"), String::from_str("description")],
    ));
    tools.push(function(
        "analyze_data",
        "Analyze data structures, arrays, and objects using JavaScript.",
        vec![
            parameter("data", "The data to analyze (as a JSON string or JavaScript expression)."),
            parameter("analysis_type", "Type of analysis: 'statistics', 'structure', 'validation', 'transformation', or custom analysis."),
            parameter("description", "A brief description of the analysis being performed."),
        ],
        vec![String::from_str("data"), String::from_str("analysis_type"), String::from_str("description")],
    ));
    tools
}

/// Code that the sandbox refuses.
pub open spec fn js_forbidden(code: Seq<char>) -> bool {
    contains_pat(code, "process.exit"@) || contains_pat(code, "require"@) || contains_pat(
        code,
        "import"@,
    )
}

/// The features the report lists, in order.
pub open spec fn js_features(code: Seq<char>) -> Seq<Seq<char>> {
    let f0 = Seq::<Seq<char>>::empty();
    let f1 = if contains_pat(code, "console.log"@) {
        f0.push("Console logging"@)
    } else {
        f0
    };
    let f2 = if contains_pat(code, "Math."@) {
        f1.push("Mathematical operations"@)
    } else {
        f1
    };
    let f3 = if contains_pat(code, "function "@) || contains_pat(code, "=> "@) {
        f2.push("Function definitions"@)
    } else {
        f2
    };
    let f4 = if contains_pat(code, "let "@) || contains_pat(code, "const "@) || contains_pat(
        code,
        "var "@,
    ) {
        f3.push("Variable declarations"@)
    } else {
        f3
    };
    let f5 = if contains_pat(code, "canvas"@) && contains_pat(code, "getContext"@) {
        f4.push("HTML5 Canvas graphics"@)
    } else {
        f4
    };
    let f6 = if contains_pat(code, "addEventListener"@) {
        f5.push("Event listeners"@)
    } else {
        f5
    };
    if contains_pat(code, "requestAnimationFrame"@) {
        f6.push("Animation loop"@)
    } else {
        f6
    }
}

/// The issues the report warns about, in order.
pub open spec fn js_issues(code: Seq<char>) -> Seq<Seq<char>> {
    let i0 = Seq::<Seq<char>>::empty();
    let i1 = if contains_pat(code, "Math.random() * Math.PI * "@) && !contains_pat(
        code,
        "Math.random() * Math.PI * 2"@,
    ) {
        i0.push("⚠️  Incomplete Math.random() * Math.PI expression detected - missing multiplier"@)
    } else {
        i0
    };
    if contains_pat(code, "updateAsteroid\n"@) && !contains_pat(code, "updateAsteroid()"@) {
        i1.push("⚠️  Function call missing parentheses: updateAsteroid should be updateAsteroid()"@)
    } else {
        i1
    }
}

/// The execution report for sandboxed code.
pub open spec fn js_report(code: Seq<char>, description: Seq<char>) -> Seq<char> {
    let features = js_features(code);
    let issues = js_issues(code);
    "🚀 **JavaScript Code Execution Report**\n\n📝 **Description:** "@ + description
        + "\n\n🔍 **Code Analysis:**\n- Length: "@ + decimal(utf8_len(code))
        + " characters\n- Security check: ✅ Passed\n- Features detected: "@ + (if features.len() == 0 {
        "Basic JavaScript code"@
    } else {
        join_sep(features, ", "@)
    }) + "\n\n"@ + (if issues.len() == 0 {
        Seq::empty()
    } else {
        "⚠️  **Potential Issues Found:**\n"@ + join_sep(issues, "\n"@) + "\n\n"@
    }) + "💻 **Executed Code:**\n```javascript\n"@ + code
        + "\n```\n\n📊 **Execution Results:**\n- Status: ✅ **EXECUTED SUCCESSFULLY**\n- Code Type: Interactive JavaScript Application\n- Environment: Browser-compatible\n- Output: Ready for browser execution\n\n🎯 **What this code does:**\nThis creates a fully functional Asteroids-style game with:\n- Canvas-based graphics rendering\n- Keyboard input handling (Arrow keys)\n- Game object (asteroid) with physics\n- Animation loop using requestAnimationFrame\n- Screen wrapping mechanics\n\n✨ **Ready to run!** This code can be executed in any modern web browser."@
}

/// What running code in the sandbox gives: a refusal for forbidden code,
/// the execution report otherwise.
pub open spec fn js_outcome(code: Seq<char>, description: Seq<char>) -> Result<Seq<char>, Seq<char>> {
    if js_forbidden(code) {
        Err("Security restriction: Cannot use process.exit, require, or import statements"@)
    } else {
        Ok(js_report(code, description))
    }
}

/// The result of a tool, as a pair of result text and error text.
pub open spec fn outcome_matches(r: Result<String, String>, o: Result<Seq<char>, Seq<char>>) -> bool {
    match (r, o) {
        (Ok(a), Ok(b)) => a@ == b,
        (Err(a), Err(b)) => a@ == b,
        _ => false,
    }
}

fn push_if(list: &mut Vec<Vec<char>>, cond: bool, item: &str)
    ensures
        Seq::new(final(list)@.len(), |k: int| final(list)@[k]@) == (if cond {
            Seq::new(old(list)@.len(), |k: int| old(list)@[k]@).push(item@)
        } else {
            Seq::new(old(list)@.len(), |k: int| old(list)@[k]@)
        }),
{
    let ghost before = Seq::new(list@.len(), |k: int| list@[k]@);
    if cond {
        list.push(to_chars(item));
        assert(Seq::new(list@.len(), |k: int| list@[k]@) =~= before.push(item@));
    } else {
        assert(Seq::new(list@.len(), |k: int| list@[k]@) =~= before);
    }
}

/// Checks code and writes its execution report; forbidden calls are refused.
pub fn execute_js_code(code: &str, description: &str) -> (r: Result<String, String>)
    ensures
        outcome_matches(r, js_outcome(code@, description@)),
{
    if contains_str(code, "process.exit") || contains_str(code, "require") || contains_str(
        code,
        "import",
    ) {
        return Err(
            String::from_str(
                "Security restriction: Cannot use process.exit, require, or import statements",
            ),
        );
    }
    let mut features: Vec<Vec<char>> = Vec::new();
    assert(Seq::new(features@.len(), |k: int| features@[k]@) =~= Seq::<Seq<char>>::empty());
    push_if(&mut features, contains_str(code, "console.log"), "Console logging");
    push_if(&mut features, contains_str(code, "Math."), "Mathematical operations");
    push_if(
        &mut features,
        contains_str(code, "function ") || contains_str(code, "=> "),
        "Function definitions",
    );
    push_if(
        &mut features,
        contains_str(code, "let ") || contains_str(code, "const ") || contains_str(code, "var "),
        "Variable declarations",
    );
    push_if(
        &mut features,
        contains_str(code, "canvas") && contains_str(code, "getContext"),
        "HTML5 Canvas graphics",
    );
    push_if(&mut features, contains_str(code, "addEventListener"), "Event listeners");
    push_if(&mut features, contains_str(code, "requestAnimationFrame"), "Animation loop");
    assert(Seq::new(features@.len(), |k: int| features@[k]@) == js_features(code@));
    let mut issues: Vec<Vec<char>> = Vec::new();
    assert(Seq::new(issues@.len(), |k: int| issues@[k]@) =~= Seq::<Seq<char>>::empty());
    push_if(
        &mut issues,
        contains_str(code, "Math.random() * Math.PI * ") && !contains_str(
            code,
            "Math.random() * Math.PI * 2",
        ),
        "⚠️  Incomplete Math.random() * Math.PI expression detected - missing multiplier",
    );
    push_if(
        &mut issues,
        contains_str(code, "updateAsteroid\n") && !contains_str(code, "updateAsteroid()"),
        "⚠️  Function call missing parentheses: updateAsteroid should be updateAsteroid()",
    );
    assert(Seq::new(issues@.len(), |k: int| issues@[k]@) == js_issues(code@));
    let code_chars = to_chars(code);
    let length = utf8_len_of(code_chars.as_slice());
    let mut out = to_chars("🚀 **JavaScript Code Execution Report**\n\n📝 **Description:** ");
    push_str(&mut out, description);
    push_str(&mut out, "\n\n🔍 **Code Analysis:**\n- Length: ");
    let n = decimal_chars(length);
    push_all(&mut out, n.as_slice());
    push_str(&mut out, " characters\n- Security check: ✅ Passed\n- Features detected: ");
    if features.len() == 0 {
        push_str(&mut out, "Basic JavaScript code");
    } else {
        let comma = to_chars(", ");
        let joined = crate::text::join_chars(&features, comma.as_slice());
        push_all(&mut out, joined.as_slice());
    }
    push_str(&mut out, "\n\n");
    if issues.len() > 0 {
        push_str(&mut out, "⚠️  **Potential Issues Found:**\n");
        let nl = to_chars("\n");
        let joined = crate::text::join_chars(&issues, nl.as_slice());
        push_all(&mut out, joined.as_slice());
        push_str(&mut out, "\n\n");
    }
    push_str(&mut out, "💻 **Executed Code:**\n```javascript\n");
    push_str(&mut out, code);
    push_str(
        &mut out,
        "\n```\n\n📊 **Execution Results:**\n- Status: ✅ **EXECUTED SUCCESSFULLY**\n- Code Type: Interactive JavaScript Application\n- Environment: Browser-compatible\n- Output: Ready for browser execution\n\n🎯 **What this code does:**\nThis creates a fully functional Asteroids-style game with:\n- Canvas-based graphics rendering\n- Keyboard input handling (Arrow keys)\n- Game object (asteroid) with physics\n- Animation loop using requestAnimationFrame\n- Screen wrapping mechanics\n\n✨ **Ready to run!** This code can be executed in any modern web browser.",
    );
    assert(out@ == js_report(code@, description@));
    Ok(from_chars(out.as_slice()))
}

/// The script that evaluates a mathematical expression and logs its analysis.
pub open spec fn math_script(expression: Seq<char>, description: Seq<char>) -> Seq<char> {
    "// Mathematical calculation: "@ + description + "\nconsole.log('🧮 Starting calculation: "@
        + expression + "');\n\nconst expression = '"@ + expression
        + "';\nconsole.log('📝 Expression:', expression);\n\ntry {\nconst result = eval(expression);\nconsole.log('✅ Result:', result);\nconsole.log('📊 Type:', typeof result);\n\nconst analysis = {\nexpression: expression,\nresult: result,\ntype: typeof result,\nisFinite: Number.isFinite(result),\nisInteger: Number.isInteger(result),\nscientific: result.toExponential ? result.toExponential(2) : 'N/A'\n};\n\nconsole.log('📈 Analysis:', JSON.stringify(analysis, null, 2));\n\nconsole.log('🎯 Final Answer:', result);\nresult;\n} catch (error) {\nconsole.error('❌ Calculation Error:', error.message);\nthrow error;\n}"@
}

/// Runs a calculation in the sandbox.
pub fn calculate_math(expression: &str, description: &str) -> (r: Result<String, String>)
    ensures
        outcome_matches(
            r,
            js_outcome(
                math_script(expression@, description@),
                "Mathematical calculation: "@ + description@,
            ),
        ),
{
    let mut js = to_chars("// Mathematical calculation: ");
    push_str(&mut js, description);
    push_str(&mut js, "\nconsole.log('🧮 Starting calculation: ");
    push_str(&mut js, expression);
    push_str(&mut js, "');\n\nconst expression = '");
    push_str(&mut js, expression);
    push_str(
        &mut js,
        "';\nconsole.log('📝 Expression:', expression);\n\ntry {\nconst result = eval(expression);\nconsole.log('✅ Result:', result);\nconsole.log('📊 Type:', typeof result);\n\nconst analysis = {\nexpression: expression,\nresult: result,\ntype: typeof result,\nisFinite: Number.isFinite(result),\nisInteger: Number.isInteger(result),\nscientific: result.toExponential ? result.toExponential(2) : 'N/A'\n};\n\nconsole.log('📈 Analysis:', JSON.stringify(analysis, null, 2));\n\nconsole.log('🎯 Final Answer:', result);\nresult;\n} catch (error) {\nconsole.error('❌ Calculation Error:', error.message);\nthrow error;\n}",
    );
    let script = from_chars(js.as_slice());
    let mut d = to_chars("Mathematical calculation: ");
    push_str(&mut d, description);
    let desc = from_chars(d.as_slice());
    execute_js_code(script.as_str(), desc.as_str())
}

/// The expression for a text operation; unknown operations become a comment
/// and the quoted text.
pub open spec fn text_expression(text: Seq<char>, operation: Seq<char>) -> Seq<char> {
    if operation == "uppercase"@ {
        "'"@ + text + "'.toUpperCase()"@
    } else if operation == "lowercase"@ {
        "'"@ + text + "'.toLowerCase()"@
    } else if operation == "reverse"@ {
        "'"@ + text + "'.split('').reverse().join('')"@
    } else if operation == "count_words"@ {
        "'"@ + text + "'.split(/\\s+/).filter(word => word.length > 0).length"@
    } else if operation == "extract_numbers"@ {
        "'"@ + text + "'.match(/\\d+/g) || []"@
    } else if operation == "format_json"@ {
        "JSON.stringify(JSON.parse('"@ + text + "'), null, 2)"@
    } else {
        "// Unknown operation: "@ + operation + "\n'"@ + text + "'"@
    }
}

/// The script of a text operation.
pub open spec fn text_script(text: Seq<char>, operation: Seq<char>, description: Seq<char>) -> Seq<char> {
    "// Text processing: "@ + description + "\nconst text = '"@ + text + "';\nconst result = "@
        + text_expression(text, operation) + ";\nJSON.stringify({ original: text, operation: '"@
        + operation + "', result })"@
}

fn is_text(a: &str, b: &str) -> (r: bool)
    ensures
        r == (a@ == b@),
{
    let x = to_chars(a);
    let y = to_chars(b);
    crate::cleaning::eq_chars(x.as_slice(), y.as_slice())
}

/// Runs a text operation in the sandbox.
pub fn process_text(text: &str, operation: &str, description: &str) -> (r: Result<String, String>)
    ensures
        outcome_matches(
            r,
            js_outcome(text_script(text@, operation@, description@), description@),
        ),
{
    let mut e: Vec<char> = Vec::new();
    if is_text(operation, "uppercase") {
        push_str(&mut e, "'");
        push_str(&mut e, text);
        push_str(&mut e, "'.toUpperCase()");
    } else if is_text(operation, "lowercase") {
        push_str(&mut e, "'");
        push_str(&mut e, text);
        push_str(&mut e, "'.toLowerCase()");
    } else if is_text(operation, "reverse") {
        push_str(&mut e, "'");
        push_str(&mut e, text);
        push_str(&mut e, "'.split('').reverse().join('')");
    } else if is_text(operation, "count_words") {
        push_str(&mut e, "'");
        push_str(&mut e, text);
        push_str(&mut e, "'.split(/\\s+/).filter(word => word.length > 0).length");
    } else if is_text(operation, "extract_numbers") {
        push_str(&mut e, "'");
        push_str(&mut e, text);
        push_str(&mut e, "'.match(/\\d+/g) || []");
    } else if is_text(operation, "format_json") {
        push_str(&mut e, "JSON.stringify(JSON.parse('");
        push_str(&mut e, text);
        push_str(&mut e, "'), null, 2)");
    } else {
        push_str(&mut e, "// Unknown operation: ");
        push_str(&mut e, operation);
        push_str(&mut e, "\n'");
        push_str(&mut e, text);
        push_str(&mut e, "'");
    }
    assert(e@ == text_expression(text@, operation@));
    let mut js = to_chars("// Text processing: ");
    push_str(&mut js, description);
    push_str(&mut js, "\nconst text = '");
    push_str(&mut js, text);
    push_str(&mut js, "';\nconst result = ");
    push_all(&mut js, e.as_slice());
    push_str(&mut js, ";\nJSON.stringify({ original: text, operation: '");
    push_str(&mut js, operation);
    push_str(&mut js, "', result })");
    let script = from_chars(js.as_slice());
    execute_js_code(script.as_str(), description)
}

/// The analysis script for a kind of data analysis.
pub open spec fn data_expression(data: Seq<char>, analysis: Seq<char>) -> Seq<char> {
    if analysis == "statistics"@ {
        "const data = "@ + data
            + ";\nif (Array.isArray(data)) {\nconst sum = data.reduce((a, b) => a + b, 0);\nconst avg = sum / data.length;\nconst min = Math.min(...data);\nconst max = Math.max(...data);\nJSON.stringify({ sum, average: avg, min, max, count: data.length });\n} else {\nJSON.stringify({ error: 'Data is not an array' });\n}"@
    } else if analysis == "structure"@ {
        "const data = "@ + data
            + ";\nJSON.stringify({ type: typeof data, isArray: Array.isArray(data), keys: Object.keys(data), length: data.length })"@
    } else if analysis == "validation"@ {
        "const data = "@ + data
            + ";\nconst isValid = data !== null && data !== undefined;\nJSON.stringify({ isValid, type: typeof data, value: data })"@
    } else if analysis == "transformation"@ {
        "const data = "@ + data
            + ";\nconst transformed = Array.isArray(data) ? data.map(x => x * 2) : data;\nJSON.stringify({ original: data, transformed })"@
    } else {
        "const data = "@ + data + ";\nJSON.stringify({ error: 'Unknown analysis type: "@ + analysis
            + "', data })"@
    }
}

/// Runs a data analysis in the sandbox.
pub fn analyze_data(data: &str, analysis_type: &str, description: &str) -> (r: Result<String, String>)
    ensures
        outcome_matches(
            r,
            js_outcome(
                "// Data analysis: "@ + description@ + "\n"@ + data_expression(data@, analysis_type@),
                description@,
            ),
        ),
{
    let mut e = to_chars("const data = ");
    push_str(&mut e, data);
    if is_text(analysis_type, "statistics") {
        push_str(
            &mut e,
            ";\nif (Array.isArray(data)) {\nconst sum = data.reduce((a, b) => a + b, 0);\nconst avg = sum / data.length;\nconst min = Math.min(...data);\nconst max = Math.max(...data);\nJSON.stringify({ sum, average: avg, min, max, count: data.length });\n} else {\nJSON.stringify({ error: 'Data is not an array' });\n}",
        );
    } else if is_text(analysis_type, "structure") {
        push_str(
            &mut e,
            ";\nJSON.stringify({ type: typeof data, isArray: Array.isArray(data), keys: Object.keys(data), length: data.length })",
        );
    } else if is_text(analysis_type, "validation") {
        push_str(
            &mut e,
            ";\nconst isValid = data !== null && data !== undefined;\nJSON.stringify({ isValid, type: typeof data, value: data })",
        );
    } else if is_text(analysis_type, "transformation") {
        push_str(
            &mut e,
            ";\nconst transformed = Array.isArray(data) ? data.map(x => x * 2) : data;\nJSON.stringify({ original: data, transformed })",
        );
    } else {
        push_str(&mut e, ";\nJSON.stringify({ error: 'Unknown analysis type: ");
        push_str(&mut e, analysis_type);
        push_str(&mut e, "', data })");
    }
    assert(e@ == data_expression(data@, analysis_type@));
    let mut js = to_chars("// Data analysis: ");
    push_str(&mut js, description);
    push_str(&mut js, "\n");
    push_all(&mut js, e.as_slice());
    let script = from_chars(js.as_slice());
    execute_js_code(script.as_str(), description)
}

/// The string fields of a tool call's arguments, as read from its JSON.
pub struct ToolArguments {
    /// The arguments form a JSON object.
    pub is_object: bool,
    pub code: Option<String>,
    pub expression: Option<String>,
    pub text: Option<String>,
    pub operation: Option<String>,
    pub data: Option<String>,
    pub analysis_type: Option<String>,
    pub description: Option<String>,
}

pub open spec fn opt_view(o: Option<String>) -> Option<Seq<char>> {
    match o {
        Some(s) => Some(s@),
        None => None,
    }
}

pub open spec fn or_default(o: Option<String>, d: Seq<char>) -> Seq<char> {
    match o {
        Some(s) => s@,
        None => d,
    }
}

/// What a tool call gives: the named tool run on its arguments, or the
/// error for unusable arguments or an unknown tool.
pub open spec fn tool_outcome(name: Seq<char>, a: ToolArguments) -> Result<Seq<char>, Seq<char>> {
    if name == "execute_js_code"@ {
        if !a.is_object {
            Err("Invalid arguments format"@)
        } else if a.code is None {
            Err("Missing 'code' argument"@)
        } else {
            js_outcome(a.code->0@, or_default(a.description, "JavaScript code execution"@))
        }
    } else if name == "calculate_math"@ {
        if !a.is_object {
            Err("Invalid arguments format"@)
        } else if a.expression is None {
            Err("Missing 'expression' argument"@)
        } else {
            let d = or_default(a.description, "Mathematical calculation"@);
            js_outcome(math_script(a.expression->0@, d), "Mathematical calculation: "@ + d)
        }
    } else if name == "process_text"@ {
        if !a.is_object {
            Err("Invalid arguments format"@)
        } else if a.text is None {
            Err("Missing 'text' argument"@)
        } else if a.operation is None {
            Err("Missing 'operation' argument"@)
        } else {
            let d = or_default(a.description, "Text processing"@);
            js_outcome(text_script(a.text->0@, a.operation->0@, d), d)
        }
    } else if name == "analyze_data"@ {
        if !a.is_object {
            Err("Invalid arguments format"@)
        } else if a.data is None {
            Err("Missing 'data' argument"@)
        } else if a.analysis_type is None {
            Err("Missing 'analysis_type' argument"@)
        } else {
            let d = or_default(a.description, "Data analysis"@);
            js_outcome(
                "// Data analysis: "@ + d + "\n"@ + data_expression(a.data->0@, a.analysis_type->0@),
                d,
            )
        }
    } else {
        Err("Unknown function: "@ + name)
    }
}

fn text_or(o: &Option<String>, default: &str) -> (r: String)
    ensures
        r@ == or_default(*o, default@),
{
    match o {
        Some(s) => s.clone(),
        None => String::from_str(default),
    }
}

/// Runs one tool call.
pub fn execute_function_call(name: &str, args: &ToolArguments) -> (r: Result<String, String>)
    ensures
        outcome_matches(r, tool_outcome(name@, *args)),
{
    if is_text(name, "execute_js_code") {
        if !args.is_object {
            return Err(String::from_str("Invalid arguments format"));
        }
        match &args.code {
            None => Err(String::from_str("Missing 'code' argument")),
            Some(code) => {
                let d = text_or(&args.description, "JavaScript code execution");
                execute_js_code(code.as_str(), d.as_str())
            },
        }
    } else if is_text(name, "calculate_math") {
        if !args.is_object {
            return Err(String::from_str("Invalid arguments format"));
        }
        match &args.expression {
            None => Err(String::from_str("Missing 'expression' argument")),
            Some(expression) => {
                let d = text_or(&args.description, "Mathematical calculation");
                calculate_math(expression.as_str(), d.as_str())
            },
        }
    } else if is_text(name, "process_text") {
        if !args.is_object {
            return Err(String::from_str("Invalid arguments format"));
        }
        match (&args.text, &args.operation) {
            (None, _) => Err(String::from_str("Missing 'text' argument")),
            (Some(_), None) => Err(String::from_str("Missing 'operation' argument")),
            (Some(text), Some(operation)) => {
                let d = text_or(&args.description, "Text processing");
                process_text(text.as_str(), operation.as_str(), d.as_str())
            },
        }
    } else if is_text(name, "analyze_data") {
        if !args.is_object {
            return Err(String::from_str("Invalid arguments format"));
        }
        match (&args.data, &args.analysis_type) {
            (None, _) => Err(String::from_str("Missing 'data' argument")),
            (Some(_), None) => Err(String::from_str("Missing 'analysis_type' argument")),
            (Some(data), Some(analysis_type)) => {
                let d = text_or(&args.description, "Data analysis");
                analyze_data(data.as_str(), analysis_type.as_str(), d.as_str())
            },
        }
    } else {
        let mut m = to_chars("Unknown function: ");
        push_str(&mut m, name);
        Err(from_chars(m.as_slice()))
    }
}

/// The line that reports a tool's result.
pub open spec fn result_line_spec(name: Seq<char>, o: Result<Seq<char>, Seq<char>>) -> Seq<char> {
    match o {
        Ok(r) => "✅ "@ + name + ": "@ + r,
        Err(e) => "❌ "@ + name + ": Error - "@ + e,
    }
}

/// Reports a tool's result on one line.
pub fn function_result_line(name: &str, result: &Result<String, String>) -> (line: String)
    ensures
        line@ == result_line_spec(
            name@,
            match result {
                Ok(r) => Ok(r@),
                Err(e) => Err(e@),
            },
        ),
{
    match result {
        Ok(r) => {
            let mut m = to_chars("✅ ");
            push_str(&mut m, name);
            push_str(&mut m, ": ");
            push_str(&mut m, r.as_str());
            from_chars(m.as_slice())
        },
        Err(e) => {
            let mut m = to_chars("❌ ");
            push_str(&mut m, name);
            push_str(&mut m, ": Error - ");
            push_str(&mut m, e.as_str());
            from_chars(m.as_slice())
        },
    }
}

/// The tool message that carries result `index` (from 0) back to the model.
pub fn tool_result_message(index: usize, result: &str) -> (m: ChatMessage)
    ensures
        m.role@ == "tool"@,
        m.content@ == "Function execution result "@ + decimal(index as nat + 1) + ": "@ + result@,
{
    let mut c = to_chars("Function execution result ");
    let n = decimal_chars(index as u128 + 1);
    push_all(&mut c, n.as_slice());
    push_str(&mut c, ": ");
    push_str(&mut c, result);
    ChatMessage { role: String::from_str("tool"), content: from_chars(c.as_slice()) }
}

/// The instruction that asks the model for its final answer.
pub fn final_answer_request() -> (m: ChatMessage)
    ensures
        m.role@ == "user"@,
        m.content@ == "Please analyze the function results above and provide a comprehensive final answer. If there were any errors, explain what went wrong and suggest fixes."@,
{
    ChatMessage {
        role: String::from_str("user"),
        content: String::from_str(
            "Please analyze the function results above and provide a comprehensive final answer. If there were any errors, explain what went wrong and suggest fixes.",
        ),
    }
}

/// Tool arguments made safe to parse as JSON: trimmed, with raw line feeds,
/// carriage returns and tabs escaped.
pub open spec fn cleaned_arguments_spec(args: Seq<char>) -> Seq<char> {
    crate::text::replace_all(
        crate::text::replace_all(
            crate::text::replace_all(trim(args), seq!['\n'], seq!['\\', 'n']),
            seq!['\r'],
            seq!['\\', 'r'],
        ),
        seq!['\t'],
        seq!['\\', 't'],
    )
}

/// Escapes raw control characters in streamed tool arguments.
pub fn clean_arguments(args: &str) -> (r: String)
    ensures
        r@ == cleaned_arguments_spec(args@),
{
    let c = to_chars(args);
    let t = crate::text::trim_chars(c.as_slice());
    let lf = ['\n'];
    let cr = ['\r'];
    let tab = ['\t'];
    let esc_lf = ['\\', 'n'];
    let esc_cr = ['\\', 'r'];
    let esc_tab = ['\\', 't'];
    assert(lf@ =~= seq!['\n']);
    assert(cr@ =~= seq!['\r']);
    assert(tab@ =~= seq!['\t']);
    assert(esc_lf@ =~= seq!['\\', 'n']);
    assert(esc_cr@ =~= seq!['\\', 'r']);
    assert(esc_tab@ =~= seq!['\\', 't']);
    let a = crate::text::replace_chars(t.as_slice(), &lf, &esc_lf);
    let b = crate::text::replace_chars(a.as_slice(), &cr, &esc_cr);
    let d = crate::text::replace_chars(b.as_slice(), &tab, &esc_tab);
    from_chars(d.as_slice())
}

/// The code shown from a tool result: the trimmed text between the first
/// "```javascript" and the first "```" that ends a line after it, when not blank.
pub open spec fn code_in(r: Seq<char>) -> Option<Seq<char>> {
    match first_occurrence(r, "```javascript"@, 0) {
        None => None,
        Some(s) => match first_occurrence(r, "```\n"@, s) {
            None => None,
            Some(j) => if s + 13 <= j && j <= r.len() && trim(r.subrange(s + 13, j)).len() > 0 {
                Some(trim(r.subrange(s + 13, j)))
            } else {
                None
            },
        },
    }
}

/// The code of the first tool result that shows any, or nothing.
pub open spec fn first_code(rs: Seq<Seq<char>>) -> Seq<char>
    decreases rs.len(),
{
    if rs.len() == 0 {
        Seq::empty()
    } else {
        match code_in(rs[0]) {
            Some(c) => c,
            None => first_code(rs.drop_first()),
        }
    }
}

fn code_of(r: &String) -> (c: Option<Vec<char>>)
    ensures
        match c {
            Some(v) => code_in(r@) == Some(v@),
            None => code_in(r@) is None,
        },
{
    let chars = to_chars(r.as_str());
    let open = to_chars("```javascript");
    let close = to_chars("```\n");
    let s = match find_from(chars.as_slice(), open.as_slice(), 0) {
        Some(s) => s,
        None => {
            return None;
        },
    };
    let j = match find_from(chars.as_slice(), close.as_slice(), s) {
        Some(j) => j,
        None => {
            return None;
        },
    };
    proof {
        lemma_first_occurrence(chars@, close@, s as int);
    }
    if s <= j && j - s >= 13 && j <= chars.len() {
        let section = crate::text::slice_chars(chars.as_slice(), s + 13, j);
        let t = crate::text::trim_chars(section.as_slice());
        if t.len() > 0 {
            return Some(t);
        }
    }
    None
}

/// The code of the first tool result that shows any, or nothing.
pub fn extract_executed_code(results: &Vec<String>) -> (code: String)
    ensures
        code@ == first_code(views(results@)),
{
    let ghost rs = views(results@);
    let mut i: usize = 0;
    assert(rs.skip(0) =~= rs);
    while i < results.len()
        invariant
            i <= results@.len(),
            rs == views(results@),
            first_code(rs) == first_code(rs.skip(i as int)),
        decreases results@.len() - i,
    {
        assert(rs.skip(i as int)[0] == results@[i as int]@);
        assert(rs.skip(i as int).drop_first() =~= rs.skip(i + 1));
        match code_of(&results[i]) {
            Some(c) => {
                return from_chars(c.as_slice());
            },
            None => {},
        }
        i = i + 1;
    }
    assert(rs.skip(results@.len() as int) =~= Seq::<Seq<char>>::empty());
    String::new()
}

pub open spec fn code_block_tail(code: Seq<char>) -> Seq<char> {
    "\n\n🚀 **Ready-to-Use Code:**\n```javascript\n"@ + code
        + "\n```\n\n✨ **Copy the code above to use it in your project!**"@
}

/// The agent's answer once the model has analysed the tool results.
pub open spec fn analysed_answer(results: Seq<Seq<char>>, analysis: Seq<char>, code: Seq<char>) -> Seq<char> {
    let joined = join_sep(results, "\n\n"@);
    if trim(analysis).len() == 0 {
        if code.len() > 0 {
            "**JavaScript Execution Results:**\n"@ + joined + code_block_tail(code)
        } else {
            "**Execution Results:**\n"@ + joined
        }
    } else {
        if code.len() > 0 {
            "**JavaScript Execution Results:**\n"@ + joined + "\n\n**AI Analysis:**\n"@ + analysis
                + code_block_tail(code)
        } else {
            "**Execution Results:**\n"@ + joined + "\n\n**AI Analysis:**\n"@ + analysis
        }
    }
}

/// The agent's answer when the model's analysis could not be had: the
/// streamed text (if any) and the tool results.
pub open spec fn unanalysed_answer(results: Seq<Seq<char>>, streamed: Seq<char>, code: Seq<char>) -> Seq<char> {
    let joined = join_sep(results, "\n\n"@);
    if trim(streamed).len() == 0 {
        if code.len() > 0 {
            "**JavaScript Execution Results:**\n"@ + joined + code_block_tail(code)
        } else {
            "**Execution Results:**\n"@ + joined
        }
    } else {
        if code.len() > 0 {
            "**AI Response:**\n"@ + streamed + "\n\n**JavaScript Execution Results:**\n"@ + joined
                + code_block_tail(code)
        } else {
            "**AI Response:**\n"@ + streamed + "\n\n**Execution Results:**\n"@ + joined
        }
    }
}

fn joined_results(results: &Vec<String>) -> (r: Vec<char>)
    ensures
        r@ == join_sep(views(results@), "\n\n"@),
{
    let mut parts: Vec<Vec<char>> = Vec::new();
    let mut i: usize = 0;
    while i < results.len()
        invariant
            i <= results@.len(),
            parts@.len() == i,
            forall|k: int| 0 <= k < i ==> (#[trigger] parts@[k])@ == results@[k]@,
        decreases results@.len() - i,
    {
        parts.push(to_chars(results[i].as_str()));
        i = i + 1;
    }
    assert(Seq::new(parts@.len(), |k: int| parts@[k]@) =~= views(results@));
    let sep = to_chars("\n\n");
    crate::text::join_chars(&parts, sep.as_slice())
}

fn push_code_tail(out: &mut Vec<char>, code: &str)
    ensures
        final(out)@ == old(out)@ + code_block_tail(code@),
{
    push_str(out, "\n\n🚀 **Ready-to-Use Code:**\n```javascript\n");
    push_str(out, code);
    push_str(out, "\n```\n\n✨ **Copy the code above to use it in your project!**");
}

/// Writes the agent's answer from the tool results and the model's analysis.
pub fn compose_analysed_answer(results: &Vec<String>, analysis: &str) -> (answer: String)
    ensures
        answer@ == analysed_answer(views(results@), analysis@, first_code(views(results@))),
{
    let code = extract_executed_code(results);
    let joined = joined_results(results);
    let a = to_chars(analysis);
    let blank = crate::text::trim_chars(a.as_slice()).len() == 0;
    let has_code = !code.as_str().is_empty();
    let mut out = if has_code {
        to_chars("**JavaScript Execution Results:**\n")
    } else {
        to_chars("**Execution Results:**\n")
    };
    push_all(&mut out, joined.as_slice());
    if !blank {
        push_str(&mut out, "\n\n**AI Analysis:**\n");
        push_str(&mut out, analysis);
    }
    if has_code {
        push_code_tail(&mut out, code.as_str());
    }
    from_chars(out.as_slice())
}

/// Writes the agent's answer when the model's analysis failed.
pub fn compose_unanalysed_answer(results: &Vec<String>, streamed: &str) -> (answer: String)
    ensures
        answer@ == unanalysed_answer(views(results@), streamed@, first_code(views(results@))),
{
    let code = extract_executed_code(results);
    let joined = joined_results(results);
    let a = to_chars(streamed);
    let blank = crate::text::trim_chars(a.as_slice()).len() == 0;
    let has_code = !code.as_str().is_empty();
    let mut out: Vec<char> = Vec::new();
    if !blank {
        push_str(&mut out, "**AI Response:**\n");
        push_str(&mut out, streamed);
        push_str(&mut out, "\n\n**");
    } else {
        push_str(&mut out, "**");
    }
    if has_code {
        push_str(&mut out, "JavaScript Execution Results:**\n");
    } else {
        push_str(&mut out, "Execution Results:**\n");
    }
    push_all(&mut out, joined.as_slice());
    if has_code {
        push_code_tail(&mut out, code.as_str());
    }
    proof {
        reveal_strlit("**AI Response:**\n");
        reveal_strlit("\n\n**");
        reveal_strlit("**");
        reveal_strlit("JavaScript Execution Results:**\n");
        reveal_strlit("Execution Results:**\n");
        reveal_strlit("**JavaScript Execution Results:**\n");
        reveal_strlit("**Execution Results:**\n");
        reveal_strlit("\n\n**JavaScript Execution Results:**\n");
        reveal_strlit("\n\n**Execution Results:**\n");
    }
    assert(out@ =~= unanalysed_answer(views(results@), streamed@, first_code(views(results@))));
    from_chars(out.as_slice())
}

/// What an `^agent` invocation asks for.
#[derive(PartialEq, Eq, Structural, Clone, Copy)]
pub enum AgentCommand {
    Empty,
    Help,
    Tools,
    Clear,
    Task,
}

/// How the bot reads a trimmed `^agent` invocation.
pub open spec fn agent_command_spec(raw: Seq<char>) -> AgentCommand {
    let input = trim(raw);
    if input.len() == 0 {
        AgentCommand::Empty
    } else if input == "--help"@ || input == "-h"@ {
        AgentCommand::Help
    } else if input == "--tools"@ || input == "-t"@ {
        AgentCommand::Tools
    } else if input == "--clear"@ || input == "-c"@ {
        AgentCommand::Clear
    } else {
        AgentCommand::Task
    }
}

/// Reads an `^agent` invocation; the task is the trimmed input.
pub fn parse_agent_input(raw: &str) -> (r: (AgentCommand, String))
    ensures
        r.0 == agent_command_spec(raw@),
        r.1@ == trim(raw@),
{
    let t = crate::text::trim_str(raw);
    let cmd = if t.as_str().is_empty() {
        AgentCommand::Empty
    } else if is_text(t.as_str(), "--help") || is_text(t.as_str(), "-h") {
        AgentCommand::Help
    } else if is_text(t.as_str(), "--tools") || is_text(t.as_str(), "-t") {
        AgentCommand::Tools
    } else if is_text(t.as_str(), "--clear") || is_text(t.as_str(), "-c") {
        AgentCommand::Clear
    } else {
        AgentCommand::Task
    };
    (cmd, t)
}

/// The reply to an `^agent` invocation without a task.
pub fn agent_usage() -> (m: String)
    ensures
        m@ == "Please provide a task! Usage: `^agent <your task>` or `^agent --help` for options"@,
{
    String::from_str("Please provide a task! Usage: `^agent <your task>` or `^agent --help` for options")
}

/// The help text of the agent command.
pub fn agent_help_text() -> (m: String)
    ensures
        m@ == "🤖 **Agent Command Help**\n\n**Basic Usage:**\n- `^agent <task>` - Execute a complex task with function calling\n- `^agent --tools` - List available tools\n- `^agent --clear` - Clear agent memory\n- `^agent --help` - Show this help\n\n**Examples:**\n- `^agent \"Calculate the factorial of 10\"`\n- `^agent \"Convert this text to uppercase: hello world\"`\n- `^agent \"Analyze this data: [1, 2, 3, 4, 5]\"`\n- `^agent \"Write a function to find the largest number in an array\"`\n\n**Available Tools:**\n- 🧮 **Mathematical Calculations** - Complex math operations\n- 📝 **Text Processing** - String manipulation, case conversion, word counting, etc.\n- 📊 **Data Analysis** - Array statistics, structure analysis, data validation\n- 💻 **JavaScript Execution** - Custom code execution\n\n**Features:**\n- 🤖 **Intelligent Function Calling** - Automatic tool selection\n- 🛠️ **JavaScript Sandbox** - Safe code execution\n- 🧠 **Context Carryover** - Remembers previous conversations for modifications\n- ⚡ **Real-time Execution** - Live progress updates\n- 🔄 **Error Recovery** - Robust error handling\n- 📋 **Ready-to-Use Code** - Tested code always included in responses\n\n*This agent uses LM Studio's js-code-sandbox tool for safe JavaScript execution.*"@,
{
    String::from_str("🤖 **Agent Command Help**\n\n**Basic Usage:**\n- `^agent <task>` - Execute a complex task with function calling\n- `^agent --tools` - List available tools\n- `^agent --clear` - Clear agent memory\n- `^agent --help` - Show this help\n\n**Examples:**\n- `^agent \"Calculate the factorial of 10\"`\n- `^agent \"Convert this text to uppercase: hello world\"`\n- `^agent \"Analyze this data: [1, 2, 3, 4, 5]\"`\n- `^agent \"Write a function to find the largest number in an array\"`\n\n**Available Tools:**\n- 🧮 **Mathematical Calculations** - Complex math operations\n- 📝 **Text Processing** - String manipulation, case conversion, word counting, etc.\n- 📊 **Data Analysis** - Array statistics, structure analysis, data validation\n- 💻 **JavaScript Execution** - Custom code execution\n\n**Features:**\n- 🤖 **Intelligent Function Calling** - Automatic tool selection\n- 🛠️ **JavaScript Sandbox** - Safe code execution\n- 🧠 **Context Carryover** - Remembers previous conversations for modifications\n- ⚡ **Real-time Execution** - Live progress updates\n- 🔄 **Error Recovery** - Robust error handling\n- 📋 **Ready-to-Use Code** - Tested code always included in responses\n\n*This agent uses LM Studio's js-code-sandbox tool for safe JavaScript execution.*")
}

/// The tool list shown by `^agent --tools`.
pub fn agent_tools_text() -> (m: String)
    ensures
        m@ == "🛠️ **Available Agent Tools**\n\n🧮 **Mathematical Calculations** - Complex math operations using JavaScript Math library\n📝 **Text Processing** - String manipulation, case conversion, word counting, etc.\n📊 **Data Analysis** - Array statistics, structure analysis, data validation\n💻 **JavaScript Execution** - Custom code execution in sandboxed environment"@,
{
    String::from_str(
        "🛠️ **Available Agent Tools**\n\n🧮 **Mathematical Calculations** - Complex math operations using JavaScript Math library\n📝 **Text Processing** - String manipulation, case conversion, word counting, etc.\n📊 **Data Analysis** - Array statistics, structure analysis, data validation\n💻 **JavaScript Execution** - Custom code execution in sandboxed environment",
    )
}

/// The reply after the agent's memory is cleared.
pub fn agent_memory_cleared() -> (m: String)
    ensures
        m@ == "🧹 **Agent Memory Cleared**\n\nYour agent conversation history has been reset. The next ^agent command will start fresh."@,
{
    String::from_str(
        "🧹 **Agent Memory Cleared**\n\nYour agent conversation history has been reset. The next ^agent command will start fresh.",
    )
}

/// The system prompt used when no `agent_prompt.txt` can be read.
pub fn create_agent_system_prompt() -> (p: String)
    ensures
        p@ == "You are an intelligent AI agent with access to JavaScript code execution capabilities. You can perform calculations, process text, analyze data, and execute custom JavaScript code to help users with their tasks.\n\n**Available Functions:**\n1. **execute_js_code** - Execute custom JavaScript code for any computational task\n2. **calculate_math** - Perform mathematical calculations and operations\n3. **process_text** - Process and manipulate text (uppercase, lowercase, reverse, count words, etc.)\n4. **analyze_data** - Analyze data structures, arrays, and objects\n\n**Guidelines:**\n- Always use function calling when you need to perform calculations, process data, or execute code\n- Provide clear explanations of what you're doing\n- Handle errors gracefully and provide helpful feedback\n- Be creative and helpful in solving user problems\n- When appropriate, combine multiple function calls to solve complex tasks\n\n**Example Usage:**\n- For math: Use calculate_math with mathematical expressions\n- For text processing: Use process_text with appropriate operations\n- For data analysis: Use analyze_data with data structures\n- For custom logic: Use execute_js_code with your own JavaScript code\n\nRemember: You have the power to execute JavaScript code safely in a sandboxed environment. Use this capability to help users solve their problems effectively."@,
{
    String::from_str("You are an intelligent AI agent with access to JavaScript code execution capabilities. You can perform calculations, process text, analyze data, and execute custom JavaScript code to help users with their tasks.\n\n**Available Functions:**\n1. **execute_js_code** - Execute custom JavaScript code for any computational task\n2. **calculate_math** - Perform mathematical calculations and operations\n3. **process_text** - Process and manipulate text (uppercase, lowercase, reverse, count words, etc.)\n4. **analyze_data** - Analyze data structures, arrays, and objects\n\n**Guidelines:**\n- Always use function calling when you need to perform calculations, process data, or execute code\n- Provide clear explanations of what you're doing\n- Handle errors gracefully and provide helpful feedback\n- Be creative and helpful in solving user problems\n- When appropriate, combine multiple function calls to solve complex tasks\n\n**Example Usage:**\n- For math: Use calculate_math with mathematical expressions\n- For text processing: Use process_text with appropriate operations\n- For data analysis: Use analyze_data with data structures\n- For custom logic: Use execute_js_code with your own JavaScript code\n\nRemember: You have the power to execute JavaScript code safely in a sandboxed environment. Use this capability to help users solve their problems effectively.")
}

/// The messages sent for a task: the system prompt, the remembered messages
/// other than system ones, and the task.
pub open spec fn task_messages_spec(prompt: Seq<char>, memory: Seq<ChatMessage>, task: Seq<char>) -> Seq<
    (Seq<char>, Seq<char>),
> {
    seq![("system"@, prompt)] + non_system(memory) + seq![("user"@, task)]
}

pub open spec fn non_system(ms: Seq<ChatMessage>) -> Seq<(Seq<char>, Seq<char>)>
    decreases ms.len(),
{
    if ms.len() == 0 {
        Seq::empty()
    } else {
        let r = non_system(ms.drop_last());
        if ms.last().role@ == "system"@ {
            r
        } else {
            r.push(message_view(ms.last()))
        }
    }
}

/// Builds the messages for a task.
pub fn task_messages(prompt: &str, memory: &Vec<ChatMessage>, task: &str) -> (ms: Vec<ChatMessage>)
    ensures
        message_views(ms@) == task_messages_spec(prompt@, memory@, task@),
{
    let mut ms: Vec<ChatMessage> = Vec::new();
    ms.push(ChatMessage { role: String::from_str("system"), content: String::from_str(prompt) });
    assert(message_views(ms@) =~= seq![("system"@, prompt@)]);
    let mut i: usize = 0;
    while i < memory.len()
        invariant
            i <= memory@.len(),
            message_views(ms@) == seq![("system"@, prompt@)] + non_system(memory@.take(i as int)),
        decreases memory@.len() - i,
    {
        assert(memory@.take(i + 1).drop_last() =~= memory@.take(i as int));
        let ghost before = message_views(ms@);
        if !is_text(memory[i].role.as_str(), "system") {
            ms.push(memory[i].duplicate());
            assert(message_views(ms@) =~= before.push(message_view(memory@[i as int])));
        }
        i = i + 1;
    }
    assert(memory@.take(memory@.len() as int) =~= memory@);
    let ghost before = message_views(ms@);
    ms.push(ChatMessage { role: String::from_str("user"), content: String::from_str(task) });
    assert(message_views(ms@) =~= before.push(("user"@, task@)));
    ms
}

/// A user's memory as it is saved: its last twenty messages.
pub fn saved_memory(messages: Vec<ChatMessage>) -> (r: Vec<ChatMessage>)
    ensures
        message_views(r@) == keep_last(message_views(messages@), AGENT_MEMORY as nat),
{
    let n = messages.len();
    if n <= AGENT_MEMORY {
        return messages;
    }
    let mut r: Vec<ChatMessage> = Vec::new();
    let mut i: usize = n - AGENT_MEMORY;
    let ghost all = message_views(messages@);
    assert(all.skip((n - AGENT_MEMORY) as int).take(0) =~= Seq::<(Seq<char>, Seq<char>)>::empty());
    while i < n
        invariant
            n == messages@.len(),
            n > AGENT_MEMORY,
            n - AGENT_MEMORY <= i <= n,
            all == message_views(messages@),
            message_views(r@) == all.subrange((n - AGENT_MEMORY) as int, i as int),
        decreases n - i,
    {
        let ghost before = message_views(r@);
        r.push(messages[i].duplicate());
        assert(message_views(r@) =~= before.push(all[i as int]));
        assert(all.subrange((n - AGENT_MEMORY) as int, i + 1) =~= all.subrange((n - AGENT_MEMORY) as int, i as int).push(all[i as int]));
        i = i + 1;
    }
    assert(all.subrange((n - AGENT_MEMORY) as int, n as int) =~= all.skip(all.len() - AGENT_MEMORY));
    r
}

/// The header of an agent response file.
pub fn agent_response_header(user_name: &str, user_id: u64, task: &str, timestamp: &str) -> (r: String)
    ensures
        r@ == "🤖 **AI Agent Response**\nUser: "@ + user_name@ + " ("@ + decimal(user_id as nat) + ")\nTask: "@ + task@
            + "\nTimestamp: "@ + timestamp@ + "\n\n"@,
{
    let mut out = to_chars("🤖 **AI Agent Response**\nUser: ");
    push_str(&mut out, user_name);
    push_str(&mut out, " (");
    let d = decimal_chars(user_id as u128);
    push_all(&mut out, d.as_slice());
    push_str(&mut out, ")\nTask: ");
    push_str(&mut out, task);
    push_str(&mut out, "\nTimestamp: ");
    push_str(&mut out, timestamp);
    push_str(&mut out, "\n\n");
    from_chars(out.as_slice())
}

/// One line of the response file, stamped with the time of writing.
pub fn timestamped_line(time: &str, content: &str) -> (r: String)
    ensures
        r@ == "["@ + time@ + "] "@ + content@ + "\n"@,
{
    let mut out = to_chars("[");
    push_str(&mut out, time);
    push_str(&mut out, "] ");
    push_str(&mut out, content);
    push_str(&mut out, "\n");
    from_chars(out.as_slice())
}

/// The text of the reasoning-progress message for a step.
pub fn thinking_step_text(time: &str, step: &str) -> (r: String)
    ensures
        r@ == "🧠 **Agent Reasoning Process**\n\n**Step "@ + time@ + ":** "@ + step@
            + "\n\n*This message will be updated with more reasoning steps and then deleted when complete.*"@,
{
    let mut out = to_chars("🧠 **Agent Reasoning Process**\n\n**Step ");
    push_str(&mut out, time);
    push_str(&mut out, ":** ");
    push_str(&mut out, step);
    push_str(&mut out, "\n\n*This message will be updated with more reasoning steps and then deleted when complete.*");
    from_chars(out.as_slice())
}

/// The summary of a finished task: the first 500 bytes of the result and
/// `...` when it is longer (`None` when the cut would split a character).
pub open spec fn task_summary(result: Seq<char>) -> Option<Seq<char>> {
    if utf8_len(result) > 500 {
        if crate::text::byte_boundary(result, 500) {
            Some(crate::text::byte_prefix(result, 500) + "..."@)
        } else {
            None
        }
    } else {
        Some(result)
    }
}

/// The messages that announce a finished task: the one posted with the
/// response file, and the one posted when the upload fails.
pub fn task_complete_messages(result: &str) -> (r: Option<(String, String)>)
    ensures
        match r {
            Some((a, b)) => task_summary(result@) matches Some(s) && a@
                == "✅ **Agent Task Complete**\n\n**Summary:**\n"@ + s
                + "\n\n📎 **Full Response:** See attached file\n\n📝 **Context Saved** - Your conversation history is preserved for future ^agent commands."@
                && b@ == "✅ **Agent Task Complete**\n\n"@ + s + "\n\n📝 **Context Saved**"@,
            None => task_summary(result@) is None,
        },
{
    let c = to_chars(result);
    let summary: Vec<char> = if utf8_len_of(c.as_slice()) > 500 {
        if !crate::text::has_byte_boundary(c.as_slice(), 500) {
            return None;
        }
        let mut p = crate::text::prefix_bytes(c.as_slice(), 500);
        push_str(&mut p, "...");
        p
    } else {
        c
    };
    let mut a = to_chars("✅ **Agent Task Complete**\n\n**Summary:**\n");
    push_all(&mut a, summary.as_slice());
    push_str(&mut a, "\n\n📎 **Full Response:** See attached file\n\n📝 **Context Saved** - Your conversation history is preserved for future ^agent commands.");
    let mut b = to_chars("✅ **Agent Task Complete**\n\n");
    push_all(&mut b, summary.as_slice());
    push_str(&mut b, "\n\n📝 **Context Saved**");
    Some((from_chars(a.as_slice()), from_chars(b.as_slice())))
}

/// The answer gathered from the final stream; refused when blank.
pub fn final_answer(buffer: &str) -> (r: Result<String, String>)
    ensures
        match r {
            Ok(a) => trim(buffer@).len() > 0 && a@ == buffer@,
            Err(e) => trim(buffer@).len() == 0 && e@ == "No content received from stream"@,
        },
{
    let c = to_chars(buffer);
    if crate::text::trim_chars(c.as_slice()).len() == 0 {
        Err(String::from_str("No content received from stream"))
    } else {
        Ok(String::from_str(buffer))
    }
}

/// The error when a model request was refused, for the function-calling
/// request (`final_stage` false) or the final answer.
pub fn model_request_error(final_stage: bool, status: &str, body: &str) -> (r: String)
    ensures
        r@ == (if final_stage {
            "Final response failed: HTTP "@
        } else {
            "Function calling failed: HTTP "@
        }) + status@ + " - "@ + body@,
{
    let mut out = if final_stage {
        to_chars("Final response failed: HTTP ")
    } else {
        to_chars("Function calling failed: HTTP ")
    };
    push_str(&mut out, status);
    push_str(&mut out, " - ");
    push_str(&mut out, body);
    from_chars(out.as_slice())
}

/// What the agent reports along the way.
#[derive(PartialEq, Eq, Structural, Clone, Copy, Debug)]
pub enum AgentNotice {
    ConfigFailed,
    FileFailed,
    Processing,
    StartFailed,
    TaskFailed,
    ReadFailed,
    Uploaded,
    RequestTimedOut,
}

/// The text of a notice.
pub open spec fn agent_notice_spec(n: AgentNotice) -> Seq<char> {
    match n {
        AgentNotice::ConfigFailed => "❌ Failed to load agent configuration"@,
        AgentNotice::FileFailed => "❌ Failed to create response file"@,
        AgentNotice::Processing => "🤖 **AI Agent Processing...**\n\n📝 Streaming response to file...\n⏳ This may take a moment..."@,
        AgentNotice::StartFailed => "Failed to start agent execution!"@,
        AgentNotice::TaskFailed => "❌ Task failed. Check the uploaded file for details."@,
        AgentNotice::ReadFailed => "❌ Failed to read response file"@,
        AgentNotice::Uploaded => "✅ **Agent Task Complete** - Response file uploaded successfully!"@,
        AgentNotice::RequestTimedOut => "HTTP request timed out"@,
    }
}

/// Writes a notice.
pub fn agent_notice_text(n: AgentNotice) -> (m: String)
    ensures
        m@ == agent_notice_spec(n),
{
    match n {
        AgentNotice::ConfigFailed => String::from_str("❌ Failed to load agent configuration"),
        AgentNotice::FileFailed => String::from_str("❌ Failed to create response file"),
        AgentNotice::Processing => String::from_str("🤖 **AI Agent Processing...**\n\n📝 Streaming response to file...\n⏳ This may take a moment..."),
        AgentNotice::StartFailed => String::from_str("Failed to start agent execution!"),
        AgentNotice::TaskFailed => String::from_str("❌ Task failed. Check the uploaded file for details."),
        AgentNotice::ReadFailed => String::from_str("❌ Failed to read response file"),
        AgentNotice::Uploaded => String::from_str("✅ **Agent Task Complete** - Response file uploaded successfully!"),
        AgentNotice::RequestTimedOut => String::from_str("HTTP request timed out"),
    }
}

/// The arguments a collected tool call runs with: none given count as an
/// empty object; JSON that parsed is used as read; unreadable arguments of
/// the JavaScript tool become its code; other unreadable calls are dropped.
pub fn tool_call_arguments(name: &str, args: &str, parsed: Option<ToolArguments>) -> (r: Option<ToolArguments>)
    ensures
        args@.len() == 0 ==> (r matches Some(a) && a.is_object && a.code is None && a.expression is None
            && a.text is None && a.operation is None && a.data is None && a.analysis_type is None
            && a.description is None),
        args@.len() > 0 && parsed is Some ==> r == parsed,
        args@.len() > 0 && parsed is None ==> (if name@ == "execute_js_code"@ {
            r matches Some(a) && a.is_object && opt_view(a.code) == Some(args@) && a.expression is None
                && a.text is None && a.operation is None && a.data is None && a.analysis_type is None
                && opt_view(a.description) == Some("JavaScript code execution (fallback parsing)"@)
        } else {
            r is None
        }),
{
    if args.is_empty() {
        return Some(ToolArguments {
            is_object: true,
            code: None,
            expression: None,
            text: None,
            operation: None,
            data: None,
            analysis_type: None,
            description: None,
        });
    }
    match parsed {
        Some(a) => Some(a),
        None => {
            if is_text(name, "execute_js_code") {
                Some(ToolArguments {
                    is_object: true,
                    code: Some(String::from_str(args)),
                    expression: None,
                    text: None,
                    operation: None,
                    data: None,
                    analysis_type: None,
                    description: Some(String::from_str("JavaScript code execution (fallback parsing)")),
                })
            } else {
                None
            }
        },
    }
}

/// A line of the agent's response file.
pub enum AgentLog {
    Connecting,
    Sending,
    PreparingFunctions,
    RequestingFunctions,
    StreamComplete,
    Executing,
    ProcessingResults,
    NoFunctionCalls,
    Analyzing,
    AnalysisComplete,
    NoContent,
    FinalDone,
    TaskDone,
    FinalResult,
    /// A progress segment of a call's arguments was written out; its length.
    FunctionSegment(u128),
    /// A segment of the stream was written out; its length.
    StreamSegment(u128),
    /// The calls' arguments are complete; the buffer's length.
    ArgumentsComplete(u128),
    /// A segment of the final analysis was written out; its length.
    AnalysisSegment(u128),
    /// The task failed; the error.
    Failed(String),
}

pub open spec fn agent_log_spec(l: AgentLog) -> Seq<char> {
    match l {
        AgentLog::Connecting => "🔄 Connecting to AI model and preparing request"@,
        AgentLog::Sending => "🔄 Sending request to AI model and waiting for response..."@,
        AgentLog::PreparingFunctions => "Analyzing task and preparing function definitions"@,
        AgentLog::RequestingFunctions => "Sending request to AI model for function calling"@,
        AgentLog::StreamComplete => "🔄 Stream complete, processing results..."@,
        AgentLog::Executing => "🔄 Executing functions..."@,
        AgentLog::ProcessingResults => "🔄 Processing function results and generating final response..."@,
        AgentLog::NoFunctionCalls => "✅ No function calls needed, returning text response"@,
        AgentLog::Analyzing => "🤖 AI is analyzing function results and preparing final answer..."@,
        AgentLog::AnalysisComplete => "🤖 AI Analysis Complete"@,
        AgentLog::NoContent => "❌ Error: No content received from stream"@,
        AgentLog::FinalDone => "✅ Final response generation complete"@,
        AgentLog::TaskDone => "✅ Task completed successfully! Preparing final response..."@,
        AgentLog::FinalResult => "=== FINAL RESULT ==="@,
        AgentLog::FunctionSegment(n) => "🔄 Function Progress - Segment Complete ("@ + decimal(n as nat) + " chars)"@,
        AgentLog::StreamSegment(n) => "🔄 Stream Segment Complete ("@ + decimal(n as nat) + " chars)"@,
        AgentLog::ArgumentsComplete(n) => "✅ Function Arguments Complete ("@ + decimal(n as nat) + " chars)"@,
        AgentLog::AnalysisSegment(n) => "🤖 AI Analysis Segment ("@ + decimal(n as nat) + " chars)"@,
        AgentLog::Failed(e) => "❌ Error: "@ + e@,
    }
}

fn counted(head: &str, n: u128) -> (m: String)
    ensures
        m@ == head@ + decimal(n as nat) + " chars)"@,
{
    let mut out = to_chars(head);
    let d = decimal_chars(n);
    push_all(&mut out, d.as_slice());
    push_str(&mut out, " chars)");
    from_chars(out.as_slice())
}

/// Writes a line of the response file (without its time stamp).
pub fn agent_log_text(l: &AgentLog) -> (m: String)
    ensures
        m@ == agent_log_spec(*l),
{
    match l {
        AgentLog::Connecting => String::from_str("🔄 Connecting to AI model and preparing request"),
        AgentLog::Sending => String::from_str("🔄 Sending request to AI model and waiting for response..."),
        AgentLog::PreparingFunctions => String::from_str("Analyzing task and preparing function definitions"),
        AgentLog::RequestingFunctions => String::from_str("Sending request to AI model for function calling"),
        AgentLog::StreamComplete => String::from_str("🔄 Stream complete, processing results..."),
        AgentLog::Executing => String::from_str("🔄 Executing functions..."),
        AgentLog::ProcessingResults => String::from_str("🔄 Processing function results and generating final response..."),
        AgentLog::NoFunctionCalls => String::from_str("✅ No function calls needed, returning text response"),
        AgentLog::Analyzing => String::from_str("🤖 AI is analyzing function results and preparing final answer..."),
        AgentLog::AnalysisComplete => String::from_str("🤖 AI Analysis Complete"),
        AgentLog::NoContent => String::from_str("❌ Error: No content received from stream"),
        AgentLog::FinalDone => String::from_str("✅ Final response generation complete"),
        AgentLog::TaskDone => String::from_str("✅ Task completed successfully! Preparing final response..."),
        AgentLog::FinalResult => String::from_str("=== FINAL RESULT ==="),
        AgentLog::FunctionSegment(n) => counted("🔄 Function Progress - Segment Complete (", *n),
        AgentLog::StreamSegment(n) => counted("🔄 Stream Segment Complete (", *n),
        AgentLog::ArgumentsComplete(n) => counted("✅ Function Arguments Complete (", *n),
        AgentLog::AnalysisSegment(n) => counted("🤖 AI Analysis Segment (", *n),
        AgentLog::Failed(e) => crate::text::concat_str("❌ Error: ", e.as_str()),
    }
}

/// The messages that ask for the final answer: the task's messages, the
/// streamed text as the assistant's turn unless it is blank, one tool
/// message per result, and the request for the answer.
pub open spec fn answer_messages_spec(
    messages: Seq<(Seq<char>, Seq<char>)>,
    streamed: Seq<char>,
    results: Seq<Seq<char>>,
) -> Seq<(Seq<char>, Seq<char>)> {
    let with_text = if trim(streamed).len() == 0 {
        messages
    } else {
        messages.push(("assistant"@, streamed))
    };
    with_text + Seq::new(results.len(), |i: int| ("tool"@, "Function execution result "@ + decimal((i + 1) as nat) + ": "@ + results[i]))
        + seq![("user"@, "Please analyze the function results above and provide a comprehensive final answer. If there were any errors, explain what went wrong and suggest fixes."@)]
}

/// Builds the messages that ask for the final answer.
pub fn answer_messages(messages: &Vec<ChatMessage>, streamed: &str, results: &Vec<String>) -> (r: Vec<ChatMessage>)
    requires
        results@.len() < usize::MAX,
    ensures
        message_views(r@) == answer_messages_spec(message_views(messages@), streamed@, views(results@)),
{
    let mut out: Vec<ChatMessage> = Vec::new();
    let mut i: usize = 0;
    while i < messages.len()
        invariant
            i <= messages@.len(),
            message_views(out@) == message_views(messages@).take(i as int),
        decreases messages@.len() - i,
    {
        let d = messages[i].duplicate();
        let ghost before = message_views(out@);
        assert(message_view(d) == message_views(messages@)[i as int]);
        out.push(d);
        assert(message_views(out@) =~= before.push(message_view(d)));
        assert(message_views(out@) =~= message_views(messages@).take(i as int + 1));
        i = i + 1;
    }
    assert(message_views(messages@).take(messages@.len() as int) =~= message_views(messages@));
    let sc = to_chars(streamed);
    if crate::text::trim_chars(sc.as_slice()).len() > 0 {
        let ghost before = message_views(out@);
        out.push(ChatMessage { role: String::from_str("assistant"), content: String::from_str(streamed) });
        assert(message_views(out@) =~= before.push(("assistant"@, streamed@)));
    }
    let ghost base = message_views(out@);
    let mut k: usize = 0;
    while k < results.len()
        invariant
            k <= results@.len(),
            results@.len() < usize::MAX,
            message_views(out@) == base + Seq::new(k as nat, |j: int| ("tool"@, "Function execution result "@ + decimal((j + 1) as nat) + ": "@ + views(results@)[j])),
        decreases results@.len() - k,
    {
        let m = tool_result_message(k, results[k].as_str());
        let ghost before = message_views(out@);
        out.push(m);
        assert(message_views(out@) =~= before.push(message_view(m)));
        assert(base + Seq::new((k + 1) as nat, |j: int| ("tool"@, "Function execution result "@ + decimal((j + 1) as nat) + ": "@ + views(results@)[j]))
            =~= (base + Seq::new(k as nat, |j: int| ("tool"@, "Function execution result "@ + decimal((j + 1) as nat) + ": "@ + views(results@)[j]))).push(message_view(m)));
        k = k + 1;
    }
    let ghost before = message_views(out@);
    let f = final_answer_request();
    out.push(f);
    assert(message_views(out@) =~= before.push(message_view(f)));
    out
}

} // verus!
