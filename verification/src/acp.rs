//! The inline-generation side of the ACP client: the prompts a turn sends,
//! what a turn's output must look like, and what each message from the agent
//! calls for. Running the agent process and exchanging JSON lines with it is
//! the caller's part.

use vstd::prelude::*;
use vstd::utf8::encode_utf8;

use crate::cache::{MAX_BYTES, MAX_LINES};
use crate::models::reasoning_effort_config_arg;
use crate::scratch::{fence_stripped, strip_fence};
use crate::json::{json_parses, json_quote, json_str_at, json_u64_at, json_value_at, parses, quote, str_at, u64_at, value_at};
use crate::text::{chars_of, decimal, decimal_string, lines, lines_of, opt_chars, owned, str_eq, trim, trim_str};

verus! {

/// Reasoning effort used for anchor generation turns.
pub const ANCHOR_REASONING_EFFORT: &'static str = "high";

/// Reasoning effort used for inline turns when none is given.
pub const INLINE_REASONING_EFFORT: &'static str = "low";

/// How long a turn may run by default, in milliseconds.
pub const DEFAULT_GENERATION_TIMEOUT_MILLIS: u64 = 120000;

/// Input context supplied to one ACP generation turn.
pub struct GenerationContext<'a> {
    /// Saved source file for workspace selection.
    pub file: &'a str,
    /// Language identifier shown to the model.
    pub language: &'a str,
    /// Machine-readable marker kind.
    pub anchor_kind: &'a str,
    /// Source text of the marker.
    pub anchor_text: &'a str,
    /// Enclosing region supplied as the only code context.
    pub region_text: &'a str,
}

/// Input context supplied to an ephemeral freeform inline generation turn.
pub struct InlineContext<'a> {
    /// Source file used to choose the ACP workspace.
    pub file: &'a str,
    /// Language identifier shown to the model.
    pub language: &'a str,
    /// User instruction for the insertion.
    pub prompt: &'a str,
    /// Bounded source context containing `<HARNESSD_CURSOR>`.
    pub cursor_context: &'a str,
}

/// The prompt of an anchor generation turn.
pub open spec fn generation_prompt_spec(
    language: Seq<char>,
    kind: Seq<char>,
    anchor: Seq<char>,
    region: Seq<char>,
) -> Seq<char> {
    "Generate inline completion insertion text for this "@ + language + " anchor.\nAnchor kind: "@
        + kind + "\nAnchor text: "@ + anchor + "\n\nEnclosing function/region context only:\n"@
        + region
        + "\n\nReturn only code suitable for insertion at the cursor. Do not return markdown fences, explanations, diffs, or file edits. Do not execute tools or read other files."@
}

/// The prompt of an anchor generation turn.
pub fn generation_prompt(context: &GenerationContext) -> (r: String)
    ensures
        r@ == generation_prompt_spec(
            context.language@,
            context.anchor_kind@,
            context.anchor_text@,
            context.region_text@,
        ),
{
    let mut r = owned("Generate inline completion insertion text for this ");
    r.push_str(context.language);
    r.push_str(" anchor.\nAnchor kind: ");
    r.push_str(context.anchor_kind);
    r.push_str("\nAnchor text: ");
    r.push_str(context.anchor_text);
    r.push_str("\n\nEnclosing function/region context only:\n");
    r.push_str(context.region_text);
    r.push_str(
        "\n\nReturn only code suitable for insertion at the cursor. Do not return markdown fences, explanations, diffs, or file edits. Do not execute tools or read other files.",
    );
    r
}

/// The prompt of an inline turn.
pub open spec fn inline_prompt_spec(language: Seq<char>, prompt: Seq<char>, source: Seq<char>) -> Seq<char> {
    "Generate insertion text at <HARNESSD_CURSOR> for this "@ + language
        + " source file.\nUser request: "@ + prompt + "\n\nBounded source context:\n"@ + source
        + "\n\nReturn only text suitable for insertion at the cursor. Do not return markdown fences, explanations, diffs, or file edits. Prefer the smallest valid insertion; for completion requests, return one line unless correctness requires more. Do not execute tools or read other files."@
}

/// The prompt of an inline turn.
pub fn inline_prompt(context: &InlineContext) -> (r: String)
    ensures
        r@ == inline_prompt_spec(context.language@, context.prompt@, context.cursor_context@),
{
    let mut r = owned("Generate insertion text at <HARNESSD_CURSOR> for this ");
    r.push_str(context.language);
    r.push_str(" source file.\nUser request: ");
    r.push_str(context.prompt);
    r.push_str("\n\nBounded source context:\n");
    r.push_str(context.cursor_context);
    r.push_str(
        "\n\nReturn only text suitable for insertion at the cursor. Do not return markdown fences, explanations, diffs, or file edits. Prefer the smallest valid insertion; for completion requests, return one line unless correctness requires more. Do not execute tools or read other files.",
    );
    r
}

/// The `-c` override that sets the agent's reasoning effort.
pub fn reasoning_config_arg(effort: &str) -> (r: String)
    ensures
        r@ == "model_reasoning_effort=\""@ + effort@ + "\""@,
{
    reasoning_effort_config_arg(effort)
}

/// What identifies a reusable inline session: its workspace, reasoning
/// effort and model.
#[derive(Debug, Clone, PartialEq, Eq, Hash)]
pub struct ReusableSessionKey {
    /// Workspace directory of the session.
    pub cwd: String,
    /// Reasoning effort the session was started with.
    pub reasoning_effort: String,
    /// Model override the session was started with.
    pub model: Option<String>,
}

impl ReusableSessionKey {
    /// The key of a session in `cwd` with the given effort and model.
    pub fn new(cwd: &str, reasoning_effort: &str, model: Option<&str>) -> (k: Self)
        ensures
            k.cwd@ == cwd@,
            k.reasoning_effort@ == reasoning_effort@,
            opt_chars(k.model) == (match model {
                Some(m) => Some(m@),
                None => None,
            }),
    {
        ReusableSessionKey {
            cwd: owned(cwd),
            reasoning_effort: owned(reasoning_effort),
            model: match model {
                Some(m) => Some(owned(m)),
                None => None,
            },
        }
    }
}

/// Why an ACP turn's output or exchange was refused.
#[derive(Debug, Clone, PartialEq, Eq)]
pub enum AcpError {
    /// The output is empty after unwrapping.
    EmptySuggestion,
    /// The output has more than `MAX_LINES` lines; the count it has.
    TooManyLines(usize),
    /// The output has more than `MAX_BYTES` bytes; the count it has.
    TooManyBytes(usize),
}

impl AcpError {
    /// The message shown to a user for this error.
    pub fn message(&self) -> (r: String)
        ensures
            r@ == (match self {
                AcpError::EmptySuggestion => "ACP generated an empty suggestion"@,
                AcpError::TooManyLines(n) => "generated suggestion exceeds max lines ("@ + decimal(*n as nat)
                    + " > 20)"@,
                AcpError::TooManyBytes(n) => "generated suggestion exceeds max bytes ("@ + decimal(*n as nat)
                    + " > 2048)"@,
            }),
    {
        match self {
            AcpError::EmptySuggestion => owned("ACP generated an empty suggestion"),
            AcpError::TooManyLines(n) => {
                let mut m = owned("generated suggestion exceeds max lines (");
                m.push_str(decimal_string(*n as u64).as_str());
                m.push_str(" > 20)");
                m
            },
            AcpError::TooManyBytes(n) => {
                let mut m = owned("generated suggestion exceeds max bytes (");
                m.push_str(decimal_string(*n as u64).as_str());
                m.push_str(" > 2048)");
                m
            },
        }
    }
}

/// What normalizing a turn's output gives: the output trimmed and unwrapped
/// from one code fence, refused when empty, over `MAX_LINES` lines or over
/// `MAX_BYTES` bytes.
pub open spec fn output_outcome(output: Seq<char>) -> Result<Seq<char>, AcpError> {
    let s = fence_stripped(output);
    if s.len() == 0 {
        Err(AcpError::EmptySuggestion)
    } else if lines(s).len() > MAX_LINES {
        Err(AcpError::TooManyLines(lines(s).len() as usize))
    } else if encode_utf8(s).len() > MAX_BYTES {
        Err(AcpError::TooManyBytes(encode_utf8(s).len() as usize))
    } else {
        Ok(s)
    }
}

/// Remove one accidental code fence and enforce the autocomplete bounds.
pub fn normalize_output(output: String) -> (r: Result<String, AcpError>)
    ensures
        (match r {
            Ok(s) => output_outcome(output@) == Ok::<Seq<char>, AcpError>(s@),
            Err(e) => output_outcome(output@) == Err::<Seq<char>, AcpError>(e),
        }),
{
    let snippet = strip_fence(output.as_str());
    if snippet.as_str().is_empty() {
        return Err(AcpError::EmptySuggestion);
    }
    let cs = chars_of(snippet.as_str());
    let ls = lines_of(cs.as_slice());
    assert(crate::text::views(ls@).len() == ls@.len());
    if ls.len() > MAX_LINES {
        return Err(AcpError::TooManyLines(ls.len()));
    }
    if snippet.as_str().as_bytes().len() > MAX_BYTES {
        return Err(AcpError::TooManyBytes(snippet.as_str().as_bytes().len()));
    }
    Ok(snippet)
}

/// The fields of one JSON-RPC line from the agent that decide what it calls for.
#[derive(Debug, Clone)]
pub struct AcpMessage {
    /// The `method`, when the line is a request or notification.
    pub method: Option<String>,
    /// The line's `id` as JSON text, when it has one.
    pub id: Option<String>,
    /// Whether the line's `id` is the one the turn waits for.
    pub id_is_expected: bool,
    /// `params.update.sessionUpdate` of a session update.
    pub session_update: Option<String>,
    /// `params.update.content.type` of a session update.
    pub content_type: Option<String>,
    /// `params.update.content.text` of a session update.
    pub text: Option<String>,
    /// `params.update.kind` of a tool call update.
    pub tool_kind: Option<String>,
    /// The `error` of a response, as JSON text.
    pub error: Option<String>,
}

/// What a line from the agent calls for while a turn waits for its response.
#[derive(Debug, Clone, PartialEq, Eq)]
pub enum AcpStep {
    /// Append this text of an agent message chunk to the output.
    AppendText(String),
    /// Ignore the line and read the next one.
    Skip,
    /// Stop: the agent tried to edit, delete, move or execute.
    DisallowedTool,
    /// Answer the permission request as cancelled, then stop: the agent
    /// asked for a client operation.
    CancelPermission(String),
    /// Answer that no tools are provided, then stop: the agent asked for
    /// this client operation.
    RefuseRequest(String),
    /// Stop: the awaited request failed with this error.
    Failed(String),
    /// The awaited response arrived.
    Done,
}

/// What a line from the agent holds, as text.
pub struct AcpMessageView {
    /// `method`.
    pub method: Option<Seq<char>>,
    /// `id`, as JSON text.
    pub id: Option<Seq<char>>,
    /// Whether `id` is the awaited request's.
    pub id_is_expected: bool,
    /// `params.update.sessionUpdate`.
    pub session_update: Option<Seq<char>>,
    /// `params.update.content.type`.
    pub content_type: Option<Seq<char>>,
    /// `params.update.content.text`.
    pub text: Option<Seq<char>>,
    /// `params.update.kind`.
    pub tool_kind: Option<Seq<char>>,
    /// `error`, as JSON text.
    pub error: Option<Seq<char>>,
}

impl View for AcpMessage {
    type V = AcpMessageView;

    open spec fn view(&self) -> AcpMessageView {
        AcpMessageView {
            method: opt_chars(self.method),
            id: opt_chars(self.id),
            id_is_expected: self.id_is_expected,
            session_update: opt_chars(self.session_update),
            content_type: opt_chars(self.content_type),
            text: opt_chars(self.text),
            tool_kind: opt_chars(self.tool_kind),
            error: opt_chars(self.error),
        }
    }
}

/// What a step calls for, as text.
pub enum StepView {
    /// Append this text.
    AppendText(Seq<char>),
    /// Read the next line.
    Skip,
    /// Stop on a writing tool call.
    DisallowedTool,
    /// Cancel this permission request, then stop.
    CancelPermission(Seq<char>),
    /// Refuse this request, then stop.
    RefuseRequest(Seq<char>),
    /// Stop on this error.
    Failed(Seq<char>),
    /// The awaited response arrived.
    Done,
}

impl View for AcpStep {
    type V = StepView;

    open spec fn view(&self) -> StepView {
        match self {
            AcpStep::AppendText(t) => StepView::AppendText(t@),
            AcpStep::Skip => StepView::Skip,
            AcpStep::DisallowedTool => StepView::DisallowedTool,
            AcpStep::CancelPermission(m) => StepView::CancelPermission(m@),
            AcpStep::RefuseRequest(m) => StepView::RefuseRequest(m@),
            AcpStep::Failed(e) => StepView::Failed(e@),
            AcpStep::Done => StepView::Done,
        }
    }
}

/// Whether a tool kind writes or runs something.
pub open spec fn is_disallowed_tool(kind: Option<Seq<char>>) -> bool {
    kind == Some("edit"@) || kind == Some("delete"@) || kind == Some("move"@) || kind == Some(
        "execute"@,
    )
}

/// What a line calls for: session updates add agent text (when output is
/// being collected) or stop on a writing tool call; other requests from the
/// agent are answered and stop the turn; notifications are skipped; the
/// awaited response ends the turn, with its error when it has one.
pub open spec fn step_for(m: AcpMessageView, collecting: bool) -> StepView {
    if m.method == Some("session/update"@) {
        if collecting && m.session_update == Some("agent_message_chunk"@) && m.content_type == Some(
            "text"@,
        ) && m.text is Some {
            StepView::AppendText(m.text->0)
        } else if collecting && m.session_update == Some("tool_call"@) && is_disallowed_tool(
            m.tool_kind,
        ) {
            StepView::DisallowedTool
        } else {
            StepView::Skip
        }
    } else if m.method is Some {
        if m.id is Some {
            if m.method->0 == "session/request_permission"@ {
                StepView::CancelPermission(m.method->0)
            } else {
                StepView::RefuseRequest(m.method->0)
            }
        } else {
            StepView::Skip
        }
    } else if m.id_is_expected {
        match m.error {
            Some(e) => StepView::Failed(e),
            None => StepView::Done,
        }
    } else {
        StepView::Skip
    }
}

/// Whether an optional string spells `lit`.
fn opt_is(o: &Option<String>, lit: &str) -> (b: bool)
    ensures
        b == (opt_chars(*o) == Some(lit@)),
{
    match o {
        Some(s) => str_eq(s.as_str(), lit),
        None => false,
    }
}

/// What a line from the agent calls for.
pub fn classify_message(m: &AcpMessage, collecting: bool) -> (r: AcpStep)
    ensures
        r@ == step_for(m@, collecting),
{
    if opt_is(&m.method, "session/update") {
        if collecting && opt_is(&m.session_update, "agent_message_chunk") && opt_is(
            &m.content_type,
            "text",
        ) && m.text.is_some() {
            return match &m.text {
                Some(t) => AcpStep::AppendText(t.clone()),
                None => AcpStep::Skip,
            };
        }
        if collecting && opt_is(&m.session_update, "tool_call") && (opt_is(&m.tool_kind, "edit")
            || opt_is(&m.tool_kind, "delete") || opt_is(&m.tool_kind, "move") || opt_is(
            &m.tool_kind,
            "execute",
        )) {
            return AcpStep::DisallowedTool;
        }
        return AcpStep::Skip;
    }
    match &m.method {
        Some(method) => {
            if m.id.is_some() {
                if str_eq(method.as_str(), "session/request_permission") {
                    AcpStep::CancelPermission(method.clone())
                } else {
                    AcpStep::RefuseRequest(method.clone())
                }
            } else {
                AcpStep::Skip
            }
        },
        None => {
            if m.id_is_expected {
                match &m.error {
                    Some(e) => AcpStep::Failed(e.clone()),
                    None => AcpStep::Done,
                }
            } else {
                AcpStep::Skip
            }
        },
    }
}

/// The fields of a line from the agent, read from its JSON text `t`;
/// `expected_id` is the id of the request being waited for.
pub open spec fn message_view(t: Seq<char>, expected_id: u64) -> AcpMessageView {
    AcpMessageView {
        method: json_str_at(t, "/method"@),
        id: json_value_at(t, "/id"@),
        id_is_expected: json_u64_at(t, "/id"@) == Some(expected_id),
        session_update: json_str_at(t, "/params/update/sessionUpdate"@),
        content_type: json_str_at(t, "/params/update/content/type"@),
        text: json_str_at(t, "/params/update/content/text"@),
        tool_kind: json_str_at(t, "/params/update/kind"@),
        error: json_value_at(t, "/error"@),
    }
}

/// Read a line from the agent while request `expected_id` is awaited;
/// nothing when the line is not JSON, which ends the turn.
pub fn read_acp_message(line: &str, expected_id: u64) -> (r: Option<AcpMessage>)
    ensures
        (match r {
            None => !json_parses(trim(line@)),
            Some(m) => json_parses(trim(line@)) && m@ == message_view(trim(line@), expected_id),
        }),
{
    let t = trim_str(line);
    let t = t.as_str();
    if !parses(t) {
        return None;
    }
    let id_is_expected = match u64_at(t, "/id") {
        Some(id) => id == expected_id,
        None => false,
    };
    Some(
        AcpMessage {
            method: str_at(t, "/method"),
            id: value_at(t, "/id"),
            id_is_expected,
            session_update: str_at(t, "/params/update/sessionUpdate"),
            content_type: str_at(t, "/params/update/content/type"),
            text: str_at(t, "/params/update/content/text"),
            tool_kind: str_at(t, "/params/update/kind"),
            error: value_at(t, "/error"),
        },
    )
}

/// The `session/new` response's session id.
pub fn session_id_of(response: &str) -> (r: Option<String>)
    ensures
        opt_chars(r) == json_str_at(response@, "/result/sessionId"@),
{
    str_at(response, "/result/sessionId")
}

/// A JSON-RPC request line with `id`, `method` and the JSON `params`.
pub open spec fn request_text(id: u64, method: Seq<char>, params: Seq<char>) -> Seq<char> {
    "{\"jsonrpc\":\"2.0\",\"id\":"@ + decimal(id as nat) + ",\"method\":"@ + json_quote(method)
        + ",\"params\":"@ + params + "}"@
}

/// A JSON-RPC request line.
fn request(id: u64, method: &str, params: &str) -> (r: String)
    ensures
        r@ == request_text(id, method@, params@),
{
    let mut r = owned("{\"jsonrpc\":\"2.0\",\"id\":");
    r.push_str(decimal_string(id).as_str());
    r.push_str(",\"method\":");
    r.push_str(quote(method).as_str());
    r.push_str(",\"params\":");
    r.push_str(params);
    r.push_str("}");
    r
}

/// The parameters of the `initialize` request, announcing this client at
/// `version`.
pub open spec fn initialize_params(version: Seq<char>) -> Seq<char> {
    "{\"protocolVersion\":1,\"clientCapabilities\":{},\"clientInfo\":{\"name\":\"harnessd\",\"title\":\"harnessd inline completion\",\"version\":"@
        + json_quote(version) + "}}"@
}

/// The `initialize` request a turn opens with.
pub fn initialize_request(id: u64, version: &str) -> (r: String)
    ensures
        r@ == request_text(id, "initialize"@, initialize_params(version@)),
{
    let mut p = owned(
        "{\"protocolVersion\":1,\"clientCapabilities\":{},\"clientInfo\":{\"name\":\"harnessd\",\"title\":\"harnessd inline completion\",\"version\":",
    );
    p.push_str(quote(version).as_str());
    p.push_str("}}");
    request(id, "initialize", p.as_str())
}

/// The `session/new` request for a session in `cwd`, with no MCP servers.
pub fn session_new_request(id: u64, cwd: &str) -> (r: String)
    ensures
        r@ == request_text(id, "session/new"@, "{\"cwd\":"@ + json_quote(cwd@) + ",\"mcpServers\":[]}"@),
{
    let mut p = owned("{\"cwd\":");
    p.push_str(quote(cwd).as_str());
    p.push_str(",\"mcpServers\":[]}");
    request(id, "session/new", p.as_str())
}

/// The `session/prompt` request sending `prompt` as one text block.
pub fn session_prompt_request(id: u64, session_id: &str, prompt: &str) -> (r: String)
    ensures
        r@ == request_text(
            id,
            "session/prompt"@,
            "{\"sessionId\":"@ + json_quote(session_id@) + ",\"prompt\":[{\"type\":\"text\",\"text\":"@
                + json_quote(prompt@) + "}]}"@,
        ),
{
    let mut p = owned("{\"sessionId\":");
    p.push_str(quote(session_id).as_str());
    p.push_str(",\"prompt\":[{\"type\":\"text\",\"text\":");
    p.push_str(quote(prompt).as_str());
    p.push_str("}]}");
    request(id, "session/prompt", p.as_str())
}

/// The answer to an agent request with JSON id `id`: a cancelled outcome
/// for a permission request, else an error saying no tools are provided.
pub open spec fn reply_text(id: Seq<char>, permission: bool) -> Seq<char> {
    if permission {
        "{\"jsonrpc\":\"2.0\",\"id\":"@ + id + ",\"result\":{\"outcome\":{\"outcome\":\"cancelled\"}}}"@
    } else {
        "{\"jsonrpc\":\"2.0\",\"id\":"@ + id
            + ",\"error\":{\"code\":-32601,\"message\":\"harnessd does not provide tools during generation\"}}"@
    }
}

/// The answer to an agent's request for a client operation.
pub fn refusal_reply(id: &str, permission: bool) -> (r: String)
    ensures
        r@ == reply_text(id@, permission),
{
    let mut r = owned("{\"jsonrpc\":\"2.0\",\"id\":");
    r.push_str(id);
    if permission {
        r.push_str(",\"result\":{\"outcome\":{\"outcome\":\"cancelled\"}}}");
    } else {
        r.push_str(",\"error\":{\"code\":-32601,\"message\":\"harnessd does not provide tools during generation\"}}");
    }
    r
}

/// Where an ACP session's exchange stands.
#[derive(Debug, Clone, Copy, PartialEq, Eq, Structural)]
pub enum TurnPhase {
    /// Waiting for the answer to `initialize`.
    Initializing,
    /// Waiting for the answer to `session/new`.
    CreatingSession,
    /// The session is open and no prompt is running.
    Ready,
    /// Waiting for the answer to the prompt request with this id.
    Prompting(u64),
}

/// The exchange state of one ACP session with the agent process: the
/// handshake, then prompts one at a time.
#[derive(Debug, Clone)]
pub struct AcpSession {
    /// Where the exchange stands.
    pub phase: TurnPhase,
    /// Workspace directory the session is opened in.
    pub cwd: String,
    /// The agent's session id, once `session/new` has answered.
    pub session_id: String,
    /// Agent text collected for the running prompt.
    pub output: String,
    /// The id the next prompt request gets.
    pub next_id: u64,
}

/// What the caller does after a session step.
#[derive(Debug, Clone, PartialEq, Eq)]
pub enum AcpAction {
    /// Write this line to the agent, then read its next line.
    Send(String),
    /// Read the agent's next line.
    Read,
    /// The session is open: a prompt may be sent.
    Ready,
    /// The prompt is answered: this is the agent's text.
    Finished(String),
    /// Write this line to the agent, then stop with this error.
    SendThenFail(String, String),
    /// Stop with this error.
    Fail(String),
}

/// An ACP session state, as text.
pub struct SessionView {
    /// Where the exchange stands.
    pub phase: TurnPhase,
    /// Workspace directory.
    pub cwd: Seq<char>,
    /// The agent's session id.
    pub session_id: Seq<char>,
    /// Collected agent text.
    pub output: Seq<char>,
    /// The next prompt's id.
    pub next_id: u64,
}

impl View for AcpSession {
    type V = SessionView;

    open spec fn view(&self) -> SessionView {
        SessionView {
            phase: self.phase,
            cwd: self.cwd@,
            session_id: self.session_id@,
            output: self.output@,
            next_id: self.next_id,
        }
    }
}

/// An action, as text.
pub enum ActionView {
    /// Send this line.
    Send(Seq<char>),
    /// Read the next line.
    Read,
    /// The session is open.
    Ready,
    /// The prompt's answer.
    Finished(Seq<char>),
    /// Send this line, then fail with this error.
    SendThenFail(Seq<char>, Seq<char>),
    /// Fail with this error.
    Fail(Seq<char>),
}

impl View for AcpAction {
    type V = ActionView;

    open spec fn view(&self) -> ActionView {
        match self {
            AcpAction::Send(l) => ActionView::Send(l@),
            AcpAction::Read => ActionView::Read,
            AcpAction::Ready => ActionView::Ready,
            AcpAction::Finished(o) => ActionView::Finished(o@),
            AcpAction::SendThenFail(l, e) => ActionView::SendThenFail(l@, e@),
            AcpAction::Fail(e) => ActionView::Fail(e@),
        }
    }
}

/// The id of the request a phase waits for.
pub open spec fn awaited(p: TurnPhase) -> u64 {
    match p {
        TurnPhase::Initializing => 0,
        TurnPhase::CreatingSession => 1,
        TurnPhase::Prompting(id) => id,
        TurnPhase::Ready => 0,
    }
}

/// The parameters of `session/new` for a session in `cwd`.
pub open spec fn new_session_params(cwd: Seq<char>) -> Seq<char> {
    "{\"cwd\":"@ + json_quote(cwd) + ",\"mcpServers\":[]}"@
}

/// The parameters of `session/prompt` sending `prompt` in session `id`.
pub open spec fn prompt_params(id: Seq<char>, prompt: Seq<char>) -> Seq<char> {
    "{\"sessionId\":"@ + json_quote(id) + ",\"prompt\":[{\"type\":\"text\",\"text\":"@ + json_quote(prompt)
        + "}]}"@
}

/// The state and action after the agent's next line (`None` when its
/// output ended), following `step_for` while the session waits.
pub open spec fn session_next(s: SessionView, line: Option<Seq<char>>) -> (SessionView, ActionView) {
    match line {
        None => (
            s,
            ActionView::Fail("ACP process exited before responding to request "@ + decimal(awaited(s.phase) as nat)),
        ),
        Some(l) => {
            let t = trim(l);
            if !json_parses(t) {
                (s, ActionView::Fail("ACP emitted invalid JSON-RPC"@))
            } else {
                let m = message_view(t, awaited(s.phase));
                match step_for(m, s.phase is Prompting) {
                    StepView::AppendText(x) => (SessionView { output: s.output + x, ..s }, ActionView::Read),
                    StepView::Skip => (s, ActionView::Read),
                    StepView::DisallowedTool => (
                        s,
                        ActionView::Fail("ACP attempted a disallowed write or command tool call"@),
                    ),
                    StepView::CancelPermission(method) => (
                        s,
                        ActionView::SendThenFail(
                            reply_text(m.id->0, true),
                            "ACP requested a disallowed client operation: "@ + method,
                        ),
                    ),
                    StepView::RefuseRequest(method) => (
                        s,
                        ActionView::SendThenFail(
                            reply_text(m.id->0, false),
                            "ACP requested a disallowed client operation: "@ + method,
                        ),
                    ),
                    StepView::Failed(e) => (s, ActionView::Fail("ACP request failed: "@ + e)),
                    StepView::Done => match s.phase {
                        TurnPhase::Initializing => (
                            SessionView { phase: TurnPhase::CreatingSession, ..s },
                            ActionView::Send(request_text(1, "session/new"@, new_session_params(s.cwd))),
                        ),
                        TurnPhase::CreatingSession => match json_str_at(t, "/result/sessionId"@) {
                            Some(id) => (
                                SessionView { phase: TurnPhase::Ready, session_id: id, ..s },
                                ActionView::Ready,
                            ),
                            None => (s, ActionView::Fail("ACP session/new response omitted sessionId"@)),
                        },
                        TurnPhase::Prompting(_) => (
                            SessionView { phase: TurnPhase::Ready, ..s },
                            ActionView::Finished(s.output),
                        ),
                        TurnPhase::Ready => (s, ActionView::Read),
                    },
                }
            }
        },
    }
}

impl AcpSession {
    /// Open a session in `cwd`: the state waiting for `initialize`, and the
    /// `initialize` request (id 0) announcing this client at `version`.
    pub fn start(cwd: &str, version: &str) -> (r: (AcpSession, String))
        ensures
            r.0@ == (SessionView {
                phase: TurnPhase::Initializing,
                cwd: cwd@,
                session_id: Seq::empty(),
                output: Seq::empty(),
                next_id: 2,
            }),
            r.1@ == request_text(0, "initialize"@, initialize_params(version@)),
    {
        let session = AcpSession {
            phase: TurnPhase::Initializing,
            cwd: owned(cwd),
            session_id: String::new(),
            output: String::new(),
            next_id: 2,
        };
        (session, initialize_request(0, version))
    }

    /// Send `prompt` in the open session: the `session/prompt` request, with
    /// the next id, after which the session waits for its answer.
    pub fn begin_prompt(&mut self, prompt: &str) -> (r: String)
        requires
            old(self).phase == TurnPhase::Ready,
            old(self).next_id < u64::MAX,
        ensures
            final(self)@ == (SessionView {
                phase: TurnPhase::Prompting(old(self).next_id),
                output: Seq::empty(),
                next_id: (old(self).next_id + 1) as u64,
                ..old(self)@
            }),
            r@ == request_text(old(self).next_id, "session/prompt"@, prompt_params(old(self).session_id@, prompt@)),
    {
        let id = self.next_id;
        self.next_id = id + 1;
        self.phase = TurnPhase::Prompting(id);
        self.output = String::new();
        session_prompt_request(id, self.session_id.as_str(), prompt)
    }

    /// Take the agent's next line (`None` when its output ended) while the
    /// session waits for an answer.
    pub fn on_line(&mut self, line: Option<&str>) -> (r: AcpAction)
        requires
            old(self).phase != TurnPhase::Ready,
        ensures
            (final(self)@, r@) == session_next(
                old(self)@,
                match line {
                    Some(l) => Some(l@),
                    None => None,
                },
            ),
    {
        let expected: u64 = match self.phase {
            TurnPhase::Initializing => 0,
            TurnPhase::CreatingSession => 1,
            TurnPhase::Prompting(id) => id,
            TurnPhase::Ready => 0,
        };
        let line = match line {
            Some(l) => l,
            None => {
                let mut m = owned("ACP process exited before responding to request ");
                m.push_str(decimal_string(expected).as_str());
                return AcpAction::Fail(m);
            },
        };
        let msg = match read_acp_message(line, expected) {
            Some(m) => m,
            None => {
                return AcpAction::Fail(owned("ACP emitted invalid JSON-RPC"));
            },
        };
        let collecting = match self.phase {
            TurnPhase::Prompting(_) => true,
            _ => false,
        };
        match classify_message(&msg, collecting) {
            AcpStep::AppendText(x) => {
                self.output.push_str(x.as_str());
                AcpAction::Read
            },
            AcpStep::Skip => AcpAction::Read,
            AcpStep::DisallowedTool => AcpAction::Fail(owned("ACP attempted a disallowed write or command tool call")),
            AcpStep::CancelPermission(method) => {
                let reply = match &msg.id {
                    Some(id) => refusal_reply(id.as_str(), true),
                    None => owned(""),
                };
                let mut m = owned("ACP requested a disallowed client operation: ");
                m.push_str(method.as_str());
                AcpAction::SendThenFail(reply, m)
            },
            AcpStep::RefuseRequest(method) => {
                let reply = match &msg.id {
                    Some(id) => refusal_reply(id.as_str(), false),
                    None => owned(""),
                };
                let mut m = owned("ACP requested a disallowed client operation: ");
                m.push_str(method.as_str());
                AcpAction::SendThenFail(reply, m)
            },
            AcpStep::Failed(e) => {
                let mut m = owned("ACP request failed: ");
                m.push_str(e.as_str());
                AcpAction::Fail(m)
            },
            AcpStep::Done => match self.phase {
                TurnPhase::Initializing => {
                    self.phase = TurnPhase::CreatingSession;
                    AcpAction::Send(session_new_request(1, self.cwd.as_str()))
                },
                TurnPhase::CreatingSession => {
                    let t = trim_str(line);
                    match session_id_of(t.as_str()) {
                        Some(id) => {
                            self.phase = TurnPhase::Ready;
                            self.session_id = id;
                            AcpAction::Ready
                        },
                        None => AcpAction::Fail(owned("ACP session/new response omitted sessionId")),
                    }
                },
                TurnPhase::Prompting(_) => {
                    self.phase = TurnPhase::Ready;
                    AcpAction::Finished(self.output.clone())
                },
                TurnPhase::Ready => AcpAction::Read,
            },
        }
    }
}

/// While a prompt runs, an agent tool call that edits, deletes, moves or
/// executes ends the turn with an error: the agent gets no write access.
pub proof fn law_writing_tools_refused(s: SessionView, line: Seq<char>)
    requires
        s.phase is Prompting,
        json_parses(trim(line)),
        json_str_at(trim(line), "/method"@) == Some("session/update"@),
        json_str_at(trim(line), "/params/update/sessionUpdate"@) == Some("tool_call"@),
        is_disallowed_tool(json_str_at(trim(line), "/params/update/kind"@)),
    ensures
        session_next(s, Some(line)).1 == ActionView::Fail("ACP attempted a disallowed write or command tool call"@),
{
    reveal_strlit("tool_call");
    reveal_strlit("agent_message_chunk");
    assert("tool_call"@.len() != "agent_message_chunk"@.len());
    let t = trim(line);
    let m = message_view(t, awaited(s.phase));
    assert(m.session_update != Some("agent_message_chunk"@));
    assert(step_for(m, true) == StepView::DisallowedTool);
}

/// A request from the agent for a client operation (any method but a
/// session update, with an id) is answered with a refusal and ends the
/// turn: the client never performs it.
pub proof fn law_client_operations_refused(s: SessionView, line: Seq<char>, method: Seq<char>)
    requires
        json_parses(trim(line)),
        json_str_at(trim(line), "/method"@) == Some(method),
        method != "session/update"@,
        json_value_at(trim(line), "/id"@) is Some,
    ensures
        session_next(s, Some(line)).1 is SendThenFail,
        session_next(s, Some(line)).0 == s,
{
}

/// While a prompt runs, each agent text chunk is appended to the output, in
/// the order the chunks arrive.
pub proof fn law_chunks_accumulate(s: SessionView, line: Seq<char>, text: Seq<char>)
    requires
        s.phase is Prompting,
        json_parses(trim(line)),
        json_str_at(trim(line), "/method"@) == Some("session/update"@),
        json_str_at(trim(line), "/params/update/sessionUpdate"@) == Some("agent_message_chunk"@),
        json_str_at(trim(line), "/params/update/content/type"@) == Some("text"@),
        json_str_at(trim(line), "/params/update/content/text"@) == Some(text),
    ensures
        session_next(s, Some(line)).0.output == s.output + text,
        session_next(s, Some(line)).0.phase == s.phase,
        session_next(s, Some(line)).1 == ActionView::Read,
{
}

/// The answer to the running prompt hands back the collected output and
/// leaves the session open for the next prompt, with the same session id.
pub proof fn law_answer_returns_ready(s: SessionView, line: Seq<char>, id: u64)
    requires
        s.phase == TurnPhase::Prompting(id),
        json_parses(trim(line)),
        json_str_at(trim(line), "/method"@) is None,
        json_u64_at(trim(line), "/id"@) == Some(id),
        json_value_at(trim(line), "/error"@) is None,
    ensures
        session_next(s, Some(line)).1 == ActionView::Finished(s.output),
        session_next(s, Some(line)).0.phase == TurnPhase::Ready,
        session_next(s, Some(line)).0.session_id == s.session_id,
        session_next(s, Some(line)).0.next_id == s.next_id,
{
}

} // verus!
