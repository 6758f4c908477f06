//! Checks and plans of the requests the command line sends to the daemon.
//! Canonicalizing paths, encoding JSON and talking to the daemon are the
//! binary's part.

use vstd::prelude::*;

use crate::daemon_lock::{digits_value, is_digit};
use crate::cli::ThreadCommands;
use crate::rpc::ScratchCreateParams;
use crate::threads::{ThreadAttachParams, ThreadCreateParams, ThreadDeleteParams, ThreadLinkParams, ThreadListParams, ThreadResolveParams};
use crate::text::{chars_of, owned, str_eq, trim, trim_str};

verus! {

/// Why a command-line request was refused before it was sent.
#[derive(Debug, Clone, PartialEq, Eq)]
pub enum RequestError {
    /// The prompt of the named command is blank.
    EmptyPrompt(String),
    /// The named command got no buffer content on stdin.
    EmptyContent(String),
    /// `--file` is missing for the named bridge method.
    MissingFile(String),
    /// `--cursor` is missing for the named bridge method.
    MissingCursor(String),
    /// `--cursor` is not a byte offset for the named bridge method.
    BadCursor(String),
}

impl RequestError {
    /// The message shown to a user for this error.
    pub fn message(&self) -> (r: String)
        ensures
            r@ == (match self {
                RequestError::EmptyPrompt(c) => "`--prompt` must not be empty for `"@ + c@ + "`"@,
                RequestError::EmptyContent(c) => "`"@ + c@ + "` requires live buffer contents on stdin"@,
                RequestError::MissingFile(c) => "`--file` is required for `bridge --method "@ + c@ + "`"@,
                RequestError::MissingCursor(c) => "`--cursor` is required for `bridge --method "@ + c@ + "`"@,
                RequestError::BadCursor(c) => "`--cursor` must be a byte offset for `"@ + c@ + "`"@,
            }),
    {
        match self {
            RequestError::EmptyPrompt(c) => {
                let mut m = owned("`--prompt` must not be empty for `");
                m.push_str(c.as_str());
                m.push_str("`");
                m
            },
            RequestError::EmptyContent(c) => {
                let mut m = owned("`");
                m.push_str(c.as_str());
                m.push_str("` requires live buffer contents on stdin");
                m
            },
            RequestError::MissingFile(c) => {
                let mut m = owned("`--file` is required for `bridge --method ");
                m.push_str(c.as_str());
                m.push_str("`");
                m
            },
            RequestError::MissingCursor(c) => {
                let mut m = owned("`--cursor` is required for `bridge --method ");
                m.push_str(c.as_str());
                m.push_str("`");
                m
            },
            RequestError::BadCursor(c) => {
                let mut m = owned("`--cursor` must be a byte offset for `");
                m.push_str(c.as_str());
                m.push_str("`");
                m
            },
        }
    }
}

/// What checking a prompt and buffer for `command` gives: a blank prompt,
/// then empty content, is refused.
pub open spec fn live_buffer_check(prompt: Seq<char>, content: Seq<char>) -> Option<bool> {
    if trim(prompt).len() == 0 {
        Some(true)
    } else if content.len() == 0 {
        Some(false)
    } else {
        None
    }
}

/// Check the prompt and live buffer of an `inline` or `scratch` request
/// (`command` names it in the error).
pub fn check_live_buffer_request(command: &str, prompt: &str, content: &str) -> (r: Result<(), RequestError>)
    ensures
        (match live_buffer_check(prompt@, content@) {
            None => r is Ok,
            Some(true) => r matches Err(RequestError::EmptyPrompt(c)) && c@ == command@,
            Some(false) => r matches Err(RequestError::EmptyContent(c)) && c@ == command@,
        }),
{
    if trim_str(prompt).as_str().is_empty() {
        return Err(RequestError::EmptyPrompt(owned(command)));
    }
    if content.is_empty() {
        return Err(RequestError::EmptyContent(owned(command)));
    }
    Ok(())
}

/// `text` without a leading `+`.
pub open spec fn signless(text: Seq<char>) -> Seq<char> {
    if text.len() > 0 && text[0] == '+' {
        text.drop_first()
    } else {
        text
    }
}

/// The number `text` spells as `str::parse::<usize>` reads it: an optional
/// `+` and at least one decimal digit, at most `usize::MAX`.
pub open spec fn usize_spec(text: Seq<char>) -> Option<usize> {
    let d = signless(text);
    if d.len() > 0 && (forall|i: int| 0 <= i < d.len() ==> is_digit(#[trigger] d[i]))
        && digits_value(d) <= usize::MAX {
        Some(digits_value(d) as usize)
    } else {
        None
    }
}

proof fn lemma_digits_grow(d: Seq<char>, k: int)
    requires
        0 <= k <= d.len(),
        forall|i: int| 0 <= i < d.len() ==> is_digit(#[trigger] d[i]),
    ensures
        digits_value(d.take(k)) <= digits_value(d),
    decreases d.len() - k,
{
    if k < d.len() {
        lemma_digits_grow(d, k + 1);
        assert(d.take(k + 1).drop_last() =~= d.take(k));
    } else {
        assert(d.take(k) =~= d);
    }
}

/// Parse a byte offset.
pub fn parse_usize(text: &str) -> (r: Option<usize>)
    ensures
        r == usize_spec(text@),
{
    let cs = chars_of(text);
    let start: usize = if cs.len() > 0 && cs[0] == '+' {
        1
    } else {
        0
    };
    let ghost d = cs@.subrange(start as int, cs@.len() as int);
    assert(d =~= signless(text@));
    if start >= cs.len() {
        return None;
    }
    let mut value: usize = 0;
    let mut i: usize = start;
    while i < cs.len()
        invariant
            start <= i <= cs@.len(),
            d == cs@.subrange(start as int, cs@.len() as int),
            d == signless(text@),
            value == digits_value(d.take(i - start)),
            forall|j: int| 0 <= j < i - start ==> is_digit(#[trigger] d[j]),
        decreases cs@.len() - i,
    {
        let c = cs[i];
        if !('0' <= c && c <= '9') {
            assert(!is_digit(d[i - start]));
            return None;
        }
        assert(d.take(i - start + 1).drop_last() =~= d.take(i - start));
        assert(d.take(i - start + 1).last() == c);
        let digit = ((c as u32) - 48) as usize;
        i = i + 1;
        if value > (usize::MAX - digit) / 10 {
            proof {
                assert(digits_value(d.take(i - start)) == value * 10 + digit);
                assert(value * 10 + digit > usize::MAX) by (nonlinear_arith)
                    requires
                        value > (usize::MAX - digit) / 10,
                        digit <= 9,
                ;
                if forall|j: int| 0 <= j < d.len() ==> is_digit(#[trigger] d[j]) {
                    lemma_digits_grow(d, i - start);
                }
            }
            return None;
        }
        assert(value * 10 + digit <= usize::MAX) by (nonlinear_arith)
            requires
                value <= (usize::MAX - digit) / 10,
                digit <= 9,
        ;
        value = value * 10 + digit;
    }
    assert(d.take(cs@.len() - start) =~= d);
    Some(value)
}

/// A planned bridge request: which method and with what parameters.
#[derive(Debug, Clone, PartialEq, Eq)]
pub enum BridgeRequest {
    /// Completions for a file at a byte offset.
    Complete {
        /// File path as given.
        file: String,
        /// Cursor byte offset.
        offset: usize,
    },
    /// Prefetch a file or directory.
    Prefetch {
        /// File or directory path as given.
        path: String,
    },
    /// Anchors of a file.
    Anchors {
        /// File path as given.
        file: String,
    },
    /// Generate at an anchor.
    Generate {
        /// File path as given.
        file: String,
        /// Cursor byte offset.
        offset: usize,
    },
    /// Any other method, with the optional file, line and cursor passed on.
    Other {
        /// Method name.
        method: String,
        /// Optional file path as given.
        file: Option<String>,
        /// Optional line.
        line: Option<u32>,
        /// Optional cursor text.
        cursor: Option<String>,
    },
}

/// Whether a planned bridge request is the one `method` with `file`, `line`
/// and `cursor` calls for; an error names what is missing or malformed.
pub open spec fn bridge_plan_ok(
    method: Seq<char>,
    file: Option<String>,
    line: Option<u32>,
    cursor: Option<String>,
    r: Result<BridgeRequest, RequestError>,
) -> bool {
    if method == "complete"@ || method == "generate"@ {
        match file {
            None => r matches Err(RequestError::MissingFile(m)) && m@ == method,
            Some(f) => match cursor {
                None => r matches Err(RequestError::MissingCursor(m)) && m@ == method,
                Some(c) => match usize_spec(c@) {
                    None => r matches Err(RequestError::BadCursor(m)) && m@ == method,
                    Some(o) => if method == "complete"@ {
                        r matches Ok(BridgeRequest::Complete { file: g, offset }) && g@ == f@
                            && offset == o
                    } else {
                        r matches Ok(BridgeRequest::Generate { file: g, offset }) && g@ == f@
                            && offset == o
                    },
                },
            },
        }
    } else if method == "prefetch"@ || method == "anchors"@ {
        match file {
            None => r matches Err(RequestError::MissingFile(m)) && m@ == method,
            Some(f) => if method == "prefetch"@ {
                r matches Ok(BridgeRequest::Prefetch { path }) && path@ == f@
            } else {
                r matches Ok(BridgeRequest::Anchors { file: g }) && g@ == f@
            },
        }
    } else {
        r matches Ok(BridgeRequest::Other { method: m, file: g, line: l, cursor: c }) && m@
            == method && crate::text::opt_chars(g) == crate::text::opt_chars(file) && l == line
            && crate::text::opt_chars(c) == crate::text::opt_chars(cursor)
    }
}

/// Plan the request of `bridge --method`.
pub fn plan_bridge_request(
    method: &str,
    file: Option<String>,
    line: Option<u32>,
    cursor: Option<String>,
) -> (r: Result<BridgeRequest, RequestError>)
    ensures
        bridge_plan_ok(method@, file, line, cursor, r),
{
    proof {
        reveal_strlit("complete");
        reveal_strlit("generate");
        reveal_strlit("prefetch");
        reveal_strlit("anchors");
        assert("complete"@[0] != "generate"@[0]);
        assert("complete"@[0] != "prefetch"@[0]);
        assert("complete"@[0] != "anchors"@[0]);
        assert("generate"@[0] != "prefetch"@[0]);
        assert("generate"@[0] != "anchors"@[0]);
        assert("prefetch"@[0] != "anchors"@[0]);
    }
    let complete = str_eq(method, "complete");
    let generate = str_eq(method, "generate");
    let prefetch = str_eq(method, "prefetch");
    let anchors = str_eq(method, "anchors");
    if complete || generate {
        let f = match file {
            None => {
                return Err(RequestError::MissingFile(owned(method)));
            },
            Some(f) => f,
        };
        let c = match cursor {
            None => {
                return Err(RequestError::MissingCursor(owned(method)));
            },
            Some(c) => c,
        };
        let offset = match parse_usize(c.as_str()) {
            None => {
                return Err(RequestError::BadCursor(owned(method)));
            },
            Some(o) => o,
        };
        if complete {
            Ok(BridgeRequest::Complete { file: f, offset })
        } else {
            Ok(BridgeRequest::Generate { file: f, offset })
        }
    } else if prefetch || anchors {
        let f = match file {
            None => {
                return Err(RequestError::MissingFile(owned(method)));
            },
            Some(f) => f,
        };
        if prefetch {
            Ok(BridgeRequest::Prefetch { path: f })
        } else {
            Ok(BridgeRequest::Anchors { file: f })
        }
    } else {
        Ok(BridgeRequest::Other { method: owned(method), file, line, cursor })
    }
}

/// A planned thread request, with paths as given on the command line.
#[derive(Debug, Clone)]
pub enum ThreadRequest {
    /// `thread.create`.
    Create(ThreadCreateParams),
    /// `thread.list`.
    List(ThreadListParams),
    /// `thread.link`.
    Link(ThreadLinkParams),
    /// `thread.resolve`.
    Resolve(ThreadResolveParams),
    /// `thread.attach`.
    Attach(ThreadAttachParams),
    /// `thread.example.create` for the thread, with the scratch request.
    Example {
        /// Parent thread id.
        thread_id: String,
        /// The scratch request of the example.
        scratch: ScratchCreateParams,
    },
    /// `thread.delete`.
    Delete(ThreadDeleteParams),
}

/// Plan the daemon request of a `thread` subcommand, with `content` the
/// live buffer read from stdin (empty when there is none): creating,
/// attaching and generating an example need a buffer; listing passes one
/// on only when there is one.
pub fn plan_thread_request(command: ThreadCommands, content: String) -> (r: Result<ThreadRequest, RequestError>)
    ensures
        (match command {
            ThreadCommands::Create { workspace, file, offset, prompt, selection_start, selection_end, model, reasoning_effort } =>
                if content@.len() == 0 {
                r matches Err(RequestError::EmptyContent(c)) && c@ == "thread create"@
            } else {
                r matches Ok(ThreadRequest::Create(p)) && p.workspace == workspace && p.file == file && p.offset
                    == offset && p.content == content && p.prompt == prompt && p.selection_start
                    == selection_start && p.selection_end == selection_end && p.model == model
                    && p.reasoning_effort == reasoning_effort
            },
            ThreadCommands::List { workspace, file } => r matches Ok(ThreadRequest::List(p)) && p.workspace
                == workspace && p.file == file && (if content@.len() == 0 {
                p.content is None
            } else {
                p.content == Some(content)
            }),
            ThreadCommands::Link { thread_id, session_id, session_path } => r matches Ok(
                ThreadRequest::Link(p),
            ) && p.thread_id == thread_id && p.codex_session_id == session_id && p.codex_session_path
                == session_path,
            ThreadCommands::Resolve { thread_id, workspace, started_after } => r matches Ok(
                ThreadRequest::Resolve(p),
            ) && p.thread_id == thread_id && p.workspace == workspace && p.started_after_unix == started_after,
            ThreadCommands::Attach { workspace, file, offset, session_id } => if content@.len() == 0 {
                r matches Err(RequestError::EmptyContent(c)) && c@ == "thread attach"@
            } else {
                r matches Ok(ThreadRequest::Attach(p)) && p.workspace == workspace && p.file == file
                    && p.offset == offset && p.content == content && p.codex_session_id == session_id
            },
            ThreadCommands::Example {
                thread_id,
                workspace,
                file,
                offset,
                prompt,
                selection_start,
                selection_end,
                model,
                reasoning_effort,
            } => if content@.len() == 0 {
                r matches Err(RequestError::EmptyContent(c)) && c@ == "thread example"@
            } else {
                r matches Ok(ThreadRequest::Example { thread_id: t, scratch: p }) && t == thread_id
                    && p.workspace == workspace && p.file == file && p.offset == offset && p.content
                    == content && p.prompt == prompt && p.selection_start == selection_start
                    && p.selection_end == selection_end && p.model == model && p.reasoning_effort
                    == reasoning_effort
            },
            ThreadCommands::Delete { thread_id } => r matches Ok(ThreadRequest::Delete(p)) && p.thread_id
                == thread_id,
        }),
{
    match command {
        ThreadCommands::Create { workspace, file, offset, prompt, selection_start, selection_end, model, reasoning_effort } => {
            if content.as_str().is_empty() {
                return Err(RequestError::EmptyContent(owned("thread create")));
            }
            Ok(
                ThreadRequest::Create(
                    ThreadCreateParams {
                        workspace,
                        file,
                        offset,
                        content,
                        prompt,
                        selection_start,
                        selection_end,
                        model,
                        reasoning_effort,
                    },
                ),
            )
        },
        ThreadCommands::List { workspace, file } => {
            let content = if content.as_str().is_empty() {
                None
            } else {
                Some(content)
            };
            Ok(ThreadRequest::List(ThreadListParams { workspace, file, content }))
        },
        ThreadCommands::Link { thread_id, session_id, session_path } => Ok(
            ThreadRequest::Link(
                ThreadLinkParams { thread_id, codex_session_id: session_id, codex_session_path: session_path },
            ),
        ),
        ThreadCommands::Resolve { thread_id, workspace, started_after } => Ok(
            ThreadRequest::Resolve(ThreadResolveParams { thread_id, workspace, started_after_unix: started_after }),
        ),
        ThreadCommands::Attach { workspace, file, offset, session_id } => {
            if content.as_str().is_empty() {
                return Err(RequestError::EmptyContent(owned("thread attach")));
            }
            Ok(
                ThreadRequest::Attach(
                    ThreadAttachParams { workspace, file, offset, content, codex_session_id: session_id },
                ),
            )
        },
        ThreadCommands::Example {
            thread_id,
            workspace,
            file,
            offset,
            prompt,
            selection_start,
            selection_end,
            model,
            reasoning_effort,
        } => {
            if content.as_str().is_empty() {
                return Err(RequestError::EmptyContent(owned("thread example")));
            }
            Ok(
                ThreadRequest::Example {
                    thread_id,
                    scratch: ScratchCreateParams {
                        workspace,
                        file,
                        offset,
                        content,
                        prompt,
                        selection_start,
                        selection_end,
                        model,
                        reasoning_effort,
                    },
                },
            )
        },
        ThreadCommands::Delete { thread_id } => Ok(ThreadRequest::Delete(ThreadDeleteParams { thread_id })),
    }
}

} // verus!
