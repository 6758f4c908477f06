//! Shared model override validation.

use vstd::prelude::*;

use crate::text::{
    chars_eq, chars_of, has_ascii_control, is_ascii_control, opt_chars, owned, string_from_range, trim,
    trim_range,
};

verus! {

/// Longest accepted model name, in characters.
pub const MAX_MODEL_CHARS: usize = 128;

/// Why a model or reasoning-effort override was refused.
#[derive(Debug, Clone, Copy, PartialEq, Eq)]
pub enum ModelError {
    /// The model override holds an ASCII control character.
    ModelControlCharacters,
    /// The trimmed model override is longer than `MAX_MODEL_CHARS` characters.
    ModelTooLong,
    /// The reasoning effort holds an ASCII control character.
    EffortControlCharacters,
    /// The reasoning effort is not one of `low`, `medium`, `high`, `xhigh`.
    UnknownEffort,
}

/// The message of a model or effort error.
pub open spec fn model_error_text(e: ModelError) -> Seq<char> {
    match e {
        ModelError::ModelControlCharacters => "model override must not contain control characters"@,
        ModelError::ModelTooLong => "model override exceeds 128 characters"@,
        ModelError::EffortControlCharacters => "reasoning effort must not contain control characters"@,
        ModelError::UnknownEffort => "reasoning effort must be one of: low, medium, high, xhigh"@,
    }
}

impl ModelError {
    /// The message shown to a user for this error.
    pub fn message(&self) -> (r: String)
        ensures
            r@ == model_error_text(*self),
    {
        match self {
            ModelError::ModelControlCharacters => owned(
                "model override must not contain control characters",
            ),
            ModelError::ModelTooLong => owned("model override exceeds 128 characters"),
            ModelError::EffortControlCharacters => owned(
                "reasoning effort must not contain control characters",
            ),
            ModelError::UnknownEffort => owned(
                "reasoning effort must be one of: low, medium, high, xhigh",
            ),
        }
    }
}

/// Whether `s` holds an ASCII control character.
pub open spec fn has_control(s: Seq<char>) -> bool {
    exists|i: int| 0 <= i < s.len() && is_ascii_control(#[trigger] s[i])
}

/// The characters of a successful optional result.
pub open spec fn result_view(r: Result<Option<String>, ModelError>) -> Result<Option<Seq<char>>, ModelError> {
    match r {
        Ok(o) => Ok(opt_chars(o)),
        Err(e) => Err(e),
    }
}

/// What `normalize_model` gives for an override: nothing for none or an all
/// white-space value, the trimmed value when it has no control character and
/// at most `MAX_MODEL_CHARS` characters, an error otherwise.
pub open spec fn model_outcome(value: Option<Seq<char>>) -> Result<Option<Seq<char>>, ModelError> {
    match value {
        None => Ok(None),
        Some(v) => if has_control(v) {
            Err(ModelError::ModelControlCharacters)
        } else if trim(v).len() == 0 {
            Ok(None)
        } else if trim(v).len() > MAX_MODEL_CHARS {
            Err(ModelError::ModelTooLong)
        } else {
            Ok(Some(trim(v)))
        },
    }
}

/// The accepted reasoning efforts.
pub open spec fn is_known_effort(e: Seq<char>) -> bool {
    e == "low"@ || e == "medium"@ || e == "high"@ || e == "xhigh"@
}

/// What `normalize_reasoning_effort` gives for an override: nothing for none,
/// an all white-space value or `default`, the trimmed value when it is a known
/// effort, an error otherwise.
pub open spec fn effort_outcome(value: Option<Seq<char>>) -> Result<Option<Seq<char>>, ModelError> {
    match value {
        None => Ok(None),
        Some(v) => if has_control(v) {
            Err(ModelError::EffortControlCharacters)
        } else if trim(v).len() == 0 || trim(v) == "default"@ {
            Ok(None)
        } else if !is_known_effort(trim(v)) {
            Err(ModelError::UnknownEffort)
        } else {
            Ok(Some(trim(v)))
        },
    }
}

/// The reasoning efforts Codex accepts are exactly `low`, `medium`, `high`
/// and `xhigh`: an override without control characters that trims to one of
/// them gives that effort, and one that trims to any other word but
/// `default` is refused as unknown.
pub proof fn law_reasoning_efforts(v: Seq<char>)
    requires
        !has_control(v),
    ensures
        trim(v) == "low"@ || trim(v) == "medium"@ || trim(v) == "high"@ || trim(v) == "xhigh"@
            ==> effort_outcome(Some(v)) == Ok::<Option<Seq<char>>, ModelError>(Some(trim(v))),
        trim(v).len() > 0 && trim(v) != "default"@ && trim(v) != "low"@ && trim(v) != "medium"@
            && trim(v) != "high"@ && trim(v) != "xhigh"@ ==> effort_outcome(Some(v)) == Err::<
            Option<Seq<char>>,
            ModelError,
        >(ModelError::UnknownEffort),
{
    reveal_strlit("low");
    reveal_strlit("medium");
    reveal_strlit("high");
    reveal_strlit("xhigh");
    reveal_strlit("default");
}

/// Whether `cs` spells `lit`.
fn is_literal(cs: &[char], lit: &str) -> (b: bool)
    ensures
        b == (cs@ == lit@),
{
    let l = chars_of(lit);
    chars_eq(cs, l.as_slice())
}

/// Normalize an optional user-supplied model override.
pub fn normalize_model(value: Option<String>) -> (r: Result<Option<String>, ModelError>)
    ensures
        result_view(r) == model_outcome(opt_chars(value)),
{
    let value = match value {
        None => {
            return Ok(None);
        },
        Some(v) => v,
    };
    let cs = chars_of(value.as_str());
    if has_ascii_control(cs.as_slice()) {
        return Err(ModelError::ModelControlCharacters);
    }
    let (a, b) = trim_range(cs.as_slice());
    if a == b {
        return Ok(None);
    }
    if b - a > MAX_MODEL_CHARS {
        return Err(ModelError::ModelTooLong);
    }
    Ok(Some(string_from_range(cs.as_slice(), a, b)))
}

/// Normalize an optional model reasoning effort override.
pub fn normalize_reasoning_effort(value: Option<String>) -> (r: Result<Option<String>, ModelError>)
    ensures
        result_view(r) == effort_outcome(opt_chars(value)),
{
    let value = match value {
        None => {
            return Ok(None);
        },
        Some(v) => v,
    };
    let cs = chars_of(value.as_str());
    if has_ascii_control(cs.as_slice()) {
        return Err(ModelError::EffortControlCharacters);
    }
    let (a, b) = trim_range(cs.as_slice());
    let effort = string_from_range(cs.as_slice(), a, b);
    let ec = chars_of(effort.as_str());
    if a == b || is_literal(ec.as_slice(), "default") {
        return Ok(None);
    }
    if !(is_literal(ec.as_slice(), "low") || is_literal(ec.as_slice(), "medium") || is_literal(
        ec.as_slice(),
        "high",
    ) || is_literal(ec.as_slice(), "xhigh")) {
        return Err(ModelError::UnknownEffort);
    }
    Ok(Some(effort))
}

/// One character of a TOML basic string, escaped.
pub open spec fn escape_char(c: char) -> Seq<char> {
    if c == '\\' {
        seq!['\\', '\\']
    } else if c == '"' {
        seq!['\\', '"']
    } else {
        seq![c]
    }
}

/// `s` with each backslash doubled and each double quote preceded by a backslash.
pub open spec fn escape_toml(s: Seq<char>) -> Seq<char>
    decreases s.len(),
{
    if s.len() == 0 {
        seq![]
    } else {
        escape_toml(s.drop_last()) + escape_char(s.last())
    }
}

/// `escape_toml` of `value`.
pub fn escape_toml_string(value: &str) -> (r: String)
    ensures
        r@ == escape_toml(value@),
{
    let cs = chars_of(value);
    let mut r = String::new();
    let mut i: usize = 0;
    while i < cs.len()
        invariant
            i <= cs.len(),
            cs@ == value@,
            r@ == escape_toml(cs@.take(i as int)),
        decreases cs.len() - i,
    {
        let c = cs[i];
        assert(cs@.take(i + 1).drop_last() =~= cs@.take(i as int));
        if c == '\\' {
            r.push('\\');
            r.push('\\');
        } else if c == '"' {
            r.push('\\');
            r.push('"');
        } else {
            r.push(c);
        }
        i = i + 1;
        assert(r@ =~= escape_toml(cs@.take(i as int)));
    }
    assert(cs@.take(cs@.len() as int) =~= cs@);
    r
}

/// Render a model override as a Codex config argument.
pub fn model_config_arg(model: &str) -> (r: String)
    ensures
        r@ == "model=\""@ + escape_toml(model@) + "\""@,
{
    let mut r = owned("model=\"");
    let escaped = escape_toml_string(model);
    r.push_str(escaped.as_str());
    r.push_str("\"");
    r
}

/// Render a reasoning effort override as a Codex config argument.
pub fn reasoning_effort_config_arg(effort: &str) -> (r: String)
    ensures
        r@ == "model_reasoning_effort=\""@ + effort@ + "\""@,
{
    let mut r = owned("model_reasoning_effort=\"");
    r.push_str(effort);
    r.push_str("\"");
    r
}

} // verus!
