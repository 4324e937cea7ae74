//! Unified domain errors: classification, retryability, and their plain
//! text, GitHub annotation and JSON renderings.
use vstd::prelude::*;

use crate::audience::Audience;
use crate::hints::{append_hints, hint_texts, hints_block, Hint};
use crate::kv::{json_escape_str, json_string};
use crate::mcp::{CallToolResult, ContentBlock};
use crate::recovery::{append_one_recovery, push_recovery_json, recovery_block, recovery_json, RecoveryHint};
use crate::resilience::Delay;
use crate::text::{bool_text, concat, join, lemma_add_avoids, lemma_concat_avoids, lemma_concat_step, lemma_join_step, owned};

verus! {

/// Classification of an error for routing and display decisions.
#[derive(Debug, Clone, Copy, PartialEq, Eq, Structural)]
#[non_exhaustive]
pub enum ErrorClass {
    /// The caller gave invalid input. Do not retry.
    User,
    /// A downstream or infrastructure failure not expected to resolve by
    /// itself. No automatic retry.
    Internal,
    /// A transient failure expected to resolve by itself.
    Transient,
}

/// A value that never shows itself: its text is always `<redacted>`.
pub struct Sensitive<T>(pub T);

impl<T> Sensitive<T> {
    /// The text of the value, as its `Debug` and `Display` read: always
    /// `<redacted>`, whatever the value.
    pub fn to_text(&self) -> (s: String)
        ensures
            s@ == "<redacted>"@,
    {
        owned("<redacted>")
    }
}

/// The specific kind of domain error.
#[derive(Debug, Clone, Copy, PartialEq, Eq, Structural)]
#[non_exhaustive]
pub enum ErrorCode {
    /// Bad parameters.
    InvalidInput,
    /// Resource absent.
    NotFound,
    /// Authentication failure.
    Unauthorized,
    /// Permission denied.
    Forbidden,
    /// Resource state mismatch.
    Conflict,
    /// Rate limited (HTTP 429).
    RateLimited,
    /// Service unavailable (HTTP 503).
    Unavailable,
    /// Request timed out.
    Timeout,
    /// Downstream or external failure.
    ExternalFailure,
}

/// The snake_case label of a code.
pub open spec fn code_label(c: ErrorCode) -> Seq<char> {
    match c {
        ErrorCode::InvalidInput => "invalid_input"@,
        ErrorCode::NotFound => "not_found"@,
        ErrorCode::Unauthorized => "unauthorized"@,
        ErrorCode::Forbidden => "forbidden"@,
        ErrorCode::Conflict => "conflict"@,
        ErrorCode::RateLimited => "rate_limited"@,
        ErrorCode::Unavailable => "unavailable"@,
        ErrorCode::Timeout => "timeout"@,
        ErrorCode::ExternalFailure => "external_failure"@,
    }
}

/// The infrastructure codes, retryable by default.
pub open spec fn code_retryable_by_default(c: ErrorCode) -> bool {
    c is RateLimited || c is Unavailable || c is Timeout || c is ExternalFailure
}

/// The class of a code regardless of any retry override: infrastructure
/// codes are `Internal`, caller-fault codes `User`.
pub open spec fn code_default_class(c: ErrorCode) -> ErrorClass {
    if code_retryable_by_default(c) {
        ErrorClass::Internal
    } else {
        ErrorClass::User
    }
}

impl ErrorCode {
    /// The snake_case label used in rendered output.
    pub fn label(&self) -> (s: &'static str)
        ensures
            s@ == code_label(*self),
    {
        match self {
            ErrorCode::InvalidInput => "invalid_input",
            ErrorCode::NotFound => "not_found",
            ErrorCode::Unauthorized => "unauthorized",
            ErrorCode::Forbidden => "forbidden",
            ErrorCode::Conflict => "conflict",
            ErrorCode::RateLimited => "rate_limited",
            ErrorCode::Unavailable => "unavailable",
            ErrorCode::Timeout => "timeout",
            ErrorCode::ExternalFailure => "external_failure",
        }
    }

    /// Whether this code is conventionally retryable.
    pub fn is_retryable_by_default(&self) -> (b: bool)
        ensures
            b == code_retryable_by_default(*self),
    {
        match self {
            ErrorCode::RateLimited | ErrorCode::Unavailable | ErrorCode::Timeout
            | ErrorCode::ExternalFailure => true,
            _ => false,
        }
    }

    /// The class of this code, independent of any retry override.
    pub fn default_class(&self) -> (c: ErrorClass)
        ensures
            c == code_default_class(*self),
    {
        match self {
            ErrorCode::InvalidInput | ErrorCode::NotFound | ErrorCode::Unauthorized
            | ErrorCode::Forbidden | ErrorCode::Conflict => ErrorClass::User,
            ErrorCode::RateLimited | ErrorCode::Unavailable | ErrorCode::Timeout
            | ErrorCode::ExternalFailure => ErrorClass::Internal,
        }
    }
}

/// A domain-level error.
#[derive(Debug, Clone)]
#[non_exhaustive]
pub struct DomainError {
    /// The error classification.
    pub code: ErrorCode,
    /// Human-readable message.
    pub message: String,
    /// Contextual hints, rendered as a trailing `help[N]:` block.
    pub hints: Vec<Hint>,
    /// Optional structured recovery hint.
    pub recovery: Option<RecoveryHint>,
    /// Whether this error is safe to retry.
    pub retryable: bool,
    /// Parsed `Retry-After` delay, if known. Not part of any rendering.
    pub retry_after: Option<Delay>,
}

/// The recovery block of an optional recovery hint.
pub open spec fn optional_recovery_block(r: Option<RecoveryHint>) -> Seq<char> {
    match r {
        Some(h) => recovery_block(seq![h]),
        None => seq![],
    }
}

/// The plain-text block of a domain error.
pub open spec fn domain_error_text(e: DomainError) -> Seq<char> {
    "error: "@ + code_label(e.code) + "\nmessage: "@ + e.message@ + "\nexit_code: 1\n"@
        + hints_block(e.hints@) + optional_recovery_block(e.recovery)
}

/// A character as GitHub Actions annotations need it: line feed as `%0A`,
/// carriage return as `%0D`.
pub open spec fn annotation_char(c: char) -> Seq<char> {
    if c == '\n' {
        seq!['%', '0', 'A']
    } else if c == '\r' {
        seq!['%', '0', 'D']
    } else {
        seq![c]
    }
}

/// A message with its line breaks percent-encoded.
pub open spec fn annotation_message(s: Seq<char>) -> Seq<char> {
    concat(s.map_values(|c: char| annotation_char(c)))
}

/// The JSON object of a domain error: `isError`, `error`, `message`,
/// `retryable`, `hints`, `recovery`.
pub open spec fn domain_error_json(e: DomainError) -> Seq<char> {
    "{\"isError\":true,\"error\":"@ + json_string(code_label(e.code)) + ",\"message\":"@
        + json_string(e.message@) + ",\"retryable\":"@ + bool_text(e.retryable)
        + ",\"hints\":["@ + join(hint_texts(e.hints@).map_values(|h: Seq<char>| json_string(h)), seq![','])
        + "],\"recovery\":"@ + match e.recovery {
        None => "null"@,
        Some(r) => recovery_json(r),
    } + seq!['}']
}

impl DomainError {
    /// A domain error with the code's default retryability and nothing else.
    pub fn new(code: ErrorCode, message: &str) -> (e: Self)
        ensures
            e.code == code,
            e.message@ == message@,
            e.hints@.len() == 0,
            e.recovery is None,
            e.retryable == code_retryable_by_default(code),
            e.retry_after is None,
    {
        DomainError {
            retryable: code.is_retryable_by_default(),
            code,
            message: owned(message),
            hints: Vec::new(),
            recovery: None,
            retry_after: None,
        }
    }

    /// Append a contextual hint.
    pub fn hint(self, hint: &str) -> (e: Self)
        ensures
            e.code == self.code,
            e.message == self.message,
            e.hints@.len() == self.hints@.len() + 1,
            e.hints@.take(self.hints@.len() as int) == self.hints@,
            e.hints@.last().0@ == hint@,
            e.recovery == self.recovery,
            e.retryable == self.retryable,
            e.retry_after == self.retry_after,
    {
        let mut e = self;
        e.hints.push(Hint::new(hint));
        assert(e.hints@.take(self.hints@.len() as int) =~= self.hints@);
        e
    }

    /// Attach a structured recovery hint, replacing any earlier one.
    pub fn recovery(self, r: RecoveryHint) -> (e: Self)
        ensures
            e == (DomainError { recovery: Some(r), ..self }),
    {
        DomainError { recovery: Some(r), ..self }
    }

    /// Override the default retryability.
    pub fn retryable(self, retryable: bool) -> (e: Self)
        ensures
            e == (DomainError { retryable: retryable, ..self }),
    {
        DomainError { retryable, ..self }
    }

    /// Attach a `Retry-After` delay.
    pub fn retry_after(self, d: Delay) -> (e: Self)
        ensures
            e == (DomainError { retry_after: Some(d), ..self }),
    {
        DomainError { retry_after: Some(d), ..self }
    }

    /// The process exit code when this error is fatal: always `1`.
    pub fn exit_code(&self) -> (c: i32)
        ensures
            c == 1,
    {
        1
    }

    /// `code: message`, as the error's `Display` reads.
    pub fn describe(&self) -> (s: String)
        ensures
            s@ == code_label(self.code) + seq![':', ' '] + self.message@,
    {
        let mut out = String::new();
        out.append(self.code.label());
        out.push(':');
        out.push(' ');
        out.append(self.message.as_str());
        out
    }

    /// The hints joined by line feeds, or `None` when there are none (the
    /// diagnostic's help text).
    pub fn help_text(&self) -> (s: Option<String>)
        ensures
            self.hints@.len() == 0 ==> s is None,
            self.hints@.len() > 0 ==> (s matches Some(t) && t@ == join(hint_texts(self.hints@), seq!['\n'])),
    {
        if self.hints.len() == 0 {
            return None;
        }
        let mut out = String::new();
        let ghost parts = hint_texts(self.hints@);
        let mut i: usize = 0;
        while i < self.hints.len()
            invariant
                i <= self.hints.len(),
                parts == hint_texts(self.hints@),
                out@ == join(parts.take(i as int), seq!['\n']),
            decreases self.hints.len() - i,
        {
            proof {
                lemma_join_step(parts, seq!['\n'], i as int);
            }
            if i > 0 {
                out.push('\n');
            }
            out.append(self.hints[i].as_str());
            i = i + 1;
        }
        assert(parts.take(self.hints.len() as int) =~= parts);
        Some(out)
    }

    /// Render as an agent-readable block with exit code, hints and recovery.
    pub fn render(&self) -> (s: String)
        ensures
            s@ == domain_error_text(*self),
    {
        let mut out = String::new();
        out.append("error: ");
        out.append(self.code.label());
        out.append("\nmessage: ");
        out.append(self.message.as_str());
        out.append("\nexit_code: 1\n");
        append_hints(&mut out, self.hints.as_slice());
        if let Some(r) = &self.recovery {
            append_one_recovery(&mut out, r);
        }
        out
    }

    /// Render as a GitHub Actions annotation (`::error title=code::message`),
    /// with line breaks percent-encoded to keep it on one line.
    pub fn render_github_annotation(&self) -> (s: String)
        ensures
            s@ == "::error title="@ + code_label(self.code) + seq![':', ':'] + annotation_message(
                self.message@,
            ),
    {
        let mut out = String::new();
        out.append("::error title=");
        out.append(self.code.label());
        out.push(':');
        out.push(':');
        let v = crate::text::chars_of(self.message.as_str());
        let ghost start = out@;
        let ghost parts = v@.map_values(|c: char| annotation_char(c));
        let mut i: usize = 0;
        while i < v.len()
            invariant
                i <= v.len(),
                v@ == self.message@,
                parts == v@.map_values(|c: char| annotation_char(c)),
                out@ == start + concat(parts.take(i as int)),
            decreases v.len() - i,
        {
            proof {
                lemma_concat_step(parts, i as int);
            }
            let c = v[i];
            if c == '\n' {
                out.push('%');
                out.push('0');
                out.push('A');
            } else if c == '\r' {
                out.push('%');
                out.push('0');
                out.push('D');
            } else {
                out.push(c);
            }
            i = i + 1;
        }
        assert(parts.take(v.len() as int) =~= parts);
        out
    }

    /// Render as a JSON object with the keys `isError`, `error`, `message`,
    /// `retryable`, `hints`, `recovery`.
    pub fn render_json(&self) -> (s: String)
        ensures
            s@ == domain_error_json(*self),
    {
        let mut out = String::new();
        out.append("{\"isError\":true,\"error\":");
        json_escape_str(&mut out, self.code.label());
        out.append(",\"message\":");
        json_escape_str(&mut out, self.message.as_str());
        out.append(",\"retryable\":");
        out.append(if self.retryable { "true" } else { "false" });
        out.append(",\"hints\":[");
        let ghost hstart = out@;
        let ghost parts = hint_texts(self.hints@).map_values(|h: Seq<char>| json_string(h));
        let mut i: usize = 0;
        while i < self.hints.len()
            invariant
                i <= self.hints.len(),
                parts == hint_texts(self.hints@).map_values(|h: Seq<char>| json_string(h)),
                out@ == hstart + join(parts.take(i as int), seq![',']),
            decreases self.hints.len() - i,
        {
            proof {
                lemma_join_step(parts, seq![','], i as int);
            }
            if i > 0 {
                out.push(',');
            }
            json_escape_str(&mut out, self.hints[i].as_str());
            i = i + 1;
        }
        assert(parts.take(self.hints.len() as int) =~= parts);
        out.append("],\"recovery\":");
        match &self.recovery {
            None => out.append("null"),
            Some(r) => push_recovery_json(&mut out, r),
        }
        out.push('}');
        out
    }

    /// The MCP result for this error: one assistant block with
    /// [`DomainError::render`], flagged as an error, with
    /// [`DomainError::render_json`] as structured content.
    pub fn to_call_tool_result(&self) -> (r: CallToolResult)
        ensures
            r.is_error,
            r.content@.len() == 1,
            r.content@[0].text@ == domain_error_text(*self),
            r.content@[0].audience@ == seq![Audience::Assistant],
            r.structured_content@ == domain_error_json(*self),
    {
        let mut audience: Vec<Audience> = Vec::new();
        audience.push(Audience::Assistant);
        let block = ContentBlock { text: self.render(), audience };
        let mut content: Vec<ContentBlock> = Vec::new();
        content.push(block);
        CallToolResult { content, is_error: true, structured_content: self.render_json() }
    }
}

/// The unified error type.
#[derive(Debug, Clone)]
#[non_exhaustive]
pub enum Error {
    /// Invalid or malformed input.
    InvalidInput(String),
    /// A required resource was not found.
    NotFound(String),
    /// A classified domain error with hints, recovery and retry metadata.
    Domain(DomainError),
}

/// The class of an error: a retryable domain error is `Transient`, another
/// domain error takes its code's class, the other variants are `User`.
pub open spec fn error_class(e: Error) -> ErrorClass {
    match e {
        Error::Domain(d) => if d.retryable {
            ErrorClass::Transient
        } else {
            code_default_class(d.code)
        },
        _ => ErrorClass::User,
    }
}

/// The message of an error, as its `Display` reads.
pub open spec fn error_message(e: Error) -> Seq<char> {
    match e {
        Error::InvalidInput(s) => "Invalid input: "@ + s@,
        Error::NotFound(s) => "Not found: "@ + s@,
        Error::Domain(d) => code_label(d.code) + seq![':', ' '] + d.message@,
    }
}

/// The plain-text rendering of an error.
pub open spec fn error_text(e: Error) -> Seq<char> {
    match e {
        Error::Domain(d) => domain_error_text(d),
        _ => "error: "@ + error_message(e),
    }
}

impl Error {
    /// The error's message.
    pub fn message(&self) -> (s: String)
        ensures
            s@ == error_message(*self),
    {
        match self {
            Error::InvalidInput(m) => {
                let mut out = String::new();
                out.append("Invalid input: ");
                out.append(m.as_str());
                out
            },
            Error::NotFound(m) => {
                let mut out = String::new();
                out.append("Not found: ");
                out.append(m.as_str());
                out
            },
            Error::Domain(d) => d.describe(),
        }
    }

    /// Render as agent-readable plain text.
    pub fn render(&self) -> (s: String)
        ensures
            s@ == error_text(*self),
    {
        match self {
            Error::Domain(d) => d.render(),
            _ => {
                let mut out = String::new();
                out.append("error: ");
                let m = self.message();
                out.append(m.as_str());
                out
            },
        }
    }

    /// The process exit code when this error is fatal: always `1`.
    pub fn exit_code(&self) -> (c: i32)
        ensures
            c == 1,
    {
        1
    }

    /// Classify this error for routing decisions.
    pub fn class(&self) -> (c: ErrorClass)
        ensures
            c == error_class(*self),
    {
        match self {
            Error::Domain(d) => if d.retryable {
                ErrorClass::Transient
            } else {
                d.code.default_class()
            },
            _ => ErrorClass::User,
        }
    }

    /// Whether this error is safe to retry automatically: exactly when it is
    /// `Transient`.
    pub fn is_retryable(&self) -> (b: bool)
        ensures
            b == (error_class(*self) == ErrorClass::Transient),
    {
        match self.class() {
            ErrorClass::Transient => true,
            _ => false,
        }
    }
}

impl From<DomainError> for Error {
    fn from(d: DomainError) -> Self {
        Error::Domain(d)
    }
}

impl vstd::std_specs::convert::FromSpecImpl<DomainError> for Error {
    open spec fn obeys_from_spec() -> bool {
        true
    }

    open spec fn from_spec(d: DomainError) -> Self {
        Error::Domain(d)
    }
}

/// Classes follow retryability. An error is `Transient`, and so retried,
/// exactly when it is a domain error flagged retryable; errors outside the
/// domain are always `User`; a code's default class is `Internal` exactly
/// for the codes retryable by default.
pub proof fn law_error_class(e: Error, c: ErrorCode)
    ensures
        (error_class(e) == ErrorClass::Transient) <==> (e matches Error::Domain(d) && d.retryable),
        !(e is Domain) ==> error_class(e) == ErrorClass::User,
        (code_default_class(c) == ErrorClass::Internal) <==> code_retryable_by_default(c),
        code_default_class(c) != ErrorClass::Transient,
{
}

/// A `Retry-After` delay is metadata only: it changes none of the plain
/// text, JSON or annotation renderings of a domain error.
pub proof fn law_retry_after_not_rendered(e: DomainError, d: Option<Delay>)
    ensures
        domain_error_text(DomainError { retry_after: d, ..e }) == domain_error_text(e),
        domain_error_json(DomainError { retry_after: d, ..e }) == domain_error_json(e),
{
}

/// A GitHub annotation stays on one line: every line feed and carriage
/// return of the message comes out percent-encoded.
pub proof fn law_annotation_single_line(code: ErrorCode, message: Seq<char>)
    ensures
        !("::error title="@ + code_label(code) + seq![':', ':'] + annotation_message(message)).contains('\n'),
        !("::error title="@ + code_label(code) + seq![':', ':'] + annotation_message(message)).contains('\r'),
{
    let parts = message.map_values(|c: char| annotation_char(c));
    assert forall|k: int| 0 <= k < parts.len() implies !(#[trigger] parts[k]).contains('\n') && !parts[k].contains(
        '\r',
    ) by {
        let p = parts[k];
        if p.contains('\n') || p.contains('\r') {
            let i = choose|i: int| 0 <= i < p.len() && (p[i] == '\n' || p[i] == '\r');
            assert(p[i] == '\n' || p[i] == '\r');
        }
    }
    lemma_concat_avoids(parts, '\n');
    lemma_concat_avoids(parts, '\r');
    reveal_strlit("::error title=");
    reveal_strlit("invalid_input");
    reveal_strlit("not_found");
    reveal_strlit("unauthorized");
    reveal_strlit("forbidden");
    reveal_strlit("conflict");
    reveal_strlit("rate_limited");
    reveal_strlit("unavailable");
    reveal_strlit("timeout");
    reveal_strlit("external_failure");
    let head = "::error title="@ + code_label(code) + seq![':', ':'];
    assert(!head.contains('\n') && !head.contains('\r')) by {
        if head.contains('\n') || head.contains('\r') {
            let i = choose|i: int| 0 <= i < head.len() && (head[i] == '\n' || head[i] == '\r');
            assert(head[i] == '\n' || head[i] == '\r');
        }
    }
    lemma_add_avoids(head, annotation_message(message), '\n');
    lemma_add_avoids(head, annotation_message(message), '\r');
}

} // verus!
