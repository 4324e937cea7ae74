//! Char-boundary safe truncation with an agent-readable signal suffix.
use vstd::prelude::*;

use crate::text::{chars_of, decimal, opt_view, owned, push_slice, push_usize, string_of};

verus! {

/// Result of a truncation.
#[derive(Debug, Clone, PartialEq)]
#[non_exhaustive]
pub struct Truncated {
    /// The truncated (or unchanged) content.
    pub content: String,
    /// Byte length of the input.
    pub original_len: usize,
    /// Whether truncation happened.
    pub was_truncated: bool,
    /// The part of the signal text that made it into `content`, without its
    /// leading space; `None` when nothing was truncated or no signal fit.
    pub signal: Option<String>,
}

/// The signal appended on truncation: ` ({n} chars truncated — use {hint})`.
pub open spec fn truncation_suffix(char_count: nat, hint: Seq<char>) -> Seq<char> {
    " ("@ + decimal(char_count) + " chars truncated \u{2014} use "@ + hint + ")"@
}

/// How many characters of the content survive: `max` minus the suffix
/// length, saturating at zero.
pub open spec fn kept_chars(max: nat, suffix_len: nat) -> nat {
    if suffix_len <= max {
        (max - suffix_len) as nat
    } else {
        0
    }
}

/// Truncated text: unchanged when it fits in `max` characters, otherwise the
/// kept prefix followed by the suffix, hard-capped at `max` characters.
pub open spec fn truncated_text(content: Seq<char>, max: nat, hint: Seq<char>) -> Seq<char> {
    if content.len() <= max {
        content
    } else {
        let suffix = truncation_suffix(content.len(), hint);
        (content.take(kept_chars(max, suffix.len()) as int) + suffix).take(max as int)
    }
}

/// The signal recorded next to a truncation: what follows the kept prefix,
/// with its leading space removed, when anything beyond that space fit.
pub open spec fn truncation_signal(content: Seq<char>, max: nat, hint: Seq<char>) -> Option<Seq<char>> {
    if content.len() <= max {
        None
    } else {
        let suffix = truncation_suffix(content.len(), hint);
        let tail = truncated_text(content, max, hint).skip(kept_chars(max, suffix.len()) as int);
        if tail.len() >= 2 {
            Some(tail.drop_first())
        } else {
            None
        }
    }
}

/// Truncate `content` to at most `max_chars` characters, appending
/// ` ({n} chars truncated — use {hint})` when it does not fit.
pub fn truncate(content: &str, max_chars: usize, hint: &str) -> (t: Truncated)
    ensures
        t.content@ == truncated_text(content@, max_chars as nat, hint@),
        t.original_len == content.len(),
        t.was_truncated == (content@.len() > max_chars),
        opt_view(t.signal) == truncation_signal(content@, max_chars as nat, hint@),
{
    let original_len = content.len();
    let chars = chars_of(content);
    let n = chars.len();
    if n <= max_chars {
        return Truncated { content: owned(content), original_len, was_truncated: false, signal: None };
    }
    let mut suffix = String::new();
    suffix.append(" (");
    push_usize(&mut suffix, n);
    suffix.append(" chars truncated \u{2014} use ");
    suffix.append(hint);
    suffix.append(")");
    let suffix_chars = chars_of(suffix.as_str());
    let sl = suffix_chars.len();
    let keep = if sl <= max_chars {
        max_chars - sl
    } else {
        0
    };
    let room = max_chars - keep;
    let tail_len = if sl <= room {
        sl
    } else {
        room
    };
    let mut result = String::new();
    push_slice(&mut result, &chars, 0, keep);
    push_slice(&mut result, &suffix_chars, 0, tail_len);
    let signal = if tail_len >= 2 {
        Some(string_of(&suffix_chars, 1, tail_len))
    } else {
        None
    };
    proof {
        let ghost sfx = truncation_suffix(content@.len(), hint@);
        assert(suffix_chars@ == sfx);
        assert(keep == kept_chars(max_chars as nat, sfx.len()));
        let ghost whole = content@.take(keep as int) + sfx;
        assert(result@ =~= whole.take(max_chars as int));
        assert(whole.take(max_chars as int).skip(keep as int) =~= sfx.take(tail_len as int));
    }
    Truncated { content: result, original_len, was_truncated: true, signal }
}

/// Truncate for inline use; returns only the resulting text.
pub fn truncate_inline(content: &str, max_chars: usize, hint: &str) -> (s: String)
    ensures
        s@ == truncated_text(content@, max_chars as nat, hint@),
{
    truncate(content, max_chars, hint).content
}

/// Truncation never exceeds the limit. Text that fits comes back unchanged;
/// text that does not comes back with exactly `max` characters, beginning
/// with the kept prefix of the input.
pub proof fn law_truncation_bounds(content: Seq<char>, max: nat, hint: Seq<char>)
    ensures
        truncated_text(content, max, hint).len() <= max,
        content.len() <= max ==> truncated_text(content, max, hint) == content,
        content.len() > max ==> truncated_text(content, max, hint).len() == max,
        content.len() > max ==> ({
            let k = kept_chars(max, truncation_suffix(content.len(), hint).len());
            &&& k <= max
            &&& truncated_text(content, max, hint).take(k as int) == content.take(k as int)
        }),
{
    if content.len() > max {
        let sfx = truncation_suffix(content.len(), hint);
        let k = kept_chars(max, sfx.len());
        let whole = content.take(k as int) + sfx;
        assert(whole.len() >= max);
        assert(whole.take(max as int).take(k as int) =~= content.take(k as int));
    }
}

} // verus!
