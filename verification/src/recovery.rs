//! Structured recovery hints: which tool an agent should call next, with
//! suggested parameters and a reason.
use vstd::prelude::*;

use crate::kv::{
    json_escape_str, json_string, kv_value_json, kv_value_text, kv_value_to_json, push_kv_value,
    KvValue,
};
use crate::text::{concat, decimal, join, lemma_concat_step, lemma_join_step, owned, push_usize};

verus! {

/// A structured recovery hint for an agent encountering an error.
#[derive(Debug, PartialEq)]
pub struct RecoveryHint {
    /// The tool the agent should call to recover.
    pub tool: String,
    /// Ordered parameters to call `tool` with.
    pub params: Vec<(String, KvValue)>,
    /// Why this recovery path applies.
    pub reason: Option<String>,
}

impl Clone for RecoveryHint {
    fn clone(&self) -> (r: Self)
        ensures
            r.tool == self.tool,
            r.params@ == self.params@,
            r.reason == self.reason,
    {
        let mut params: Vec<(String, KvValue)> = Vec::new();
        let mut i: usize = 0;
        while i < self.params.len()
            invariant
                i <= self.params.len(),
                params@ =~= self.params@.take(i as int),
            decreases self.params.len() - i,
        {
            let (k, v) = &self.params[i];
            params.push((k.clone(), v.clone()));
            i = i + 1;
        }
        assert(self.params@.take(self.params.len() as int) =~= self.params@);
        let reason = match &self.reason {
            Some(r) => Some(r.clone()),
            None => None,
        };
        RecoveryHint { tool: self.tool.clone(), params, reason }
    }
}

impl RecoveryHint {
    /// A hint naming just the tool to call.
    pub fn new(tool: &str) -> (h: Self)
        ensures
            h.tool@ == tool@,
            h.params@.len() == 0,
            h.reason is None,
    {
        RecoveryHint { tool: owned(tool), params: Vec::new(), reason: None }
    }

    /// Append a suggested parameter.
    pub fn param(self, key: &str, value: KvValue) -> (h: Self)
        ensures
            h.tool == self.tool,
            h.reason == self.reason,
            h.params@.len() == self.params@.len() + 1,
            h.params@.take(self.params@.len() as int) == self.params@,
            h.params@.last().0@ == key@,
            h.params@.last().1 == value,
    {
        let mut h = self;
        h.params.push((owned(key), value));
        assert(h.params@.take(self.params@.len() as int) =~= self.params@);
        h
    }

    /// Attach a reason.
    pub fn reason(self, reason: &str) -> (h: Self)
        ensures
            h.tool == self.tool,
            h.params == self.params,
            h.reason matches Some(r) && r@ == reason@,
    {
        RecoveryHint { reason: Some(owned(reason)), ..self }
    }
}

/// One suggested parameter: `key: value`.
pub open spec fn param_text(p: (String, KvValue)) -> Seq<char> {
    p.0@ + seq![':', ' '] + kv_value_text(p.1)
}

/// One recovery line: the tool, then `: suggestedParams: { k: v, ... }` when
/// there are parameters, then ` — reason` when there is one.
pub open spec fn recovery_line(h: RecoveryHint) -> Seq<char> {
    seq![' ', ' '] + h.tool@ + (if h.params@.len() == 0 {
        seq![]
    } else {
        ": suggestedParams: { "@ + join(h.params@.map_values(|p: (String, KvValue)| param_text(p)), seq![',', ' ']) + seq![' ', '}']
    }) + match h.reason {
        Some(r) => seq![' ', '\u{2014}', ' '] + r@,
        None => seq![],
    } + seq!['\n']
}

/// The recovery lines of a sequence of hints, without a header.
pub open spec fn recovery_lines(hints: Seq<RecoveryHint>) -> Seq<char> {
    concat(hints.map_values(|h: RecoveryHint| recovery_line(h)))
}

/// The `recovery[N]:` block; empty when there are no hints.
pub open spec fn recovery_block(hints: Seq<RecoveryHint>) -> Seq<char> {
    if hints.len() == 0 {
        seq![]
    } else {
        "recovery["@ + decimal(hints.len()) + seq![']', ':', '\n'] + recovery_lines(hints)
    }
}

/// Appends the suggested parameters, joined by `, `.
fn push_params(out: &mut String, params: &Vec<(String, KvValue)>)
    ensures
        final(out)@ == old(out)@ + join(params@.map_values(|p: (String, KvValue)| param_text(p)), seq![',', ' ']),
{
    let ghost pstart = out@;
    let ghost parts = params@.map_values(|p: (String, KvValue)| param_text(p));
    let mut i: usize = 0;
    while i < params.len()
        invariant
            i <= params.len(),
            parts == params@.map_values(|p: (String, KvValue)| param_text(p)),
            out@ == pstart + join(parts.take(i as int), seq![',', ' ']),
        decreases params.len() - i,
    {
        proof {
            lemma_join_step(parts, seq![',', ' '], i as int);
        }
        if i > 0 {
            out.push(',');
            out.push(' ');
        }
        let (k, v) = &params[i];
        out.append(k.as_str());
        out.push(':');
        out.push(' ');
        push_kv_value(out, v);
        i = i + 1;
    }
    assert(parts.take(params.len() as int) =~= parts);
}

/// Appends one recovery line.
pub(crate) fn push_recovery_line(out: &mut String, h: &RecoveryHint)
    ensures
        final(out)@ == old(out)@ + recovery_line(*h),
{
    let ghost start = out@;
    out.push(' ');
    out.push(' ');
    out.append(h.tool.as_str());
    let ghost after_tool = out@;
    if h.params.len() > 0 {
        out.append(": suggestedParams: { ");
        push_params(out, &h.params);
        out.push(' ');
        out.push('}');
    }
    let ghost after_params = out@;
    if let Some(reason) = &h.reason {
        out.push(' ');
        out.push('\u{2014}');
        out.push(' ');
        out.append(reason.as_str());
    }
    out.push('\n');
}

/// Appends the recovery lines of `hints`, without a header.
pub fn append_recovery_lines(out: &mut String, hints: &[RecoveryHint])
    ensures
        final(out)@ == old(out)@ + recovery_lines(hints@),
{
    let ghost start = out@;
    let ghost lines = hints@.map_values(|h: RecoveryHint| recovery_line(h));
    let mut i: usize = 0;
    while i < hints.len()
        invariant
            i <= hints.len(),
            lines == hints@.map_values(|h: RecoveryHint| recovery_line(h)),
            out@ == start + concat(lines.take(i as int)),
        decreases hints.len() - i,
    {
        proof {
            lemma_concat_step(lines, i as int);
        }
        push_recovery_line(out, &hints[i]);
        i = i + 1;
    }
    assert(lines.take(hints.len() as int) =~= lines);
}

/// Append a `recovery[N]:` block (nothing when there are no hints).
pub fn append_recovery(out: &mut String, hints: &[RecoveryHint])
    ensures
        final(out)@ == old(out)@ + recovery_block(hints@),
{
    if hints.len() == 0 {
        return;
    }
    out.append("recovery[");
    push_usize(out, hints.len());
    out.push(']');
    out.push(':');
    out.push('\n');
    append_recovery_lines(out, hints);
}

/// Render a `recovery[N]:` block; empty when there are no hints.
pub fn render_recovery(hints: &[RecoveryHint]) -> (s: String)
    ensures
        s@ == recovery_block(hints@),
{
    let mut out = String::new();
    append_recovery(&mut out, hints);
    out
}

/// Append a `recovery[1]:` block for a single hint.
pub fn append_one_recovery(out: &mut String, h: &RecoveryHint)
    ensures
        final(out)@ == old(out)@ + recovery_block(seq![*h]),
{
    out.append("recovery[");
    push_usize(out, 1);
    out.push(']');
    out.push(':');
    out.push('\n');
    let ghost mid = out@;
    push_recovery_line(out, h);
    proof {
        let lines = seq![*h].map_values(|x: RecoveryHint| recovery_line(x));
        assert(lines =~= seq![recovery_line(*h)]);
        assert(lines.drop_last() =~= Seq::<Seq<char>>::empty());
        assert(concat(lines.drop_last()) =~= Seq::<char>::empty());
        assert(lines.last() == recovery_line(*h));
        assert(concat(lines) =~= recovery_line(*h));
    }
}

/// The JSON rendering of one parameter: `"key":value`.
pub open spec fn param_json(p: (String, KvValue)) -> Seq<char> {
    json_string(p.0@) + seq![':'] + kv_value_json(p.1)
}

/// The JSON object of a recovery hint: `tool`, `params` (an object in
/// parameter order) and, only when present, `reason`.
pub open spec fn recovery_json(h: RecoveryHint) -> Seq<char> {
    "{\"tool\":"@ + json_string(h.tool@) + ",\"params\":{"@ + join(
        h.params@.map_values(|p: (String, KvValue)| param_json(p)),
        seq![','],
    ) + seq!['}'] + match h.reason {
        Some(r) => ",\"reason\":"@ + json_string(r@),
        None => seq![],
    } + seq!['}']
}

/// Appends the JSON object of a recovery hint.
pub fn push_recovery_json(out: &mut String, h: &RecoveryHint)
    ensures
        final(out)@ == old(out)@ + recovery_json(*h),
{
    out.append("{\"tool\":");
    json_escape_str(out, h.tool.as_str());
    out.append(",\"params\":{");
    let ghost pstart = out@;
    let ghost parts = h.params@.map_values(|p: (String, KvValue)| param_json(p));
    let mut j: usize = 0;
    while j < h.params.len()
        invariant
            j <= h.params.len(),
            parts == h.params@.map_values(|p: (String, KvValue)| param_json(p)),
            out@ == pstart + join(parts.take(j as int), seq![',']),
        decreases h.params.len() - j,
    {
        proof {
            lemma_join_step(parts, seq![','], j as int);
        }
        if j > 0 {
            out.push(',');
        }
        let (k, v) = &h.params[j];
        json_escape_str(out, k.as_str());
        out.push(':');
        kv_value_to_json(out, v);
        j = j + 1;
    }
    assert(parts.take(h.params.len() as int) =~= parts);
    out.push('}');
    if let Some(reason) = &h.reason {
        out.append(",\"reason\":");
        json_escape_str(out, reason.as_str());
    }
    out.push('}');
}

} // verus!
