//! Health and status responses: the tool's name and purpose first, then its
//! components, each with an optional health annotation.
use vstd::prelude::*;

use crate::hints::Hint;
use crate::kv::{
    kv_block, kv_entries, kv_value_text, lemma_block_lines, lemma_value_no_lines, push_kv_value, render_kv,
    value_single_line, without_line_breaks, KvItem, KvValue,
};
use crate::text::{lemma_no_line_feed, line_count, owned};

verus! {

/// Health classification of a status item.
#[derive(Debug, Clone, PartialEq, Eq)]
#[non_exhaustive]
pub enum Health {
    /// Operating normally; shown without annotation.
    Healthy,
    /// Degraded but serving, with a short reason.
    Degraded(String),
    /// Not serving, with a short reason.
    Error(String),
}

/// A named component with a value and an optional health signal.
#[derive(Debug, Clone, PartialEq)]
pub struct StatusItem {
    /// Component key, e.g. `"index"`.
    pub key: String,
    /// The component's value.
    pub value: KvValue,
    /// Optional health signal.
    pub health: Option<Health>,
}

/// Content-first orientation response.
#[derive(Debug, Clone, PartialEq)]
#[non_exhaustive]
pub struct StatusResponse {
    /// The tool's name, shown first.
    pub tool_name: String,
    /// One-line description, shown second.
    pub description: String,
    /// Component statuses.
    pub items: Vec<StatusItem>,
    /// Contextual hints for the agent.
    pub hints: Vec<Hint>,
}

/// A value with a health annotation: `value  [LABEL: reason]`.
pub open spec fn annotated(value: KvValue, label: Seq<char>, reason: Seq<char>) -> Seq<char> {
    kv_value_text(value) + seq![' ', ' ', '['] + label + seq![':', ' '] + reason + seq![']']
}

/// The key and rendered value of a status item: unannotated when healthy or
/// unknown, otherwise annotated with `DEGRADED` or `ERROR` and the reason
/// (line breaks dropped from the whole).
pub open spec fn status_entry(item: StatusItem) -> (Seq<char>, Seq<char>) {
    (
        item.key@,
        match item.health {
            Some(Health::Degraded(r)) => without_line_breaks(annotated(item.value, "DEGRADED"@, r@)),
            Some(Health::Error(r)) => without_line_breaks(annotated(item.value, "ERROR"@, r@)),
            _ => kv_value_text(item.value),
        },
    )
}

/// The text of a status response: a key-value block led by `tool` and
/// `description`, then every item, then the hints.
pub open spec fn status_text(r: StatusResponse) -> Seq<char> {
    kv_block(
        seq![("tool"@, without_line_breaks(r.tool_name@)), ("description"@, without_line_breaks(r.description@))]
            + r.items@.map_values(|it: StatusItem| status_entry(it)),
        None,
        r.hints@,
    )
}

fn annotate(value: &KvValue, label: &str, reason: &str) -> (v: KvValue)
    ensures
        v matches KvValue::Text(s) && s@ == annotated(*value, label@, reason@),
{
    let mut display = String::new();
    push_kv_value(&mut display, value);
    display.push(' ');
    display.push(' ');
    display.push('[');
    display.append(label);
    display.push(':');
    display.push(' ');
    display.append(reason);
    display.push(']');
    KvValue::Text(display)
}

impl StatusResponse {
    /// A status response without hints.
    pub fn new(tool_name: &str, description: &str, items: Vec<StatusItem>) -> (r: Self)
        ensures
            r.tool_name@ == tool_name@,
            r.description@ == description@,
            r.items == items,
            r.hints@.len() == 0,
    {
        StatusResponse {
            tool_name: owned(tool_name),
            description: owned(description),
            items,
            hints: Vec::new(),
        }
    }

    /// Attach hints.
    pub fn with_hints(self, hints: Vec<Hint>) -> (r: Self)
        ensures
            r == (StatusResponse { hints: hints, ..self }),
    {
        StatusResponse { hints, ..self }
    }

    /// Render as an agent-readable key-value block.
    pub fn render(&self) -> (s: String)
        ensures
            s@ == status_text(*self),
    {
        let mut kv_items: Vec<KvItem> = Vec::new();
        kv_items.push(KvItem { key: owned("tool"), value: KvValue::Text(self.tool_name.clone()) });
        kv_items.push(
            KvItem { key: owned("description"), value: KvValue::Text(self.description.clone()) },
        );
        let ghost head = seq![("tool"@, without_line_breaks(self.tool_name@)), ("description"@, without_line_breaks(self.description@))];
        assert(kv_entries(kv_items@) =~= head);
        let ghost entries = self.items@.map_values(|it: StatusItem| status_entry(it));
        let mut i: usize = 0;
        while i < self.items.len()
            invariant
                i <= self.items.len(),
                entries == self.items@.map_values(|it: StatusItem| status_entry(it)),
                kv_entries(kv_items@) =~= head + entries.take(i as int),
            decreases self.items.len() - i,
        {
            let item = &self.items[i];
            let value = match &item.health {
                Some(Health::Degraded(reason)) => annotate(&item.value, "DEGRADED", reason.as_str()),
                Some(Health::Error(reason)) => annotate(&item.value, "ERROR", reason.as_str()),
                _ => item.value.clone(),
            };
            let ghost before = kv_items@;
            kv_items.push(KvItem { key: item.key.clone(), value });
            proof {
                assert(kv_items@ == before.push(kv_items@.last()));
                assert(kv_entries(kv_items@) =~= kv_entries(before).push(status_entry(self.items@[i as int])));
                assert(entries.take(i + 1) =~= entries.take(i as int).push(entries[i as int]));
            }
            i = i + 1;
        }
        assert(entries.take(self.items.len() as int) =~= entries);
        render_kv(kv_items.as_slice(), None, self.hints.as_slice())
    }
}

/// A healthy component renders exactly as one with no health signal.
pub proof fn law_healthy_is_unannotated(item: StatusItem)
    ensures
        status_entry(StatusItem { health: Some(Health::Healthy), ..item }) == status_entry(
            StatusItem { health: None, ..item },
        ),
{
}

/// A status block keeps one line per component after its `tool` and
/// `description` lines, then a `help[N]:` line and one line per hint,
/// whenever no component key or hint holds a line feed and no float or
/// duration text does.
pub proof fn law_status_lines(r: StatusResponse)
    requires
        forall|i: int|
            0 <= i < r.items@.len() ==> !(#[trigger] r.items@[i]).key@.contains('\n') && value_single_line(
                r.items@[i].value,
            ),
        forall|i: int| 0 <= i < r.hints@.len() ==> !(#[trigger] r.hints@[i]).0@.contains('\n'),
    ensures
        line_count(status_text(r)) == 2 + r.items@.len() + (if r.hints@.len() > 0 {
            r.hints@.len() + 1
        } else {
            0nat
        }),
{
    let head = seq![
        ("tool"@, without_line_breaks(r.tool_name@)),
        ("description"@, without_line_breaks(r.description@)),
    ];
    let rest = r.items@.map_values(|it: StatusItem| status_entry(it));
    let entries = head + rest;
    assert forall|i: int| 0 <= i < entries.len() implies !(#[trigger] entries[i]).0.contains('\n') && line_count(
        entries[i].1,
    ) == 0 by {
        if i < 2 {
            reveal_strlit("tool");
            reveal_strlit("description");
            let s = if i == 0 { r.tool_name@ } else { r.description@ };
            assert(entries[i] == head[i]);
            lemma_no_breaks(s);
        } else {
            let it = r.items@[i - 2];
            assert(entries[i] == rest[i - 2]);
            match it.health {
                Some(Health::Degraded(reason)) => {
                    lemma_no_breaks(annotated(it.value, "DEGRADED"@, reason@));
                },
                Some(Health::Error(reason)) => {
                    lemma_no_breaks(annotated(it.value, "ERROR"@, reason@));
                },
                _ => {
                    lemma_value_no_lines(it.value);
                },
            }
        }
    }
    lemma_block_lines(entries, None, r.hints@);
}

proof fn lemma_no_breaks(s: Seq<char>)
    ensures
        line_count(without_line_breaks(s)) == 0,
{
    let pred = |c: char| c != '\n' && c != '\r';
    let t = s.filter(pred);
    assert forall|i: int| 0 <= i < t.len() implies t[i] != '\n' by {
        s.lemma_filter_pred(pred, i);
    }
    lemma_no_line_feed(t);
}

} // verus!
