//! The agent response builder: one value that renders as a TOON list, a
//! key-value block, a JSON object or an MCP tool result.
use vstd::prelude::*;

use crate::audience::Audience;
use crate::hints::{append_hints, hint_texts, hints_block, render_hints, Hint};
use crate::kv::{json_escape_str, json_string, kv_text, render_kv, KvItem};
use crate::mcp::{CallToolResult, ContentBlock};
use crate::recovery::{append_recovery, push_recovery_json, recovery_block, recovery_json, RecoveryHint};
use crate::text::{bool_text, join, lemma_join_step, opt_view, owned};
use crate::toon::{
    lemma_validation_message, rows_view, strings_view, toon_text, validation_answer,
    validation_message, ToonOptions, Value,
};

verus! {

/// The serialisation format for [`AgentResponse::render`].
#[derive(Debug, Clone, Copy, PartialEq, Eq, Structural)]
#[non_exhaustive]
pub enum OutputFormat {
    /// Plain-text TOON / key-value format. The default.
    Text,
    /// Compact JSON object.
    Json,
}

impl Default for OutputFormat {
    fn default() -> (f: Self)
        ensures
            f == OutputFormat::Text,
    {
        OutputFormat::Text
    }
}

/// Which body the text rendering uses.
#[derive(Debug, Clone, Copy, PartialEq, Eq, Structural)]
enum RenderTarget {
    Unset,
    Toon,
    Kv,
}

/// Default per-cell truncation limit used by [`AgentResponse::new`].
pub const DEFAULT_TRUNCATE_CELLS: usize = 200;

/// Builder for an agent-facing response.
#[derive(Debug, Clone)]
#[non_exhaustive]
pub struct AgentResponse {
    type_label: String,
    target: RenderTarget,
    items: Vec<Vec<Value>>,
    fields: Vec<String>,
    single_item: Vec<KvItem>,
    total_count: Option<usize>,
    hints: Vec<Hint>,
    recovery: Vec<RecoveryHint>,
    truncate_cells_at: usize,
    is_error: bool,
    human_content: Option<String>,
}

/// What a response holds, as its renderings read it.
pub struct ResponseView {
    /// The type name of the TOON list.
    pub type_label: Seq<char>,
    /// Whether the key-value path was the last one chosen.
    pub kv_path: bool,
    /// The rows of the TOON list.
    pub items: Seq<Seq<Value>>,
    /// The field names of the TOON list.
    pub fields: Seq<Seq<char>>,
    /// The items of the key-value path.
    pub single_item: Seq<KvItem>,
    /// The total available count.
    pub total_count: Option<usize>,
    /// Contextual hints, in order.
    pub hints: Seq<Hint>,
    /// Recovery hints, in order.
    pub recovery: Seq<RecoveryHint>,
    /// The cell length limit of the TOON path.
    pub truncate_cells_at: usize,
    /// Whether the response is an error state.
    pub is_error: bool,
    /// The human-facing companion text.
    pub human_content: Option<Seq<char>>,
}

impl View for AgentResponse {
    type V = ResponseView;

    closed spec fn view(&self) -> ResponseView {
        ResponseView {
            type_label: self.type_label@,
            kv_path: self.target == RenderTarget::Kv,
            items: rows_view(self.items@),
            fields: strings_view(self.fields@),
            single_item: self.single_item@,
            total_count: self.total_count,
            hints: self.hints@,
            recovery: self.recovery@,
            truncate_cells_at: self.truncate_cells_at,
            is_error: self.is_error,
            human_content: opt_view(self.human_content),
        }
    }
}

/// The TOON body: the list when it passes validation, otherwise an
/// `error: toon_validation_failed` block naming the broken rule.
pub open spec fn toon_body_text(v: ResponseView) -> Seq<char> {
    if validation_answer(v.type_label, v.fields, v.items, Ok(())) {
        toon_text(v.type_label, v.fields, v.items, v.total_count, seq![], v.truncate_cells_at as nat)
    } else {
        "error: toon_validation_failed\nmessage: "@ + validation_message(v.type_label, v.fields, v.items)
            + seq!['\n']
    }
}

/// The key-value body.
pub open spec fn kv_body_text(v: ResponseView) -> Seq<char> {
    kv_text(v.single_item, v.total_count, seq![])
}

/// The body the text rendering uses: key-value when that path was chosen
/// last, TOON otherwise.
pub open spec fn body_text(v: ResponseView) -> Seq<char> {
    if v.kv_path {
        kv_body_text(v)
    } else {
        toon_body_text(v)
    }
}

/// A body followed by the hint block and the recovery block.
pub open spec fn finished_text(v: ResponseView, body: Seq<char>) -> Seq<char> {
    body + hints_block(v.hints) + recovery_block(v.recovery)
}

/// The text rendering.
pub open spec fn response_text(v: ResponseView) -> Seq<char> {
    finished_text(v, body_text(v))
}

/// The JSON rendering: `body`, `hints`, `recovery` and `isError`.
pub open spec fn response_json(v: ResponseView) -> Seq<char> {
    "{\"body\":"@ + json_string(body_text(v)) + ",\"hints\":["@ + join(
        hint_texts(v.hints).map_values(|h: Seq<char>| json_string(h)),
        seq![','],
    ) + "],\"recovery\":["@ + join(v.recovery.map_values(|r: RecoveryHint| recovery_json(r)), seq![','])
        + "],\"isError\":"@ + bool_text(v.is_error) + seq!['}']
}

/// The rendering of a format.
pub open spec fn rendered(v: ResponseView, format: OutputFormat) -> Seq<char> {
    match format {
        OutputFormat::Text => response_text(v),
        OutputFormat::Json => response_json(v),
    }
}

/// A copy of a list of strings.
fn copy_strings(v: &Vec<String>) -> (r: Vec<String>)
    ensures
        strings_view(r@) == strings_view(v@),
{
    let mut r: Vec<String> = Vec::new();
    let mut i: usize = 0;
    while i < v.len()
        invariant
            i <= v.len(),
            r@.len() == i,
            forall|j: int| 0 <= j < i ==> (#[trigger] r@[j])@ == v@[j]@,
        decreases v.len() - i,
    {
        r.push(v[i].clone());
        i = i + 1;
    }
    assert(strings_view(r@) =~= strings_view(v@));
    r
}

/// A copy of one row.
fn copy_row(v: &Vec<Value>) -> (r: Vec<Value>)
    ensures
        r@ == v@,
{
    let mut r: Vec<Value> = Vec::new();
    let mut i: usize = 0;
    while i < v.len()
        invariant
            i <= v.len(),
            r@ =~= v@.take(i as int),
        decreases v.len() - i,
    {
        r.push(v[i].clone());
        i = i + 1;
    }
    assert(v@.take(v.len() as int) =~= v@);
    r
}

/// A copy of a list of rows.
fn copy_rows(v: &Vec<Vec<Value>>) -> (r: Vec<Vec<Value>>)
    ensures
        rows_view(r@) == rows_view(v@),
{
    let mut r: Vec<Vec<Value>> = Vec::new();
    let mut i: usize = 0;
    while i < v.len()
        invariant
            i <= v.len(),
            r@.len() == i,
            forall|j: int| 0 <= j < i ==> (#[trigger] r@[j])@ == v@[j]@,
        decreases v.len() - i,
    {
        r.push(copy_row(&v[i]));
        i = i + 1;
    }
    assert(rows_view(r@) =~= rows_view(v@));
    r
}

impl AgentResponse {
    /// A new, empty response for the given type name.
    pub fn new(type_label: &str) -> (r: Self)
        ensures
            r@ == (ResponseView {
                type_label: type_label@,
                kv_path: false,
                items: seq![],
                fields: seq![],
                single_item: seq![],
                total_count: None,
                hints: seq![],
                recovery: seq![],
                truncate_cells_at: DEFAULT_TRUNCATE_CELLS,
                is_error: false,
                human_content: None,
            }),
    {
        let r = AgentResponse {
            type_label: owned(type_label),
            target: RenderTarget::Unset,
            items: Vec::new(),
            fields: Vec::new(),
            single_item: Vec::new(),
            total_count: None,
            hints: Vec::new(),
            recovery: Vec::new(),
            truncate_cells_at: DEFAULT_TRUNCATE_CELLS,
            is_error: false,
            human_content: None,
        };
        assert(r@.items =~= Seq::<Seq<Value>>::empty());
        assert(r@.fields =~= Seq::<Seq<char>>::empty());
        r
    }

    /// Populate the TOON list path.
    pub fn items(self, rows: Vec<Vec<Value>>, fields: &[&str]) -> (r: Self)
        ensures
            r@ == (ResponseView {
                items: rows_view(rows@),
                fields: fields@.map_values(|s: &str| s@),
                kv_path: false,
                ..self@
            }),
    {
        let mut names: Vec<String> = Vec::new();
        let mut i: usize = 0;
        while i < fields.len()
            invariant
                i <= fields.len(),
                names@.len() == i,
                forall|j: int| 0 <= j < i ==> (#[trigger] names@[j])@ == fields@[j]@,
            decreases fields.len() - i,
        {
            names.push(owned(fields[i]));
            i = i + 1;
        }
        assert(strings_view(names@) =~= fields@.map_values(|s: &str| s@));
        AgentResponse { items: rows, fields: names, target: RenderTarget::Toon, ..self }
    }

    /// Set the total available count.
    pub fn total_count(self, n: usize) -> (r: Self)
        ensures
            r@ == (ResponseView { total_count: Some(n), ..self@ }),
    {
        AgentResponse { total_count: Some(n), ..self }
    }

    /// Populate the key-value single-item path.
    pub fn kv_items(self, items: Vec<KvItem>) -> (r: Self)
        ensures
            r@ == (ResponseView { single_item: items@, kv_path: true, ..self@ }),
    {
        AgentResponse { single_item: items, target: RenderTarget::Kv, ..self }
    }

    /// Append a contextual hint.
    pub fn hint(self, hint: &str) -> (r: Self)
        ensures
            r@.hints.len() == self@.hints.len() + 1,
            r@.hints.take(self@.hints.len() as int) == self@.hints,
            r@.hints.last().0@ == hint@,
            r@ == (ResponseView { hints: r@.hints, ..self@ }),
    {
        let mut r = self;
        r.hints.push(Hint::new(hint));
        assert(r.hints@.take(self.hints@.len() as int) =~= self.hints@);
        r
    }

    /// Replace all contextual hints.
    pub fn hints(self, hints: Vec<Hint>) -> (r: Self)
        ensures
            r@ == (ResponseView { hints: hints@, ..self@ }),
    {
        AgentResponse { hints, ..self }
    }

    /// Append a recovery hint.
    pub fn recovery_hint(self, h: RecoveryHint) -> (r: Self)
        ensures
            r@ == (ResponseView { recovery: self@.recovery.push(h), ..self@ }),
    {
        let mut r = self;
        r.recovery.push(h);
        r
    }

    /// Set the longest string cell of the TOON path before inline truncation.
    pub fn truncate_cells_at(self, limit: usize) -> (r: Self)
        ensures
            r@ == (ResponseView { truncate_cells_at: limit, ..self@ }),
    {
        AgentResponse { truncate_cells_at: limit, ..self }
    }

    /// Mark this response as an error state.
    pub fn as_error(self) -> (r: Self)
        ensures
            r@ == (ResponseView { is_error: true, ..self@ }),
    {
        AgentResponse { is_error: true, ..self }
    }

    /// Attach a human-facing companion block (`audience: user`).
    pub fn human_content(self, text: &str) -> (r: Self)
        ensures
            r@ == (ResponseView { human_content: Some(text@), ..self@ }),
    {
        AgentResponse { human_content: Some(owned(text)), ..self }
    }

    fn toon_body(&self) -> (s: String)
        ensures
            s@ == toon_body_text(self@),
    {
        let opts = ToonOptions::new(
            self.type_label.clone(),
            copy_strings(&self.fields),
            copy_rows(&self.items),
        ).total_count(self.total_count).max_cell_len(self.truncate_cells_at);
        assert(strings_view(opts.hints@) =~= Seq::<Seq<char>>::empty());
        match opts.validate() {
            Ok(doc) => doc.render(),
            Err(e) => {
                proof {
                    lemma_validation_message(self@.type_label, self@.fields, self@.items, e);
                }
                let mut out = String::new();
                out.append("error: toon_validation_failed\nmessage: ");
                out.append(e.message().as_str());
                out.push('\n');
                out
            },
        }
    }

    fn kv_body(&self) -> (s: String)
        ensures
            s@ == kv_body_text(self@),
    {
        let no_hints: Vec<Hint> = Vec::new();
        render_kv(self.single_item.as_slice(), self.total_count, no_hints.as_slice())
    }

    fn body(&self) -> (s: String)
        ensures
            s@ == body_text(self@),
    {
        match self.target {
            RenderTarget::Toon | RenderTarget::Unset => self.toon_body(),
            RenderTarget::Kv => self.kv_body(),
        }
    }

    fn finish_text(&self, body: String) -> (s: String)
        ensures
            s@ == finished_text(self@, body@),
    {
        let mut out = body;
        append_hints(&mut out, self.hints.as_slice());
        append_recovery(&mut out, self.recovery.as_slice());
        out
    }

    /// Render the response in the requested format.
    pub fn render(&self, format: OutputFormat) -> (s: String)
        ensures
            s@ == rendered(self@, format),
    {
        match format {
            OutputFormat::Text => self.render_text(),
            OutputFormat::Json => self.render_json(),
        }
    }

    /// Render through the TOON path, whichever path was chosen last.
    pub fn render_toon(&self) -> (s: String)
        ensures
            s@ == finished_text(self@, toon_body_text(self@)),
    {
        self.finish_text(self.toon_body())
    }

    /// Render through the key-value path, whichever path was chosen last.
    pub fn render_kv(&self) -> (s: String)
        ensures
            s@ == finished_text(self@, kv_body_text(self@)),
    {
        self.finish_text(self.kv_body())
    }

    fn render_text(&self) -> (s: String)
        ensures
            s@ == response_text(self@),
    {
        self.finish_text(self.body())
    }

    /// Render just the `help[N]:` block of the hints.
    pub fn render_hints_only(&self) -> (s: String)
        ensures
            s@ == hints_block(self@.hints),
    {
        render_hints(self.hints.as_slice())
    }

    /// Render for the given audience: the user gets the human-facing text
    /// when there is one, and otherwise the text rendering.
    pub fn render_for(&self, audience: Audience) -> (s: String)
        ensures
            s@ == match (audience, self@.human_content) {
                (Audience::User, Some(h)) => h,
                _ => response_text(self@),
            },
    {
        match audience {
            Audience::Assistant => self.render_text(),
            Audience::User => match &self.human_content {
                Some(h) => h.clone(),
                None => self.render_text(),
            },
        }
    }

    /// Whether a human-facing companion text was set.
    pub fn has_human_content(&self) -> (b: bool)
        ensures
            b == self@.human_content is Some,
    {
        self.human_content.is_some()
    }

    /// The MCP result: an assistant block with the text rendering, a user
    /// block with the human-facing text when there is one, the error flag,
    /// and the JSON rendering as structured content.
    pub fn to_call_tool_result(&self) -> (r: CallToolResult)
        ensures
            r.is_error == self@.is_error,
            r.content@.len() == if self@.human_content is Some { 2int } else { 1int },
            r.content@[0].text@ == response_text(self@),
            r.content@[0].audience@ == seq![Audience::Assistant],
            self@.human_content matches Some(h) ==> r.content@[1].text@ == h && r.content@[1].audience@
                == seq![Audience::User],
            r.structured_content@ == response_json(self@),
    {
        let mut assistant: Vec<Audience> = Vec::new();
        assistant.push(Audience::Assistant);
        let mut content: Vec<ContentBlock> = Vec::new();
        content.push(ContentBlock { text: self.render_text(), audience: assistant });
        match &self.human_content {
            Some(human) => {
                let mut user: Vec<Audience> = Vec::new();
                user.push(Audience::User);
                content.push(ContentBlock { text: human.clone(), audience: user });
            },
            None => {},
        }
        CallToolResult { content, is_error: self.is_error, structured_content: self.render_json() }
    }

    /// Render as a JSON object with the keys `body`, `hints`, `recovery`
    /// and `isError`.
    pub fn render_json(&self) -> (s: String)
        ensures
            s@ == response_json(self@),
    {
        let body = self.body();
        let mut out = String::new();
        out.append("{\"body\":");
        json_escape_str(&mut out, body.as_str());
        out.append(",\"hints\":[");
        let ghost hstart = out@;
        let ghost hparts = hint_texts(self.hints@).map_values(|h: Seq<char>| json_string(h));
        let mut i: usize = 0;
        while i < self.hints.len()
            invariant
                i <= self.hints.len(),
                hparts == hint_texts(self.hints@).map_values(|h: Seq<char>| json_string(h)),
                out@ == hstart + join(hparts.take(i as int), seq![',']),
            decreases self.hints.len() - i,
        {
            proof {
                lemma_join_step(hparts, seq![','], i as int);
            }
            if i > 0 {
                out.push(',');
            }
            json_escape_str(&mut out, self.hints[i].as_str());
            i = i + 1;
        }
        assert(hparts.take(self.hints.len() as int) =~= hparts);
        out.append("],\"recovery\":[");
        let ghost rstart = out@;
        let ghost rparts = self.recovery@.map_values(|r: RecoveryHint| recovery_json(r));
        let mut j: usize = 0;
        while j < self.recovery.len()
            invariant
                j <= self.recovery.len(),
                rparts == self.recovery@.map_values(|r: RecoveryHint| recovery_json(r)),
                out@ == rstart + join(rparts.take(j as int), seq![',']),
            decreases self.recovery.len() - j,
        {
            proof {
                lemma_join_step(rparts, seq![','], j as int);
            }
            if j > 0 {
                out.push(',');
            }
            push_recovery_json(&mut out, &self.recovery[j]);
            j = j + 1;
        }
        assert(rparts.take(self.recovery.len() as int) =~= rparts);
        out.append("],\"isError\":");
        out.append(if self.is_error { "true" } else { "false" });
        out.push('}');
        out
    }
}

/// The text rendering takes the body of the path chosen last: the
/// key-value body after `kv_items`, the TOON body otherwise.
pub proof fn law_text_follows_last_path(v: ResponseView)
    ensures
        v.kv_path ==> response_text(v) == finished_text(v, kv_body_text(v)),
        !v.kv_path ==> response_text(v) == finished_text(v, toon_body_text(v)),
{
}

/// The cell length limit touches only the TOON path: the key-value body is
/// the same whatever the limit.
pub proof fn law_cell_limit_spares_kv(v: ResponseView, limit: usize)
    ensures
        kv_body_text(ResponseView { truncate_cells_at: limit, ..v }) == kv_body_text(v),
        response_text(ResponseView { truncate_cells_at: limit, kv_path: true, ..v }) == response_text(
            ResponseView { kv_path: true, ..v },
        ),
{
}

/// The user sees the human-facing text when there is one, and otherwise
/// exactly what the assistant sees.
pub proof fn law_user_falls_back_to_text(v: ResponseView)
    ensures
        v.human_content is None ==> match (Audience::User, v.human_content) {
            (Audience::User, Some(h)) => h,
            _ => response_text(v),
        } == response_text(v),
{
}

} // verus!
