//! Pipeline steps and their run state, rendered as a TOON-style list.
use vstd::prelude::*;

use crate::escape::{escape_value, escaped_value, law_escaped_cell};
use crate::text::{
    concat, decimal, lemma_concat_lines, lemma_concat_step, lemma_decimal_no_line_feed, lemma_lacks_line_feed,
    lemma_line_count_add, lemma_line_feed, lemma_no_line_feed, line_count, push_cow, push_usize,
};

verus! {

/// Status of one pipeline step.
#[derive(Debug, Clone, Copy, PartialEq, Eq, Structural)]
#[non_exhaustive]
pub enum StepStatus {
    /// Completed successfully.
    Completed,
    /// Skipped.
    Skipped,
    /// Failed.
    Failed,
    /// Not attempted yet.
    Pending,
}

/// The label of a step status.
pub open spec fn status_label(s: StepStatus) -> Seq<char> {
    match s {
        StepStatus::Completed => "completed"@,
        StepStatus::Skipped => "skipped"@,
        StepStatus::Failed => "failed"@,
        StepStatus::Pending => "pending"@,
    }
}

impl StepStatus {
    /// The short label used in rendered output.
    pub fn label(&self) -> (s: &'static str)
        ensures
            s@ == status_label(*self),
    {
        match self {
            StepStatus::Completed => "completed",
            StepStatus::Skipped => "skipped",
            StepStatus::Failed => "failed",
            StepStatus::Pending => "pending",
        }
    }
}

/// A pipeline step. Ids are not checked for uniqueness.
#[derive(Debug, Clone)]
pub struct PipelineStep {
    /// Step identifier.
    pub id: String,
    /// Human-readable name.
    pub name: String,
    /// Current status.
    pub status: StepStatus,
}

/// A pipeline run state.
#[derive(Debug, Clone, Default)]
pub struct Pipeline {
    /// Pipeline identifier (not rendered).
    pub id: String,
    /// All steps in declaration order.
    pub steps: Vec<PipelineStep>,
}

/// One step line: id and name escaped as TOON cells, then the status label.
pub open spec fn step_line(s: PipelineStep) -> Seq<char> {
    seq![' ', ' '] + escaped_value(s.id@) + seq![','] + escaped_value(s.name@) + seq![',']
        + status_label(s.status) + seq!['\n']
}

/// The text of a pipeline: `step[N]{id,name,status}:` then one line per step.
pub open spec fn pipeline_text(steps: Seq<PipelineStep>) -> Seq<char> {
    "step["@ + decimal(steps.len()) + "]{id,name,status}:\n"@ + concat(
        steps.map_values(|s: PipelineStep| step_line(s)),
    )
}

impl Pipeline {
    /// Render the pipeline state as a TOON-style list.
    pub fn render(&self) -> (s: String)
        ensures
            s@ == pipeline_text(self.steps@),
    {
        let mut out = String::new();
        out.append("step[");
        push_usize(&mut out, self.steps.len());
        out.append("]{id,name,status}:\n");
        let ghost start = out@;
        let ghost lines = self.steps@.map_values(|s: PipelineStep| step_line(s));
        let mut i: usize = 0;
        while i < self.steps.len()
            invariant
                i <= self.steps.len(),
                lines == self.steps@.map_values(|s: PipelineStep| step_line(s)),
                out@ == start + concat(lines.take(i as int)),
            decreases self.steps.len() - i,
        {
            proof {
                lemma_concat_step(lines, i as int);
            }
            let step = &self.steps[i];
            out.push(' ');
            out.push(' ');
            let id = escape_value(step.id.as_str());
            push_cow(&mut out, &id);
            out.push(',');
            let name = escape_value(step.name.as_str());
            push_cow(&mut out, &name);
            out.push(',');
            out.append(step.status.label());
            out.push('\n');
            i = i + 1;
        }
        assert(lines.take(self.steps.len() as int) =~= lines);
        out
    }
}

/// Distinct step statuses carry distinct labels, so a rendered status
/// names its step state unambiguously.
pub proof fn law_status_labels_distinct(a: StepStatus, b: StepStatus)
    ensures
        a != b ==> status_label(a) != status_label(b),
{
    reveal_strlit("completed");
    reveal_strlit("skipped");
    reveal_strlit("failed");
    reveal_strlit("pending");
    if a != b {
        let x = status_label(a);
        let y = status_label(b);
        if x.len() == y.len() {
            assert(x[0] != y[0] || x[1] != y[1]);
        }
    }
}

proof fn lemma_escaped_no_lines(s: Seq<char>)
    ensures
        line_count(escaped_value(s)) == 0,
{
    law_escaped_cell(s);
    let e = escaped_value(s);
    assert forall|i: int| 0 <= i < e.len() implies e[i] != '\n' by {
        assert(e[i] != '\n' && e[i] != '\r');
    }
    lemma_no_line_feed(e);
}

/// Every step occupies exactly one line, after the header line, whatever
/// its id and name hold: line breaks in them are dropped.
pub proof fn law_pipeline_lines(steps: Seq<PipelineStep>)
    ensures
        line_count(pipeline_text(steps)) == 1 + steps.len(),
{
    let lines = steps.map_values(|st: PipelineStep| step_line(st));
    lemma_line_feed();
    lemma_lacks_line_feed(seq![' ', ' ']);
    lemma_lacks_line_feed(seq![',']);
    reveal_strlit("completed");
    reveal_strlit("skipped");
    reveal_strlit("failed");
    reveal_strlit("pending");
    assert forall|i: int| 0 <= i < lines.len() implies line_count(#[trigger] lines[i]) == 1 by {
        let st = steps[i];
        let a = seq![' ', ' '];
        let b = escaped_value(st.id@);
        let c = escaped_value(st.name@);
        let l = status_label(st.status);
        lemma_escaped_no_lines(st.id@);
        lemma_escaped_no_lines(st.name@);
        lemma_lacks_line_feed(l);
        lemma_line_count_add(a, b);
        lemma_line_count_add(a + b, seq![',']);
        lemma_line_count_add(a + b + seq![','], c);
        lemma_line_count_add(a + b + seq![','] + c, seq![',']);
        lemma_line_count_add(a + b + seq![','] + c + seq![','], l);
        lemma_line_count_add(a + b + seq![','] + c + seq![','] + l, seq!['\n']);
    }
    lemma_concat_lines(lines);
    reveal_strlit("step[");
    reveal_strlit("]{id,name,status}:\n");
    let head = "]{id,name,status}:\n"@;
    assert(head =~= "]{id,name,status}:"@ + seq!['\n']) by {
        reveal_strlit("]{id,name,status}:");
    }
    reveal_strlit("]{id,name,status}:");
    lemma_lacks_line_feed("]{id,name,status}:"@);
    lemma_line_count_add("]{id,name,status}:"@, seq!['\n']);
    lemma_lacks_line_feed("step["@);
    lemma_decimal_no_line_feed(steps.len());
    lemma_line_count_add("step["@, decimal(steps.len()));
    lemma_line_count_add("step["@ + decimal(steps.len()), head);
    lemma_line_count_add("step["@ + decimal(steps.len()) + head, concat(lines));
}

} // verus!
