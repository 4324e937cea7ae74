//! Partial success of multi-step operations.
use vstd::prelude::*;

use crate::escape::{escape_value, escape_value_quoted, escaped_value, quoted_value};
use crate::recovery::{push_recovery_line, recovery_line, RecoveryHint};
use crate::text::{concat, decimal, lemma_concat_step, listing_block, push_cow, push_listing, push_usize};

verus! {

/// An operation that failed within a larger multi-step operation.
#[derive(Debug, Clone, PartialEq)]
pub struct FailedOp {
    /// The operation that failed.
    pub operation: String,
    /// Why it failed.
    pub reason: String,
    /// Recovery hint for this failure.
    pub recovery: Option<RecoveryHint>,
}

/// Signals that an operation partially completed before a failure, so an
/// agent can resume instead of retrying from scratch.
#[derive(Debug, Clone, PartialEq)]
pub struct PartialSuccess {
    /// Steps that completed.
    pub completed: Vec<String>,
    /// Steps that failed, with reasons and recovery hints.
    pub failed: Vec<FailedOp>,
    /// Steps not attempted.
    pub skipped: Vec<String>,
}

/// One failed line: the operation escaped as a TOON cell, a comma, the
/// reason always quoted.
pub open spec fn failed_line(f: FailedOp) -> Seq<char> {
    seq![' ', ' '] + escaped_value(f.operation@) + seq![','] + quoted_value(f.reason@) + seq!['\n']
}

/// The `failed[N]{operation,reason}:` block; empty when nothing failed.
pub open spec fn failed_block(failed: Seq<FailedOp>) -> Seq<char> {
    if failed.len() == 0 {
        seq![]
    } else {
        "failed["@ + decimal(failed.len()) + "]{operation,reason}:\n"@ + concat(
            failed.map_values(|f: FailedOp| failed_line(f)),
        )
    }
}

/// The recovery line of a failure, or nothing when it has no hint.
pub open spec fn failure_recovery_line(f: FailedOp) -> Seq<char> {
    match f.recovery {
        Some(h) => recovery_line(h),
        None => seq![],
    }
}

/// How many failures carry a recovery hint.
pub open spec fn recovery_count(failed: Seq<FailedOp>) -> nat
    decreases failed.len(),
{
    if failed.len() == 0 {
        0
    } else {
        recovery_count(failed.drop_last()) + if failed.last().recovery is Some {
            1nat
        } else {
            0nat
        }
    }
}

/// The failures' recovery hints folded into a `help[N]:` block; empty when
/// none has one.
pub open spec fn failure_help_block(failed: Seq<FailedOp>) -> Seq<char> {
    if recovery_count(failed) == 0 {
        seq![]
    } else {
        "help["@ + decimal(recovery_count(failed)) + seq![']', ':', '\n'] + concat(
            failed.map_values(|f: FailedOp| failure_recovery_line(f)),
        )
    }
}

proof fn lemma_hints_of_failures(failed: Seq<FailedOp>)
    ensures
        recovery_count(failed) == failed.filter(|f: FailedOp| f.recovery is Some).len(),
        concat(failed.map_values(|f: FailedOp| failure_recovery_line(f))) == concat(
            failed.filter(|f: FailedOp| f.recovery is Some).map_values(
                |f: FailedOp| recovery_line(f.recovery.unwrap()),
            ),
        ),
    decreases failed.len(),
{
    let pred = |f: FailedOp| f.recovery is Some;
    let line = |f: FailedOp| recovery_line(f.recovery.unwrap());
    if failed.len() == 0 {
        assert(failed.filter(pred) =~= Seq::<FailedOp>::empty());
        assert(failed.map_values(|f: FailedOp| failure_recovery_line(f)) =~= Seq::<Seq<char>>::empty());
        assert(failed.filter(pred).map_values(line) =~= Seq::<Seq<char>>::empty());
    } else {
        let init = failed.drop_last();
        let last = failed.last();
        lemma_hints_of_failures(init);
        assert(init.push(last) =~= failed);
        init.lemma_filter_push(last, pred);
        let all = failed.map_values(|f: FailedOp| failure_recovery_line(f));
        assert(all.drop_last() =~= init.map_values(|f: FailedOp| failure_recovery_line(f)));
        assert(all.last() == failure_recovery_line(last));
        let kept = init.filter(pred);
        if last.recovery is Some {
            assert(failed.filter(pred) == kept.push(last));
            let m = kept.push(last).map_values(line);
            assert(m.drop_last() =~= kept.map_values(line));
            assert(m.last() == line(last));
        } else {
            assert(failed.filter(pred) == kept);
            assert(failure_recovery_line(last) == Seq::<char>::empty());
            assert(concat(all) =~= concat(all.drop_last()));
        }
    }
}

/// The recovery help that failures announce: `help[N]:` with N the number
/// of failures carrying a recovery hint, then one recovery line for each of
/// them, in order; nothing when none carries one.
pub open spec fn announced_hints(failed: Seq<FailedOp>) -> Seq<char> {
    let hints = failed.filter(|f: FailedOp| f.recovery is Some);
    if hints.len() == 0 {
        Seq::<char>::empty()
    } else {
        "help["@ + decimal(hints.len()) + "]:\n"@ + concat(
            hints.map_values(|f: FailedOp| recovery_line(f.recovery.unwrap())),
        )
    }
}

/// The text of a partial success: a summary line, then the completed,
/// failed and skipped blocks (empty ones left out), then the recovery hints.
pub open spec fn partial_success_text(p: PartialSuccess) -> Seq<char> {
    "partial_success: "@ + decimal(p.completed@.len()) + " completed, "@ + decimal(p.failed@.len())
        + " failed, "@ + decimal(p.skipped@.len()) + " skipped\n"@ + listing_block(
        "completed"@,
        p.completed@.map_values(|s: String| s@),
    ) + failed_block(p.failed@) + listing_block("skipped"@, p.skipped@.map_values(|s: String| s@))
        + failure_help_block(p.failed@)
}

/// The recovery help of a partial success announces exactly the hints it
/// lists: its text ends with `help[N]:`, N being the number of failures
/// with a recovery hint, followed by one recovery line for each of them in
/// order (and with nothing when no failure carries a hint).
pub proof fn law_help_count_matches_hints(p: PartialSuccess)
    ensures
        failure_help_block(p.failed@) == announced_hints(p.failed@),
        ({
            let t = partial_success_text(p);
            let h = announced_hints(p.failed@);
            h.len() <= t.len() && t.subrange(t.len() - h.len(), t.len() as int) == h
        }),
{
    lemma_hints_of_failures(p.failed@);
    reveal_strlit("]:\n");
    assert("]:\n"@ =~= seq![']', ':', '\n']);
    let t = partial_success_text(p);
    let h = announced_hints(p.failed@);
    assert(t.subrange(t.len() - h.len(), t.len() as int) =~= h);
}

impl PartialSuccess {
    /// Render as an agent-readable string.
    pub fn render(&self) -> (s: String)
        ensures
            s@ == partial_success_text(*self),
    {
        let mut out = String::new();
        out.append("partial_success: ");
        push_usize(&mut out, self.completed.len());
        out.append(" completed, ");
        push_usize(&mut out, self.failed.len());
        out.append(" failed, ");
        push_usize(&mut out, self.skipped.len());
        out.append(" skipped\n");
        push_listing(&mut out, "completed", self.completed.as_slice());
        let ghost after_completed = out@;
        if self.failed.len() > 0 {
            out.append("failed[");
            push_usize(&mut out, self.failed.len());
            out.append("]{operation,reason}:\n");
            let ghost start = out@;
            let ghost lines = self.failed@.map_values(|f: FailedOp| failed_line(f));
            let mut i: usize = 0;
            while i < self.failed.len()
                invariant
                    i <= self.failed.len(),
                    lines == self.failed@.map_values(|f: FailedOp| failed_line(f)),
                    out@ == start + concat(lines.take(i as int)),
                decreases self.failed.len() - i,
            {
                proof {
                    lemma_concat_step(lines, i as int);
                }
                let f = &self.failed[i];
                out.push(' ');
                out.push(' ');
                let op = escape_value(f.operation.as_str());
                push_cow(&mut out, &op);
                out.push(',');
                let reason = escape_value_quoted(f.reason.as_str());
                out.append(reason.as_str());
                out.push('\n');
                i = i + 1;
            }
            assert(lines.take(self.failed.len() as int) =~= lines);
        }
        assert(out@ =~= after_completed + failed_block(self.failed@));
        push_listing(&mut out, "skipped", self.skipped.as_slice());
        let ghost after_skipped = out@;
        let mut count: usize = 0;
        let mut k: usize = 0;
        while k < self.failed.len()
            invariant
                k <= self.failed.len(),
                count <= k,
                count == recovery_count(self.failed@.take(k as int)),
            decreases self.failed.len() - k,
        {
            assert(self.failed@.take(k + 1).drop_last() =~= self.failed@.take(k as int));
            if self.failed[k].recovery.is_some() {
                count = count + 1;
            }
            k = k + 1;
        }
        assert(self.failed@.take(self.failed.len() as int) =~= self.failed@);
        if count > 0 {
            out.append("help[");
            push_usize(&mut out, count);
            out.push(']');
            out.push(':');
            out.push('\n');
            let ghost hstart = out@;
            let ghost hlines = self.failed@.map_values(|f: FailedOp| failure_recovery_line(f));
            let mut j: usize = 0;
            while j < self.failed.len()
                invariant
                    j <= self.failed.len(),
                    hlines == self.failed@.map_values(|f: FailedOp| failure_recovery_line(f)),
                    out@ == hstart + concat(hlines.take(j as int)),
                decreases self.failed.len() - j,
            {
                proof {
                    lemma_concat_step(hlines, j as int);
                }
                if let Some(r) = &self.failed[j].recovery {
                    push_recovery_line(&mut out, r);
                } else {
                    assert(hlines[j as int] =~= Seq::<char>::empty());
                }
                j = j + 1;
            }
            assert(hlines.take(self.failed.len() as int) =~= hlines);
        }
        assert(out@ =~= after_skipped + failure_help_block(self.failed@));
        out
    }

    /// `0` when nothing failed; `1` when anything failed.
    pub fn exit_code(&self) -> (c: i32)
        ensures
            c == if self.failed@.len() == 0 {
                0i32
            } else {
                1i32
            },
    {
        if self.failed.len() == 0 {
            0
        } else {
            1
        }
    }
}

} // verus!
