//! Definitive empty states: `count: 0`, never silence.
use vstd::prelude::*;

use crate::hints::{append_hints, hints_block, Hint};

verus! {

/// The empty-state text for a type.
pub open spec fn empty_state_text(type_label: Seq<char>) -> Seq<char> {
    type_label + "[0]{}:\ntotalCount: 0\n"@
}

/// Render a definitive empty state response.
pub fn empty_state(type_label: &str) -> (s: String)
    ensures
        s@ == empty_state_text(type_label@),
{
    let n = type_label.len();
    let mut out = if n <= (isize::MAX as usize) - 21 {
        String::with_capacity(n + 21)
    } else {
        String::new()
    };
    out.append(type_label);
    out.append("[0]{}:\ntotalCount: 0\n");
    out
}

/// Render a definitive empty state followed by a `help[N]:` block.
pub fn empty_state_with_hints(type_label: &str, hints: &[Hint]) -> (s: String)
    ensures
        s@ == empty_state_text(type_label@) + hints_block(hints@),
{
    let mut out = empty_state(type_label);
    append_hints(&mut out, hints);
    out
}

/// An empty state is never silent: it always states `totalCount: 0`, and
/// adding no hints leaves it as it was.
pub proof fn law_empty_state(type_label: Seq<char>)
    ensures
        empty_state_text(type_label).take(type_label.len() as int) == type_label,
        empty_state_text(type_label).len() == type_label.len() + 21,
        empty_state_text(type_label) + hints_block(seq![]) == empty_state_text(type_label),
{
    reveal_strlit("[0]{}:\ntotalCount: 0\n");
    assert(empty_state_text(type_label).take(type_label.len() as int) =~= type_label);
    assert(empty_state_text(type_label) + hints_block(seq![]) =~= empty_state_text(type_label));
}

} // verus!
