//! Contextual usage hints, rendered as a `help[N]:` block.
use vstd::prelude::*;

use crate::text::{concat, help_block, indented_line, lemma_concat_step, owned, push_usize};

verus! {

/// A contextual usage hint for an agent.
#[derive(Debug, Clone, PartialEq)]
pub struct Hint(pub String);

impl Hint {
    /// A hint with the given text.
    pub fn new(s: &str) -> (h: Self)
        ensures
            h.0@ == s@,
    {
        Hint(owned(s))
    }

    /// The hint text as an owned string, as the hint's `Display` reads.
    pub fn to_text(&self) -> (s: String)
        ensures
            s@ == self.0@,
    {
        self.0.clone()
    }

    /// The raw hint text.
    pub fn as_str(&self) -> (s: &str)
        ensures
            s@ == self.0@,
    {
        self.0.as_str()
    }
}

impl<'a> From<&'a str> for Hint {
    fn from(s: &'a str) -> (h: Self)
        ensures
            h.0@ == s@,
    {
        Hint(owned(s))
    }
}

impl<'a> vstd::std_specs::convert::FromSpecImpl<&'a str> for Hint {
    open spec fn obeys_from_spec() -> bool {
        false
    }

    open spec fn from_spec(s: &'a str) -> Self {
        arbitrary()
    }
}

impl From<String> for Hint {
    fn from(s: String) -> Self {
        Hint(s)
    }
}

impl vstd::std_specs::convert::FromSpecImpl<String> for Hint {
    open spec fn obeys_from_spec() -> bool {
        true
    }

    open spec fn from_spec(s: String) -> Self {
        Hint(s)
    }
}

/// The texts of a sequence of hints.
pub open spec fn hint_texts(hints: Seq<Hint>) -> Seq<Seq<char>> {
    hints.map_values(|h: Hint| h.0@)
}

/// The `help[N]:` block of a sequence of hints; empty when there are none.
pub open spec fn hints_block(hints: Seq<Hint>) -> Seq<char> {
    help_block(hint_texts(hints))
}

/// Capacity worth reserving for `n` rendered hints, when it is reasonable.
fn hints_capacity(n: usize) -> (c: usize)
    ensures
        c <= isize::MAX,
        n <= 1_000_000 ==> c == 12 + n * 50,
{
    if n <= 1_000_000 {
        12 + n * 50
    } else {
        0
    }
}

/// Render a `help[N]:` block from hints; empty when there are none.
pub fn render_hints(hints: &[Hint]) -> (s: String)
    ensures
        s@ == hints_block(hints@),
{
    if hints.len() == 0 {
        return String::new();
    }
    let mut out = String::with_capacity(hints_capacity(hints.len()));
    append_hints(&mut out, hints);
    out
}

/// Append a `help[N]:` block to `out` (nothing when there are no hints).
pub fn append_hints(out: &mut String, hints: &[Hint])
    ensures
        final(out)@ == old(out)@ + hints_block(hints@),
{
    if hints.len() == 0 {
        return;
    }
    out.append("help[");
    push_usize(out, hints.len());
    out.push(']');
    out.push(':');
    out.push('\n');
    let ghost start = out@;
    let ghost lines = hint_texts(hints@).map_values(|h: Seq<char>| indented_line(h));
    let mut i: usize = 0;
    while i < hints.len()
        invariant
            i <= hints.len(),
            lines == hint_texts(hints@).map_values(|h: Seq<char>| indented_line(h)),
            out@ == start + concat(lines.take(i as int)),
        decreases hints.len() - i,
    {
        proof {
            lemma_concat_step(lines, i as int);
        }
        out.push(' ');
        out.push(' ');
        out.append(hints[i].as_str());
        out.push('\n');
        i = i + 1;
    }
    assert(lines.take(hints.len() as int) =~= lines);
    proof {
        reveal_strlit("help[");
        reveal_strlit("help");
        assert("help["@ =~= "help"@ + seq!['[']);
    }
}

} // verus!
