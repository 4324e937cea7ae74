//! Escaping of TOON cell values and sanitizing of header tokens.
use std::borrow::Cow;
use vstd::prelude::*;

use crate::text::chars_of;

verus! {

/// What one input character becomes inside an escaped cell: line breaks
/// vanish, a double quote gains a backslash, anything else is kept.
pub open spec fn escaped_char(c: char) -> Seq<char> {
    if c == '\n' || c == '\r' {
        seq![]
    } else if c == '"' {
        seq!['\\', '"']
    } else {
        seq![c]
    }
}

/// The escaped body of a cell: `escaped_char` applied to each character.
pub open spec fn escaped_body(s: Seq<char>) -> Seq<char>
    decreases s.len(),
{
    if s.len() == 0 {
        seq![]
    } else {
        escaped_body(s.drop_last()) + escaped_char(s.last())
    }
}

/// Whether a value holds a comma or a double quote, and so must be quoted.
pub open spec fn needs_quotes(s: Seq<char>) -> bool {
    s.contains(',') || s.contains('"')
}

/// Whether a value holds a line feed or a carriage return.
pub open spec fn has_line_break(s: Seq<char>) -> bool {
    s.contains('\n') || s.contains('\r')
}

/// The escaped form of a TOON cell value: unchanged when it is empty or
/// holds neither a comma, a quote nor a line break; otherwise the escaped
/// body, wrapped in quotes when it held a comma or a quote.
pub open spec fn escaped_value(s: Seq<char>) -> Seq<char> {
    if s.len() == 0 || (!needs_quotes(s) && !has_line_break(s)) {
        s
    } else if needs_quotes(s) {
        seq!['"'] + escaped_body(s) + seq!['"']
    } else {
        escaped_body(s)
    }
}

/// A value always wrapped in quotes, with its body escaped.
pub open spec fn quoted_value(s: Seq<char>) -> Seq<char> {
    seq!['"'] + escaped_body(s) + seq!['"']
}

/// The characters that carry structure in a TOON header or hint line.
pub open spec fn is_structural(c: char) -> bool {
    c == '[' || c == ']' || c == '{' || c == '}' || c == ',' || c == '\n' || c == '\r'
}

/// Whether any character of `s` is structural.
pub open spec fn has_structural(s: Seq<char>) -> bool {
    exists|i: int| 0 <= i < s.len() && is_structural(#[trigger] s[i])
}

/// A header token with every structural character replaced by `_`.
pub open spec fn sanitized(s: Seq<char>) -> Seq<char> {
    Seq::new(s.len(), |i: int| if is_structural(s[i]) { '_' } else { s[i] })
}

/// Executable test for a structural character.
pub fn structural(c: char) -> (b: bool)
    ensures
        b == is_structural(c),
{
    c == '[' || c == ']' || c == '{' || c == '}' || c == ',' || c == '\n' || c == '\r'
}

/// Whether any character of `s` is structural.
pub fn contains_structural(s: &str) -> (b: bool)
    ensures
        b == has_structural(s@),
{
    let v = chars_of(s);
    let mut i: usize = 0;
    while i < v.len()
        invariant
            i <= v.len(),
            v@ == s@,
            forall|j: int| 0 <= j < i ==> !is_structural(#[trigger] v@[j]),
        decreases v.len() - i,
    {
        if structural(v[i]) {
            return true;
        }
        i = i + 1;
    }
    false
}

proof fn lemma_escaped_body_step(s: Seq<char>, i: int)
    requires
        0 <= i < s.len(),
    ensures
        escaped_body(s.take(i + 1)) == escaped_body(s.take(i)) + escaped_char(s[i]),
{
    assert(s.take(i + 1).drop_last() =~= s.take(i));
}

/// Appends the escaped body of `v` (line breaks dropped, quotes backslashed).
fn push_escaped_body(out: &mut String, v: &Vec<char>)
    ensures
        final(out)@ == old(out)@ + escaped_body(v@),
{
    let mut i: usize = 0;
    while i < v.len()
        invariant
            i <= v.len(),
            out@ == old(out)@ + escaped_body(v@.take(i as int)),
        decreases v.len() - i,
    {
        let c = v[i];
        proof {
            lemma_escaped_body_step(v@, i as int);
        }
        if c == '\n' || c == '\r' {
        } else if c == '"' {
            out.push('\\');
            out.push(c);
        } else {
            out.push(c);
        }
        i = i + 1;
        assert(out@ =~= old(out)@ + escaped_body(v@.take(i as int)));
    }
    assert(v@.take(v.len() as int) =~= v@);
}

/// Escape a scalar value for a TOON row. The input comes back borrowed when
/// nothing needs to change.
pub fn escape_value(v: &str) -> (r: Cow<'_, str>)
    ensures
        r@ == escaped_value(v@),
        (r matches Cow::Borrowed(_)) <==> (v@.len() == 0 || (!needs_quotes(v@) && !has_line_break(v@))),
{
    let chars = chars_of(v);
    if chars.len() == 0 {
        return Cow::Borrowed(v);
    }
    let mut needs_quote = false;
    let mut stripped = false;
    let mut i: usize = 0;
    while i < chars.len()
        invariant
            i <= chars.len(),
            chars@ == v@,
            needs_quote == (chars@.take(i as int).contains(',') || chars@.take(i as int).contains('"')),
            stripped == (chars@.take(i as int).contains('\n') || chars@.take(i as int).contains('\r')),
        decreases chars.len() - i,
    {
        let c = chars[i];
        proof {
            let t = chars@.take(i as int);
            let t1 = chars@.take(i + 1);
            assert(t1 =~= t.push(c));
            assert forall|x: char| t1.contains(x) <==> (t.contains(x) || x == c) by {
                if t1.contains(x) {
                    let k = choose|k: int| 0 <= k < t1.len() && t1[k] == x;
                    if k < t.len() {
                        assert(t[k] == x);
                    }
                }
                if t.contains(x) {
                    let k = choose|k: int| 0 <= k < t.len() && t[k] == x;
                    assert(t1[k] == x);
                }
                if x == c {
                    assert(t1[i as int] == x);
                }
            }
        }
        if c == ',' || c == '"' {
            needs_quote = true;
        }
        if c == '\n' || c == '\r' {
            stripped = true;
        }
        i = i + 1;
    }
    assert(chars@.take(chars.len() as int) =~= chars@);
    if !needs_quote && !stripped {
        return Cow::Borrowed(v);
    }
    let mut out = String::new();
    if needs_quote {
        out.push('"');
    }
    push_escaped_body(&mut out, &chars);
    if needs_quote {
        out.push('"');
    }
    Cow::Owned(out)
}

/// Escape a value and always wrap it in quotes.
pub fn escape_value_quoted(v: &str) -> (r: String)
    ensures
        r@ == quoted_value(v@),
{
    let chars = chars_of(v);
    let mut out = String::new();
    out.push('"');
    push_escaped_body(&mut out, &chars);
    out.push('"');
    out
}

/// Sanitize a header token or hint: every structural character becomes
/// `_`. The input comes back borrowed when it holds none.
pub fn sanitize_header_token(s: &str) -> (r: Cow<'_, str>)
    ensures
        r@ == sanitized(s@),
        (r matches Cow::Borrowed(_)) <==> !has_structural(s@),
{
    if !contains_structural(s) {
        assert(sanitized(s@) =~= s@);
        return Cow::Borrowed(s);
    }
    let chars = chars_of(s);
    let mut out = String::new();
    let mut i: usize = 0;
    while i < chars.len()
        invariant
            i <= chars.len(),
            chars@ == s@,
            out@ =~= sanitized(s@).take(i as int),
        decreases chars.len() - i,
    {
        let c = chars[i];
        if structural(c) {
            out.push('_');
        } else {
            out.push(c);
        }
        i = i + 1;
    }
    Cow::Owned(out)
}

proof fn lemma_escaped_body_chars(s: Seq<char>)
    ensures
        forall|i: int| 0 <= i < escaped_body(s).len() ==> {
            let c = #[trigger] escaped_body(s)[i];
            &&& c != '\n'
            &&& c != '\r'
            &&& (c == '"' ==> s.contains('"'))
        },
    decreases s.len(),
{
    if s.len() > 0 {
        let init = s.drop_last();
        lemma_escaped_body_chars(init);
        let a = escaped_body(init);
        let b = escaped_char(s.last());
        assert(escaped_body(s) == a + b);
        assert forall|i: int| 0 <= i < escaped_body(s).len() implies {
            let c = #[trigger] escaped_body(s)[i];
            &&& c != '\n'
            &&& c != '\r'
            &&& (c == '"' ==> s.contains('"'))
        } by {
            if i < a.len() {
                assert(escaped_body(s)[i] == a[i]);
                if a[i] == '"' {
                    let j = choose|j: int| 0 <= j < init.len() && init[j] == '"';
                    assert(s[j] == '"');
                }
            } else {
                assert(escaped_body(s)[i] == b[i - a.len()]);
                if b[i - a.len()] == '"' {
                    assert(s[s.len() - 1] == '"');
                }
            }
        }
    }
}

/// Escaping keeps every row on one line: an escaped cell never holds a line
/// break. A cell is wrapped in quotes exactly when it holds a comma or a
/// double quote, and comes back untouched when it holds neither those nor a
/// line break.
pub proof fn law_escaped_cell(s: Seq<char>)
    ensures
        forall|i: int| 0 <= i < escaped_value(s).len() ==> #[trigger] escaped_value(s)[i] != '\n'
            && escaped_value(s)[i] != '\r',
        !needs_quotes(s) && !has_line_break(s) ==> escaped_value(s) == s,
        s.len() > 0 && needs_quotes(s) ==> escaped_value(s).first() == '"' && escaped_value(s).last()
            == '"',
        !needs_quotes(s) ==> !escaped_value(s).contains('"'),
{
    lemma_escaped_body_chars(s);
    let e = escaped_value(s);
    if s.len() == 0 || (!needs_quotes(s) && !has_line_break(s)) {
        assert forall|i: int| 0 <= i < e.len() implies #[trigger] e[i] != '\n' && e[i] != '\r' by {
            if s.len() > 0 {
                assert(!s.contains(e[i]) ==> false);
            }
        }
    } else if needs_quotes(s) {
        let body = escaped_body(s);
        assert forall|i: int| 0 <= i < e.len() implies #[trigger] e[i] != '\n' && e[i] != '\r' by {
            if 0 < i < e.len() - 1 {
                assert(e[i] == body[i - 1]);
            }
        }
    } else {
        if e.contains('"') {
            let j = choose|j: int| 0 <= j < e.len() && e[j] == '"';
            assert(escaped_body(s)[j] == '"');
        }
    }
}

/// Header tokens never carry structure: a sanitized token holds no
/// structural character, and a token without one comes back unchanged.
pub proof fn law_sanitized(s: Seq<char>)
    ensures
        !has_structural(sanitized(s)),
        sanitized(s).len() == s.len(),
        !has_structural(s) ==> sanitized(s) == s,
{
    if !has_structural(s) {
        assert(sanitized(s) =~= s);
    }
}

} // verus!
