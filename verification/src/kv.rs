//! Key-value single-item rendering (`key: value`, column aligned) and the
//! JSON encoding of strings and values.
use vstd::prelude::*;

use crate::hints::{append_hints, hint_texts, hints_block, Hint};
use crate::resilience::Delay;
use crate::text::{
    bool_text, chars_of, concat, decimal, indented_line, int_text, lemma_concat_lines, lemma_concat_step,
    lemma_decimal_no_line_feed, lemma_lacks_line_feed, lemma_line_count_add, lemma_line_feed,
    lemma_no_line_feed, line_count, push_i64, push_usize, is_finite_bits, lemma_float_text_plain, owned, FloatText,
};

verus! {

/// A value in a key-value item.
#[derive(Debug, PartialEq)]
pub enum KvValue {
    /// Text; line breaks are dropped when rendered as a line.
    Text(String),
    /// Signed integer.
    Int(i64),
    /// Floating-point number, formatted with the given number of decimal
    /// places.
    Float(FloatText, u8),
    /// Renders as `true` or `false`.
    Bool(bool),
    /// Elapsed time, with its seconds as a float (`Duration::as_secs_f64`)
    /// formatted to one decimal (`{:.1}`), rendered with an `s` suffix.
    Duration(Delay, FloatText),
    /// Absent value, rendered as `—` (em dash) or JSON `null`.
    Missing,
}

impl Clone for KvValue {
    fn clone(&self) -> (r: Self)
        ensures
            r == *self,
    {
        match self {
            KvValue::Text(s) => KvValue::Text(s.clone()),
            KvValue::Int(n) => KvValue::Int(*n),
            KvValue::Float(f, d) => KvValue::Float(f.clone(), *d),
            KvValue::Bool(b) => KvValue::Bool(*b),
            KvValue::Duration(d, s) => KvValue::Duration(*d, s.clone()),
            KvValue::Missing => KvValue::Missing,
        }
    }
}

/// A single key-value pair for [`render_kv`].
#[derive(Debug, PartialEq)]
pub struct KvItem {
    /// The field name.
    pub key: String,
    /// The field value.
    pub value: KvValue,
}

impl Clone for KvItem {
    fn clone(&self) -> (r: Self)
        ensures
            r == *self,
    {
        KvItem { key: self.key.clone(), value: self.value.clone() }
    }
}

/// A text without its line feeds and carriage returns.
pub open spec fn without_line_breaks(s: Seq<char>) -> Seq<char> {
    s.filter(|c: char| c != '\n' && c != '\r')
}

/// The plain-text rendering of a value.
pub open spec fn kv_value_text(v: KvValue) -> Seq<char> {
    match v {
        KvValue::Text(s) => without_line_breaks(s@),
        KvValue::Int(n) => int_text(n as int),
        KvValue::Float(f, _) => f.text_view(),
        KvValue::Bool(b) => bool_text(b),
        KvValue::Duration(_, secs) => secs.text_view() + seq!['s'],
        KvValue::Missing => seq!['\u{2014}'],
    }
}

/// Appends `s` without its line breaks.
fn push_without_line_breaks(out: &mut String, s: &str)
    ensures
        final(out)@ == old(out)@ + without_line_breaks(s@),
{
    let v = chars_of(s);
    let mut i: usize = 0;
    while i < v.len()
        invariant
            i <= v.len(),
            v@ == s@,
            out@ == old(out)@ + without_line_breaks(v@.take(i as int)),
        decreases v.len() - i,
    {
        let c = v[i];
        proof {
            let f = |c: char| c != '\n' && c != '\r';
            assert(v@.take(i + 1) =~= v@.take(i as int).push(c));
            v@.take(i as int).lemma_filter_push(c, f);
        }
        if c != '\n' && c != '\r' {
            out.push(c);
        }
        i = i + 1;
    }
    assert(v@.take(v.len() as int) =~= v@);
}

/// Appends the plain-text rendering of a value.
pub fn push_kv_value(out: &mut String, value: &KvValue)
    ensures
        final(out)@ == old(out)@ + kv_value_text(*value),
        value_single_line(*value),
{
    match value {
        KvValue::Text(s) => push_without_line_breaks(out, s.as_str()),
        KvValue::Int(n) => push_i64(out, *n),
        KvValue::Float(f, _) => out.append(f.text()),
        KvValue::Bool(b) => out.append(if *b { "true" } else { "false" }),
        KvValue::Duration(_, secs) => {
            out.append(secs.text());
            out.push('s');
        },
        KvValue::Missing => out.push('\u{2014}'),
    }
}

/// A lowercase hexadecimal digit, as `char::from_digit(d, 16)` gives it.
pub open spec fn lower_hex_digit(d: nat) -> char {
    if d < 10 {
        (48 + d) as char
    } else {
        (87 + d) as char
    }
}

/// What one character becomes inside a JSON string.
pub open spec fn json_char(c: char) -> Seq<char> {
    if c == '"' {
        seq!['\\', '"']
    } else if c == '\\' {
        seq!['\\', '\\']
    } else if c == '\n' {
        seq!['\\', 'n']
    } else if c == '\r' {
        seq!['\\', 'r']
    } else if c == '\t' {
        seq!['\\', 't']
    } else if (c as u32) < 0x20 {
        seq!['\\', 'u', '0', '0', lower_hex_digit((c as u32 / 16) as nat), lower_hex_digit((c as u32 % 16) as nat)]
    } else {
        seq![c]
    }
}

/// A JSON string literal holding `s`.
pub open spec fn json_string(s: Seq<char>) -> Seq<char> {
    seq!['"'] + concat(s.map_values(|c: char| json_char(c))) + seq!['"']
}

fn hex_digit(d: u32) -> (c: char)
    requires
        d < 16,
    ensures
        c == lower_hex_digit(d as nat),
{
    if d < 10 {
        ((48 + d) as u8) as char
    } else {
        ((87 + d) as u8) as char
    }
}

/// Appends `s` as a JSON string literal.
pub fn json_escape_str(out: &mut String, s: &str)
    ensures
        final(out)@ == old(out)@ + json_string(s@),
{
    out.push('"');
    let v = chars_of(s);
    let ghost start = out@;
    let ghost parts = v@.map_values(|c: char| json_char(c));
    let mut i: usize = 0;
    while i < v.len()
        invariant
            i <= v.len(),
            v@ == s@,
            parts == v@.map_values(|c: char| json_char(c)),
            out@ == start + concat(parts.take(i as int)),
        decreases v.len() - i,
    {
        proof {
            lemma_concat_step(parts, i as int);
        }
        let c = v[i];
        if c == '"' {
            out.push('\\');
            out.push('"');
        } else if c == '\\' {
            out.push('\\');
            out.push('\\');
        } else if c == '\n' {
            out.push('\\');
            out.push('n');
        } else if c == '\r' {
            out.push('\\');
            out.push('r');
        } else if c == '\t' {
            out.push('\\');
            out.push('t');
        } else if (c as u32) < 0x20 {
            let code = c as u32;
            out.push('\\');
            out.push('u');
            out.push('0');
            out.push('0');
            out.push(hex_digit(code / 16));
            out.push(hex_digit(code % 16));
        } else {
            out.push(c);
        }
        i = i + 1;
    }
    assert(parts.take(v.len() as int) =~= parts);
    out.push('"');
}

/// The JSON rendering of a value: strings and durations quoted, non-finite
/// floats quoted, `Missing` as `null`.
pub open spec fn kv_value_json(v: KvValue) -> Seq<char> {
    match v {
        KvValue::Text(s) => json_string(s@),
        KvValue::Int(n) => int_text(n as int),
        KvValue::Float(f, _) => if is_finite_bits(f.bits_view()) {
            f.text_view()
        } else {
            json_string(f.text_view())
        },
        KvValue::Bool(b) => bool_text(b),
        KvValue::Duration(_, secs) => json_string(secs.text_view() + seq!['s']),
        KvValue::Missing => "null"@,
    }
}

/// Appends the JSON rendering of a value.
pub fn kv_value_to_json(out: &mut String, value: &KvValue)
    ensures
        final(out)@ == old(out)@ + kv_value_json(*value),
{
    match value {
        KvValue::Text(s) => json_escape_str(out, s.as_str()),
        KvValue::Int(n) => push_i64(out, *n),
        KvValue::Float(f, _) => {
            if f.is_finite() {
                out.append(f.text());
            } else {
                json_escape_str(out, f.text());
            }
        },
        KvValue::Bool(b) => out.append(if *b { "true" } else { "false" }),
        KvValue::Duration(_, secs) => {
            let mut t = owned(secs.text());
            t.push('s');
            assert(t@ =~= secs.text_view() + seq!['s']);
            json_escape_str(out, t.as_str());
        },
        KvValue::Missing => out.append("null"),
    }
}

/// A line of a key-value block as text: the key and the rendered value.
pub open spec fn kv_entry(item: KvItem) -> (Seq<char>, Seq<char>) {
    (item.key@, kv_value_text(item.value))
}

/// The entries of a sequence of items.
pub open spec fn kv_entries(items: Seq<KvItem>) -> Seq<(Seq<char>, Seq<char>)> {
    items.map_values(|it: KvItem| kv_entry(it))
}

/// The widest key, in characters.
pub open spec fn max_key_len(entries: Seq<(Seq<char>, Seq<char>)>) -> nat
    decreases entries.len(),
{
    if entries.len() == 0 {
        0
    } else {
        let rest = max_key_len(entries.drop_last());
        if entries.last().0.len() > rest {
            entries.last().0.len()
        } else {
            rest
        }
    }
}

/// `n` spaces.
pub open spec fn spaces(n: nat) -> Seq<char> {
    Seq::new(n, |i: int| ' ')
}

/// One aligned line: key, colon, padding up to the widest key plus one
/// space, the value, a line feed.
pub open spec fn kv_line(entry: (Seq<char>, Seq<char>), width: nat) -> Seq<char> {
    entry.0 + seq![':'] + spaces((width - entry.0.len() + 1) as nat) + entry.1 + seq!['\n']
}

/// The key-value block: nothing at all when there are no entries; otherwise
/// the aligned lines, a `totalCount: N` line when given, and the hints.
pub open spec fn kv_block(entries: Seq<(Seq<char>, Seq<char>)>, total: Option<usize>, hints: Seq<Hint>) -> Seq<char> {
    if entries.len() == 0 {
        seq![]
    } else {
        let width = max_key_len(entries);
        concat(entries.map_values(|e: (Seq<char>, Seq<char>)| kv_line(e, width))) + match total {
            Some(t) => "totalCount: "@ + decimal(t as nat) + seq!['\n'],
            None => seq![],
        } + hints_block(hints)
    }
}

/// The key-value block of a sequence of items.
pub open spec fn kv_text(items: Seq<KvItem>, total: Option<usize>, hints: Seq<Hint>) -> Seq<char> {
    kv_block(kv_entries(items), total, hints)
}

proof fn lemma_max_key_len(entries: Seq<(Seq<char>, Seq<char>)>)
    ensures
        forall|i: int| 0 <= i < entries.len() ==> (#[trigger] entries[i]).0.len() <= max_key_len(entries),
    decreases entries.len(),
{
    if entries.len() > 0 {
        lemma_max_key_len(entries.drop_last());
        assert forall|i: int| 0 <= i < entries.len() implies (#[trigger] entries[i]).0.len() <= max_key_len(entries) by {
            if i < entries.len() - 1 {
                assert(entries[i] == entries.drop_last()[i]);
            }
        }
    }
}

/// Render key-value pairs as a column-aligned block. Keys are padded by
/// character count, not display width.
pub fn render_kv(items: &[KvItem], total_count: Option<usize>, hints: &[Hint]) -> (s: String)
    ensures
        s@ == kv_text(items@, total_count, hints@),
        ({
            &&& items@.len() > 0
            &&& forall|i: int| 0 <= i < items@.len() ==> !(#[trigger] items@[i]).key@.contains('\n')
            &&& forall|i: int| 0 <= i < hints@.len() ==> !(#[trigger] hints@[i]).0@.contains('\n')
        }) ==> line_count(s@) == items@.len() + (if total_count is Some {
            1nat
        } else {
            0nat
        }) + (if hints@.len() > 0 {
            hints@.len() + 1
        } else {
            0nat
        }),
{
    let ghost entries = kv_entries(items@);
    if items.len() == 0 {
        return String::new();
    }
    let mut widths: Vec<usize> = Vec::new();
    let mut width: usize = 0;
    let mut i: usize = 0;
    while i < items.len()
        invariant
            i <= items.len(),
            entries == kv_entries(items@),
            widths@.len() == i,
            forall|j: int| 0 <= j < i ==> (#[trigger] widths@[j]) == items@[j].key@.len(),
            width == max_key_len(entries.take(i as int)),
        decreases items.len() - i,
    {
        let w = chars_of(items[i].key.as_str()).len();
        assert(entries.take(i + 1).drop_last() =~= entries.take(i as int));
        widths.push(w);
        if w > width {
            width = w;
        }
        i = i + 1;
    }
    assert(entries.take(items.len() as int) =~= entries);
    proof {
        lemma_max_key_len(entries);
    }
    let mut out = String::new();
    let ghost lines = entries.map_values(|e: (Seq<char>, Seq<char>)| kv_line(e, width as nat));
    let mut k: usize = 0;
    while k < items.len()
        invariant
            k <= items.len(),
            entries == kv_entries(items@),
            widths@.len() == items@.len(),
            forall|j: int| 0 <= j < items@.len() ==> (#[trigger] widths@[j]) == items@[j].key@.len(),
            width == max_key_len(entries),
            forall|j: int| 0 <= j < entries.len() ==> (#[trigger] entries[j]).0.len() <= max_key_len(entries),
            lines == entries.map_values(|e: (Seq<char>, Seq<char>)| kv_line(e, width as nat)),
            out@ == concat(lines.take(k as int)),
            forall|j: int| 0 <= j < k ==> value_single_line(#[trigger] items@[j].value),
        decreases items.len() - k,
    {
        proof {
            lemma_concat_step(lines, k as int);
        }
        let ghost before = out@;
        out.append(items[k].key.as_str());
        out.push(':');
        assert(entries[k as int].0.len() <= max_key_len(entries));
        let pad = width - widths[k];
        out.push(' ');
        assert(spaces(1) =~= seq![' ']);
        let mut p: usize = 0;
        while p < pad
            invariant
                p <= pad,
                k < items@.len(),
                out@ == before + items@[k as int].key@ + seq![':'] + spaces((p + 1) as nat),
            decreases pad - p,
        {
            out.push(' ');
            p = p + 1;
            assert(spaces((p + 1) as nat) =~= spaces(p as nat).push(' '));
        }
        push_kv_value(&mut out, &items[k].value);
        out.push('\n');
        k = k + 1;
    }
    assert(lines.take(items.len() as int) =~= lines);
    if let Some(total) = total_count {
        out.append("totalCount: ");
        push_usize(&mut out, total);
        out.push('\n');
    }
    append_hints(&mut out, hints);
    proof {
        if (forall|i: int| 0 <= i < items@.len() ==> !(#[trigger] items@[i]).key@.contains('\n')) && (forall|i: int|
            0 <= i < hints@.len() ==> !(#[trigger] hints@[i]).0@.contains('\n')) {
            assert forall|i: int| 0 <= i < items@.len() implies !(#[trigger] items@[i]).key@.contains('\n')
                && value_single_line(items@[i].value) by {
                assert(value_single_line(items@[i].value));
            }
            law_kv_one_line_per_item(items@, total_count, hints@);
            assert(out@ == kv_text(items@, total_count, hints@));
        }
    }
    out
}

proof fn lemma_json_char_printable(c: char)
    ensures
        forall|i: int| 0 <= i < json_char(c).len() ==> (#[trigger] json_char(c)[i]) as u32 >= 0x20,
{
    if !(c == '"' || c == '\\' || c == '\n' || c == '\r' || c == '\t') && (c as u32) < 0x20 {
        let hi = (c as u32 / 16) as nat;
        let lo = (c as u32 % 16) as nat;
        assert(lower_hex_digit(hi) as u32 >= 0x30);
        assert(lower_hex_digit(lo) as u32 >= 0x30);
    }
}

proof fn lemma_concat_printable(parts: Seq<Seq<char>>)
    requires
        forall|k: int, i: int| 0 <= k < parts.len() && 0 <= i < parts[k].len() ==> (#[trigger] parts[k][i]) as u32
            >= 0x20,
    ensures
        forall|i: int| 0 <= i < concat(parts).len() ==> (#[trigger] concat(parts)[i]) as u32 >= 0x20,
    decreases parts.len(),
{
    if parts.len() > 0 {
        let init = parts.drop_last();
        assert forall|k: int, i: int| 0 <= k < init.len() && 0 <= i < init[k].len() implies (#[trigger] init[k][i]) as u32
            >= 0x20 by {
            assert(init[k] == parts[k]);
        }
        lemma_concat_printable(init);
        let a = concat(init);
        let b = parts.last();
        assert(concat(parts) == a + b);
        assert forall|i: int| 0 <= i < concat(parts).len() implies (#[trigger] concat(parts)[i]) as u32 >= 0x20 by {
            if i < a.len() {
                assert(concat(parts)[i] == a[i]);
            } else {
                assert(concat(parts)[i] == b[i - a.len()]);
                assert(b == parts[parts.len() - 1]);
            }
        }
    }
}

/// A JSON string literal never holds a raw control character: whatever the
/// input, every character below U+0020 comes out escaped.
pub proof fn law_json_string_printable(s: Seq<char>)
    ensures
        json_string(s).first() == '"',
        json_string(s).last() == '"',
        forall|i: int| 0 <= i < json_string(s).len() ==> (#[trigger] json_string(s)[i]) as u32 >= 0x20,
{
    let parts = s.map_values(|c: char| json_char(c));
    assert forall|k: int, i: int| 0 <= k < parts.len() && 0 <= i < parts[k].len() implies (#[trigger] parts[k][i]) as u32
        >= 0x20 by {
        lemma_json_char_printable(s[k]);
    }
    lemma_concat_printable(parts);
    let body = concat(parts);
    let j = json_string(s);
    assert(j == seq!['"'] + body + seq!['"']);
    assert forall|i: int| 0 <= i < j.len() implies (#[trigger] j[i]) as u32 >= 0x20 by {
        if 0 < i < j.len() - 1 {
            assert(j[i] == body[i - 1]);
        }
    }
}

/// Values in a key-value block share one column: every line holds its key,
/// a colon, then padding that puts the value two characters past the widest
/// key.
pub proof fn law_kv_value_column(entries: Seq<(Seq<char>, Seq<char>)>, i: int)
    requires
        0 <= i < entries.len(),
    ensures
        ({
            let w = max_key_len(entries);
            let line = kv_line(entries[i], w);
            &&& line.take(entries[i].0.len() as int) == entries[i].0
            &&& line[entries[i].0.len() as int] == ':'
            &&& line.subrange((w + 2) as int, (w + 2 + entries[i].1.len()) as int) == entries[i].1
            &&& line.len() == w + 3 + entries[i].1.len()
        }),
{
    lemma_max_key_len(entries);
    let w = max_key_len(entries);
    let e = entries[i];
    let line = kv_line(e, w);
    assert(e.0.len() <= w);
    let pad = spaces((w - e.0.len() + 1) as nat);
    assert(line == e.0 + seq![':'] + pad + e.1 + seq!['\n']);
    assert(line.take(e.0.len() as int) =~= e.0);
    assert(line.subrange((w + 2) as int, (w + 2 + e.1.len()) as int) =~= e.1);
}

/// Whether a value's text cannot hold a line feed: its float or duration
/// text is what formatting gives (which holds of every `FloatText`).
pub open spec fn value_single_line(v: KvValue) -> bool {
    match v {
        KvValue::Float(f, _) => f.wf(),
        KvValue::Duration(_, secs) => secs.wf(),
        _ => true,
    }
}

/// The text of a value that [`value_single_line`] admits holds no line feed.
pub proof fn lemma_value_no_lines(v: KvValue)
    requires
        value_single_line(v),
    ensures
        line_count(kv_value_text(v)) == 0,
{
    match v {
        KvValue::Text(s) => {
            let pred = |c: char| c != '\n' && c != '\r';
            let t = s@.filter(pred);
            assert forall|i: int| 0 <= i < t.len() implies t[i] != '\n' by {
                s@.lemma_filter_pred(pred, i);
            }
            lemma_no_line_feed(t);
        },
        KvValue::Int(n) => {
            if n < 0 {
                lemma_decimal_no_line_feed((-(n as int)) as nat);
                lemma_lacks_line_feed(seq!['-']);
                lemma_line_count_add(seq!['-'], decimal((-(n as int)) as nat));
            } else {
                lemma_decimal_no_line_feed(n as nat);
            }
        },
        KvValue::Float(f, _) => {
            lemma_float_text_plain(f);
            lemma_lacks_line_feed(f.text_view());
        },
        KvValue::Bool(b) => {
            reveal_strlit("true");
            reveal_strlit("false");
            lemma_lacks_line_feed(bool_text(b));
        },
        KvValue::Duration(_, secs) => {
            lemma_float_text_plain(secs);
            lemma_lacks_line_feed(secs.text_view());
            lemma_lacks_line_feed(seq!['s']);
            lemma_line_count_add(secs.text_view(), seq!['s']);
        },
        KvValue::Missing => {
            lemma_lacks_line_feed(seq!['\u{2014}']);
        },
    }
}

proof fn lemma_hints_block_lines(hints: Seq<Hint>)
    requires
        forall|i: int| 0 <= i < hints.len() ==> !(#[trigger] hints[i]).0@.contains('\n'),
    ensures
        line_count(hints_block(hints)) == if hints.len() > 0 {
            hints.len() + 1
        } else {
            0nat
        },
{
    if hints.len() > 0 {
        let texts = hint_texts(hints);
        let lines = texts.map_values(|h: Seq<char>| indented_line(h));
        lemma_line_feed();
        lemma_lacks_line_feed(seq![' ', ' ']);
        assert forall|i: int| 0 <= i < lines.len() implies line_count(#[trigger] lines[i]) == 1 by {
            lemma_lacks_line_feed(texts[i]);
            lemma_line_count_add(seq![' ', ' '], texts[i]);
            lemma_line_count_add(seq![' ', ' '] + texts[i], seq!['\n']);
        }
        lemma_concat_lines(lines);
        reveal_strlit("help");
        lemma_lacks_line_feed("help"@);
        lemma_lacks_line_feed(seq!['[']);
        lemma_line_count_add("help"@, seq!['[']);
        lemma_decimal_no_line_feed(texts.len());
        lemma_line_count_add("help"@ + seq!['['], decimal(texts.len()));
        lemma_lacks_line_feed(seq![']', ':']);
        lemma_line_count_add(seq![']', ':'], seq!['\n']);
        assert(seq![']', ':', '\n'] =~= seq![']', ':'] + seq!['\n']);
        lemma_line_count_add("help"@ + seq!['['] + decimal(texts.len()), seq![']', ':', '\n']);
        lemma_line_count_add("help"@ + seq!['['] + decimal(texts.len()) + seq![']', ':', '\n'], concat(lines));
    }
}

/// A block of entries whose keys and values hold no line feed keeps one
/// line per entry, then the total count and hint lines.
pub proof fn lemma_block_lines(entries: Seq<(Seq<char>, Seq<char>)>, total: Option<usize>, hints: Seq<Hint>)
    requires
        entries.len() > 0,
        forall|i: int|
            0 <= i < entries.len() ==> !(#[trigger] entries[i]).0.contains('\n') && line_count(entries[i].1) == 0,
        forall|i: int| 0 <= i < hints.len() ==> !(#[trigger] hints[i]).0@.contains('\n'),
    ensures
        line_count(kv_block(entries, total, hints)) == entries.len() + (if total is Some {
            1nat
        } else {
            0nat
        }) + (if hints.len() > 0 {
            hints.len() + 1
        } else {
            0nat
        }),
{
    let w = max_key_len(entries);
    let lines = entries.map_values(|e: (Seq<char>, Seq<char>)| kv_line(e, w));
    lemma_line_feed();
    lemma_lacks_line_feed(seq![':']);
    assert forall|i: int| 0 <= i < lines.len() implies line_count(#[trigger] lines[i]) == 1 by {
        let e = entries[i];
        lemma_lacks_line_feed(e.0);
        let pad = spaces((w - e.0.len() + 1) as nat);
        lemma_no_line_feed(pad);
        lemma_line_count_add(e.0, seq![':']);
        lemma_line_count_add(e.0 + seq![':'], pad);
        lemma_line_count_add(e.0 + seq![':'] + pad, e.1);
        lemma_line_count_add(e.0 + seq![':'] + pad + e.1, seq!['\n']);
    }
    lemma_concat_lines(lines);
    let t = match total {
        Some(n) => "totalCount: "@ + decimal(n as nat) + seq!['\n'],
        None => seq![],
    };
    if let Some(n) = total {
        reveal_strlit("totalCount: ");
        lemma_lacks_line_feed("totalCount: "@);
        lemma_decimal_no_line_feed(n as nat);
        lemma_line_count_add("totalCount: "@, decimal(n as nat));
        lemma_line_count_add("totalCount: "@ + decimal(n as nat), seq!['\n']);
    } else {
        assert(line_count(t) == 0);
    }
    lemma_hints_block_lines(hints);
    lemma_line_count_add(concat(lines), t);
    lemma_line_count_add(concat(lines) + t, hints_block(hints));
}

/// A key-value block keeps one line per item: its items, then a
/// `totalCount` line when given, then a `help[N]:` line and one line per
/// hint; nothing at all without items. This holds whenever no key or hint
/// holds a line feed: text values lose their line breaks, and the float and
/// duration texts of every `KvValue` are plain numerals (`render_kv` states
/// the same of the block it returns).
pub proof fn law_kv_one_line_per_item(items: Seq<KvItem>, total: Option<usize>, hints: Seq<Hint>)
    requires
        forall|i: int|
            0 <= i < items.len() ==> !(#[trigger] items[i]).key@.contains('\n') && value_single_line(items[i].value),
        forall|i: int| 0 <= i < hints.len() ==> !(#[trigger] hints[i]).0@.contains('\n'),
    ensures
        items.len() == 0 ==> kv_text(items, total, hints) == Seq::<char>::empty(),
        items.len() > 0 ==> line_count(kv_text(items, total, hints)) == items.len() + (if total is Some {
            1nat
        } else {
            0nat
        }) + (if hints.len() > 0 {
            hints.len() + 1
        } else {
            0nat
        }),
{
    let entries = kv_entries(items);
    if items.len() > 0 {
        assert forall|i: int| 0 <= i < entries.len() implies !(#[trigger] entries[i]).0.contains('\n') && line_count(
            entries[i].1,
        ) == 0 by {
            lemma_value_no_lines(items[i].value);
        }
        lemma_block_lines(entries, total, hints);
    }
}

/// The value of a hexadecimal digit, in either case.
pub open spec fn hex_value(c: char) -> Option<nat> {
    if '0' <= c <= '9' {
        Some((c as nat - 48) as nat)
    } else if 'a' <= c <= 'f' {
        Some((c as nat - 87) as nat)
    } else if 'A' <= c <= 'F' {
        Some((c as nat - 55) as nat)
    } else {
        None
    }
}

/// The code point of four hexadecimal digits at the start of a text.
pub open spec fn hex4(t: Seq<char>) -> Option<nat> {
    match (hex_value(t[0]), hex_value(t[1]), hex_value(t[2]), hex_value(t[3])) {
        (Some(a), Some(b), Some(c), Some(d)) => Some(a * 4096 + b * 256 + c * 16 + d),
        _ => None,
    }
}

/// A character in front of an unescaped remainder.
pub open spec fn unescaped_after(c: char, rest: Option<Seq<char>>) -> Option<Seq<char>> {
    match rest {
        Some(r) => Some(seq![c] + r),
        None => None,
    }
}

/// What a JSON string body (the text between the quotes) stands for, as
/// RFC 8259 reads it: `\"`, `\\`, `\/`, `\b`, `\f`, `\n`, `\r`, `\t` and
/// `\u` with four hex digits; `None` for an unescaped quote or control
/// character, an unknown escape, or a `\u` escape of a surrogate (pairs of
/// those are not read here).
pub open spec fn json_unescape(t: Seq<char>) -> Option<Seq<char>>
    decreases t.len(),
{
    if t.len() == 0 {
        Some(seq![])
    } else if t[0] == '\\' {
        if t.len() < 2 {
            None
        } else {
            let e = t[1];
            if e == '"' || e == '\\' || e == '/' {
                unescaped_after(e, json_unescape(t.skip(2)))
            } else if e == 'b' {
                unescaped_after('\u{8}', json_unescape(t.skip(2)))
            } else if e == 'f' {
                unescaped_after('\u{c}', json_unescape(t.skip(2)))
            } else if e == 'n' {
                unescaped_after('\n', json_unescape(t.skip(2)))
            } else if e == 'r' {
                unescaped_after('\r', json_unescape(t.skip(2)))
            } else if e == 't' {
                unescaped_after('\t', json_unescape(t.skip(2)))
            } else if e == 'u' && t.len() >= 6 {
                match hex4(t.skip(2)) {
                    Some(v) => if v < 0xD800 || 0xE000 <= v {
                        unescaped_after(v as char, json_unescape(t.skip(6)))
                    } else {
                        None
                    },
                    None => None,
                }
            } else {
                None
            }
        }
    } else if t[0] == '"' || (t[0] as u32) < 0x20 {
        None
    } else {
        unescaped_after(t[0], json_unescape(t.skip(1)))
    }
}

proof fn lemma_concat_front(p: Seq<char>, ps: Seq<Seq<char>>)
    ensures
        concat(seq![p] + ps) == p + concat(ps),
    decreases ps.len(),
{
    let whole = seq![p] + ps;
    if ps.len() == 0 {
        assert(whole =~= seq![p]);
        assert(whole.drop_last() =~= Seq::<Seq<char>>::empty());
        assert(concat(whole.drop_last()) == Seq::<char>::empty());
        assert(concat(whole) == concat(whole.drop_last()) + whole.last());
        assert(concat(ps) == Seq::<char>::empty());
        assert(concat(whole) =~= p + concat(ps));
    } else {
        lemma_concat_front(p, ps.drop_last());
        assert(whole.drop_last() =~= seq![p] + ps.drop_last());
        assert(whole.last() == ps.last());
        assert(concat(whole) == concat(whole.drop_last()) + whole.last());
        assert(concat(ps) == concat(ps.drop_last()) + ps.last());
        assert(concat(whole) =~= p + concat(ps));
    }
}

proof fn lemma_unescape_char(c: char, rest: Seq<char>)
    ensures
        json_unescape(json_char(c) + rest) == unescaped_after(c, json_unescape(rest)),
{
    let t = json_char(c) + rest;
    if c == '"' || c == '\\' || c == '\n' || c == '\r' || c == '\t' {
        assert(t.skip(2) =~= rest);
    } else if (c as u32) < 0x20 {
        let hi = (c as u32 / 16) as nat;
        let lo = (c as u32 % 16) as nat;
        assert(t.skip(6) =~= rest);
        assert(t.skip(2)[0] == '0' && t.skip(2)[1] == '0');
        assert(t.skip(2)[2] == lower_hex_digit(hi) && t.skip(2)[3] == lower_hex_digit(lo));
        assert(hex_value(lower_hex_digit(hi)) == Some(hi));
        assert(hex_value(lower_hex_digit(lo)) == Some(lo));
        assert(hex4(t.skip(2)) == Some(hi * 16 + lo));
        assert(hi * 16 + lo == c as u32);
    } else {
        assert(t.skip(1) =~= rest);
    }
}

proof fn lemma_unescape_body(s: Seq<char>)
    ensures
        json_unescape(concat(s.map_values(|c: char| json_char(c)))) == Some(s),
    decreases s.len(),
{
    if s.len() == 0 {
        assert(s.map_values(|c: char| json_char(c)) =~= Seq::<Seq<char>>::empty());
    } else {
        let rest = s.skip(1);
        lemma_unescape_body(rest);
        let parts = s.map_values(|c: char| json_char(c));
        let rparts = rest.map_values(|c: char| json_char(c));
        assert(parts =~= seq![json_char(s[0])] + rparts);
        lemma_concat_front(json_char(s[0]), rparts);
        lemma_unescape_char(s[0], concat(rparts));
        assert(seq![s[0]] + rest =~= s);
    }
}

/// Escaping round-trips exactly: the body of every JSON string literal the
/// library writes reads back, under JSON's unescaping, as the text it holds.
pub proof fn law_json_string_round_trip(s: Seq<char>)
    ensures
        json_unescape(json_string(s).subrange(1, json_string(s).len() - 1)) == Some(s),
{
    let body = concat(s.map_values(|c: char| json_char(c)));
    assert(json_string(s).subrange(1, json_string(s).len() - 1) =~= body);
    lemma_unescape_body(s);
}

} // verus!
