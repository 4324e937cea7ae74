//! Character-level building blocks shared by every renderer: decimal and
//! hexadecimal digits, appending characters and slices of characters.
use std::borrow::Cow;
use vstd::prelude::*;

verus! {

/// `String::push` appends exactly one character.
pub assume_specification[ String::push ](s: &mut String, ch: char)
    ensures
        final(s)@ == old(s)@.push(ch),
;

/// `String::with_capacity` makes an empty string; it panics past
/// `isize::MAX` bytes.
pub assume_specification[ String::with_capacity ](capacity: usize) -> (s: String)
    requires
        capacity <= isize::MAX,
    ensures
        s@ == Seq::<char>::empty(),
;

/// Joins character sequences with a separator between neighbours.
pub open spec fn join(parts: Seq<Seq<char>>, sep: Seq<char>) -> Seq<char>
    decreases parts.len(),
{
    if parts.len() == 0 {
        seq![]
    } else if parts.len() == 1 {
        parts[0]
    } else {
        join(parts.drop_last(), sep) + sep + parts.last()
    }
}

/// Concatenates character sequences in order.
pub open spec fn concat(parts: Seq<Seq<char>>) -> Seq<char>
    decreases parts.len(),
{
    if parts.len() == 0 {
        seq![]
    } else {
        concat(parts.drop_last()) + parts.last()
    }
}

/// Growing a join by one part.
pub proof fn lemma_join_step(parts: Seq<Seq<char>>, sep: Seq<char>, i: int)
    requires
        0 <= i < parts.len(),
    ensures
        join(parts.take(i + 1), sep) == if i == 0 {
            parts[0]
        } else {
            join(parts.take(i), sep) + sep + parts[i]
        },
{
    assert(parts.take(i + 1).drop_last() =~= parts.take(i));
}

/// Growing a concatenation by one part.
pub proof fn lemma_concat_step(parts: Seq<Seq<char>>, i: int)
    requires
        0 <= i < parts.len(),
    ensures
        concat(parts.take(i + 1)) == concat(parts.take(i)) + parts[i],
{
    assert(parts.take(i + 1).drop_last() =~= parts.take(i));
}

/// The text of a boolean.
pub open spec fn bool_text(b: bool) -> Seq<char> {
    if b {
        "true"@
    } else {
        "false"@
    }
}

/// One indented line of a block: two spaces, the text, a line feed.
pub open spec fn indented_line(h: Seq<char>) -> Seq<char> {
    seq![' ', ' '] + h + seq!['\n']
}

/// A `NAME[N]:` block header followed by one indented line per entry;
/// empty when there are no entries.
pub open spec fn listing_block(name: Seq<char>, lines: Seq<Seq<char>>) -> Seq<char> {
    if lines.len() == 0 {
        seq![]
    } else {
        name + seq!['['] + decimal(lines.len()) + seq![']', ':', '\n'] + concat(
            lines.map_values(|h: Seq<char>| indented_line(h)),
        )
    }
}

/// The `help[N]:` block of the given hint texts.
pub open spec fn help_block(hints: Seq<Seq<char>>) -> Seq<char> {
    listing_block("help"@, hints)
}

/// Appends a `NAME[N]:` block listing the given strings verbatim (nothing
/// when there are none).
pub fn push_listing(out: &mut String, name: &str, items: &[String])
    ensures
        final(out)@ == old(out)@ + listing_block(name@, items@.map_values(|s: String| s@)),
{
    if items.len() == 0 {
        return;
    }
    out.append(name);
    out.push('[');
    push_usize(out, items.len());
    out.push(']');
    out.push(':');
    out.push('\n');
    let ghost start = out@;
    let ghost lines = items@.map_values(|s: String| s@).map_values(|h: Seq<char>| indented_line(h));
    let mut i: usize = 0;
    while i < items.len()
        invariant
            i <= items.len(),
            lines == items@.map_values(|s: String| s@).map_values(|h: Seq<char>| indented_line(h)),
            out@ == start + concat(lines.take(i as int)),
        decreases items.len() - i,
    {
        proof {
            lemma_concat_step(lines, i as int);
        }
        out.push(' ');
        out.push(' ');
        out.append(items[i].as_str());
        out.push('\n');
        i = i + 1;
    }
    assert(lines.take(items.len() as int) =~= lines);
}

/// Appends the lowest `width` hexadecimal digits of `n`.
pub fn push_hex_fixed(out: &mut String, n: u64, width: u32)
    ensures
        final(out)@ == old(out)@ + hex_fixed(n as nat, width as nat),
    decreases width,
{
    if width == 0 {
        return;
    }
    push_hex_fixed(out, n / 16, width - 1);
    let d: u64 = n % 16;
    let c = if d < 10 {
        (48u8 + (d as u8)) as char
    } else {
        (87u8 + (d as u8)) as char
    };
    assert(c == hex_char(d as nat));
    out.push(c);
}

/// The character for a decimal digit.
pub open spec fn digit_char(d: nat) -> char
    recommends
        d < 10,
{
    (48 + d) as char
}

/// Decimal text of a natural number, most significant digit first, no
/// leading zeros (zero is `"0"`).
pub open spec fn decimal(n: nat) -> Seq<char>
    decreases n,
{
    if n < 10 {
        seq![digit_char(n)]
    } else {
        decimal(n / 10).push(digit_char(n % 10))
    }
}

/// Decimal text of a signed integer: a `-` before the magnitude when negative.
pub open spec fn int_text(n: int) -> Seq<char> {
    if n < 0 {
        seq!['-'] + decimal((-n) as nat)
    } else {
        decimal(n as nat)
    }
}

/// Lowercase hexadecimal digit.
pub open spec fn hex_char(d: nat) -> char
    recommends
        d < 16,
{
    if d < 10 {
        (48 + d) as char
    } else {
        (87 + d) as char
    }
}

/// The lowest `width` hexadecimal digits of `n`, most significant first,
/// zero padded.
pub open spec fn hex_fixed(n: nat, width: nat) -> Seq<char>
    decreases width,
{
    if width == 0 {
        seq![]
    } else {
        hex_fixed(n / 16, (width - 1) as nat).push(hex_char(n % 16))
    }
}

/// The number of line feeds in a text.
pub open spec fn line_count(s: Seq<char>) -> nat
    decreases s.len(),
{
    if s.len() == 0 {
        0
    } else {
        line_count(s.drop_last()) + if s.last() == '\n' {
            1nat
        } else {
            0nat
        }
    }
}

/// A line feed alone is one line.
pub proof fn lemma_line_feed()
    ensures
        line_count(seq!['\n']) == 1,
{
    assert(seq!['\n'].drop_last() =~= Seq::<char>::empty());
    assert(line_count(Seq::<char>::empty()) == 0);
}

/// Line feeds add up over a concatenation.
pub proof fn lemma_line_count_add(a: Seq<char>, b: Seq<char>)
    ensures
        line_count(a + b) == line_count(a) + line_count(b),
    decreases b.len(),
{
    if b.len() == 0 {
        assert(a + b =~= a);
    } else {
        lemma_line_count_add(a, b.drop_last());
        assert((a + b).drop_last() =~= a + b.drop_last());
        assert((a + b).last() == b.last());
    }
}

/// A text without a line feed counts none.
pub proof fn lemma_no_line_feed(s: Seq<char>)
    requires
        forall|i: int| 0 <= i < s.len() ==> s[i] != '\n',
    ensures
        line_count(s) == 0,
    decreases s.len(),
{
    if s.len() > 0 {
        let init = s.drop_last();
        assert forall|i: int| 0 <= i < init.len() implies init[i] != '\n' by {
            assert(init[i] == s[i]);
        }
        lemma_no_line_feed(init);
        assert(s.last() == s[s.len() - 1]);
    }
}

/// A text that does not contain a line feed counts none.
pub proof fn lemma_lacks_line_feed(s: Seq<char>)
    requires
        !s.contains('\n'),
    ensures
        line_count(s) == 0,
{
    assert forall|i: int| 0 <= i < s.len() implies s[i] != '\n' by {
        if s[i] == '\n' {
            assert(s.contains('\n'));
        }
    }
    lemma_no_line_feed(s);
}

/// A character missing from two texts is missing from their concatenation.
pub proof fn lemma_add_avoids(a: Seq<char>, b: Seq<char>, c: char)
    requires
        !a.contains(c),
        !b.contains(c),
    ensures
        !(a + b).contains(c),
{
    if (a + b).contains(c) {
        let i = choose|i: int| 0 <= i < (a + b).len() && (a + b)[i] == c;
        if i < a.len() {
            assert(a[i] == c);
        } else {
            assert(b[i - a.len()] == c);
        }
    }
}

/// A character missing from every part is missing from their concatenation.
pub proof fn lemma_concat_avoids(parts: Seq<Seq<char>>, c: char)
    requires
        forall|k: int| 0 <= k < parts.len() ==> !(#[trigger] parts[k]).contains(c),
    ensures
        !concat(parts).contains(c),
    decreases parts.len(),
{
    if parts.len() > 0 {
        let init = parts.drop_last();
        assert forall|k: int| 0 <= k < init.len() implies !(#[trigger] init[k]).contains(c) by {
            assert(init[k] == parts[k]);
        }
        lemma_concat_avoids(init, c);
        assert(parts.last() == parts[parts.len() - 1]);
        lemma_add_avoids(concat(init), parts.last(), c);
    }
}

/// A character missing from every part and from the separator is missing
/// from their join.
pub proof fn lemma_join_avoids(parts: Seq<Seq<char>>, sep: Seq<char>, c: char)
    requires
        forall|k: int| 0 <= k < parts.len() ==> !(#[trigger] parts[k]).contains(c),
        !sep.contains(c),
    ensures
        !join(parts, sep).contains(c),
    decreases parts.len(),
{
    if parts.len() == 1 {
        assert(!parts[0].contains(c));
    } else if parts.len() > 1 {
        let init = parts.drop_last();
        assert forall|k: int| 0 <= k < init.len() implies !(#[trigger] init[k]).contains(c) by {
            assert(init[k] == parts[k]);
        }
        lemma_join_avoids(init, sep, c);
        lemma_add_avoids(join(init, sep), sep, c);
        assert(parts.last() == parts[parts.len() - 1]);
        lemma_add_avoids(join(init, sep) + sep, parts.last(), c);
    }
}

/// A text whose every character differs from `c` does not contain it.
pub proof fn lemma_avoids(s: Seq<char>, c: char)
    requires
        forall|i: int| 0 <= i < s.len() ==> s[i] != c,
    ensures
        !s.contains(c),
{
}

/// Parts of one line each make as many lines as there are parts.
pub proof fn lemma_concat_lines(parts: Seq<Seq<char>>)
    requires
        forall|i: int| 0 <= i < parts.len() ==> line_count(#[trigger] parts[i]) == 1,
    ensures
        line_count(concat(parts)) == parts.len(),
    decreases parts.len(),
{
    if parts.len() > 0 {
        let init = parts.drop_last();
        assert forall|i: int| 0 <= i < init.len() implies line_count(#[trigger] init[i]) == 1 by {
            assert(init[i] == parts[i]);
        }
        lemma_concat_lines(init);
        lemma_line_count_add(concat(init), parts.last());
        assert(parts.last() == parts[parts.len() - 1]);
    }
}

/// Joining parts without line feeds by a separator without one gives none.
pub proof fn lemma_join_no_lines(parts: Seq<Seq<char>>, sep: Seq<char>)
    requires
        forall|i: int| 0 <= i < parts.len() ==> line_count(#[trigger] parts[i]) == 0,
        line_count(sep) == 0,
    ensures
        line_count(join(parts, sep)) == 0,
    decreases parts.len(),
{
    if parts.len() == 1 {
        assert(parts[0] == parts[0]);
    } else if parts.len() > 1 {
        let init = parts.drop_last();
        assert forall|i: int| 0 <= i < init.len() implies line_count(#[trigger] init[i]) == 0 by {
            assert(init[i] == parts[i]);
        }
        lemma_join_no_lines(init, sep);
        lemma_line_count_add(join(init, sep), sep);
        lemma_line_count_add(join(init, sep) + sep, parts.last());
        assert(parts.last() == parts[parts.len() - 1]);
    }
}

/// Decimal texts are made of digits only.
pub proof fn lemma_decimal_digits(n: nat)
    ensures
        forall|i: int| 0 <= i < decimal(n).len() ==> '0' <= #[trigger] decimal(n)[i] <= '9',
    decreases n,
{
    if n >= 10 {
        lemma_decimal_digits(n / 10);
        let init = decimal(n / 10);
        assert(decimal(n) == init.push(digit_char(n % 10)));
        assert forall|i: int| 0 <= i < decimal(n).len() implies '0' <= #[trigger] decimal(n)[i] <= '9' by {
            if i < init.len() {
                assert(decimal(n)[i] == init[i]);
            }
        }
    }
}

/// A decimal text holds no line feed.
pub proof fn lemma_decimal_no_line_feed(n: nat)
    ensures
        line_count(decimal(n)) == 0,
{
    lemma_decimal_digits(n);
    lemma_no_line_feed(decimal(n));
}

/// Every decimal text is non-empty.
pub proof fn lemma_decimal_nonempty(n: nat)
    ensures
        decimal(n).len() >= 1,
    decreases n,
{
    if n >= 10 {
        lemma_decimal_nonempty(n / 10);
    }
}

/// Appends the decimal text of `n`.
pub fn push_decimal(out: &mut String, n: u64)
    ensures
        final(out)@ == old(out)@ + decimal(n as nat),
    decreases n,
{
    if n >= 10 {
        push_decimal(out, n / 10);
    }
    let d: u64 = n % 10;
    let c = ((48u8 + (d as u8)) as char);
    out.push(c);
    proof {
        assert(c == digit_char(d as nat));
        assert(decimal(n as nat) == if n < 10 { seq![digit_char(n as nat)] } else { decimal((n / 10) as nat).push(digit_char((n % 10) as nat)) });
    }
}

/// Appends the decimal text of a `usize`.
pub fn push_usize(out: &mut String, n: usize)
    ensures
        final(out)@ == old(out)@ + decimal(n as nat),
{
    push_decimal(out, n as u64);
}

/// Appends the decimal text of a signed integer.
pub fn push_i64(out: &mut String, n: i64)
    ensures
        final(out)@ == old(out)@ + int_text(n as int),
{
    if n < 0 {
        out.push('-');
        let mag: u64 = if n == i64::MIN {
            9223372036854775808u64
        } else {
            (-n) as u64
        };
        push_decimal(out, mag);
    } else {
        push_decimal(out, n as u64);
    }
}

/// The decimal text of a `usize` as a new string.
pub fn usize_text(n: usize) -> (s: String)
    ensures
        s@ == decimal(n as nat),
{
    let mut s = String::new();
    push_usize(&mut s, n);
    s
}

/// The characters of a string slice, in order.
pub fn chars_of(s: &str) -> (v: Vec<char>)
    ensures
        v@ == s@,
{
    let mut v: Vec<char> = Vec::new();
    for c in it: s.chars()
        invariant
            v@ == it.seq().take(it.index() as int),
    {
        v.push(c);
    }
    v
}

/// Appends `v[from..to]`.
pub fn push_slice(out: &mut String, v: &Vec<char>, from: usize, to: usize)
    requires
        from <= to <= v.len(),
    ensures
        final(out)@ == old(out)@ + v@.subrange(from as int, to as int),
{
    let mut i = from;
    while i < to
        invariant
            from <= i <= to <= v.len(),
            out@ == old(out)@ + v@.subrange(from as int, i as int),
        decreases to - i,
    {
        out.push(v[i]);
        i = i + 1;
        assert(v@.subrange(from as int, i as int) == v@.subrange(from as int, i - 1).push(v@[i - 1]));
    }
}

/// A new string holding `v[from..to]`.
pub fn string_of(v: &Vec<char>, from: usize, to: usize) -> (s: String)
    requires
        from <= to <= v.len(),
    ensures
        s@ == v@.subrange(from as int, to as int),
{
    let mut s = String::new();
    push_slice(&mut s, v, from, to);
    s
}

/// The view of an optional string.
pub open spec fn opt_view(o: Option<String>) -> Option<Seq<char>> {
    match o {
        Some(s) => Some(s@),
        None => None,
    }
}

/// Appends a borrowed-or-owned string.
pub fn push_cow(out: &mut String, c: &Cow<'_, str>)
    ensures
        final(out)@ == old(out)@ + c@,
{
    match c {
        Cow::Borrowed(b) => out.append(b),
        Cow::Owned(o) => out.append(o.as_str()),
    }
}

/// Rust's `Debug` text of a string: quoted, with std's escapes.
pub uninterp spec fn debug_str(s: Seq<char>) -> Seq<char>;

/// `format!("{:?}", s)`, std's `Debug` for `str`; its text is named by
/// `debug_str` and not spelled out here.
#[verifier::external_body]
pub(crate) fn debug_quoted(s: &str) -> (r: String)
    ensures
        r@ == debug_str(s@),
{
    format!("{:?}", s)
}

/// The exponent field of an IEEE-754 double.
pub open spec fn exponent_bits(bits: u64) -> u64 {
    (bits >> 52u64) & 0x7ffu64
}

/// The fraction field of an IEEE-754 double.
pub open spec fn fraction_bits(bits: u64) -> u64 {
    bits & 0xf_ffff_ffff_ffffu64
}

/// Whether a double is NaN.
pub open spec fn is_nan_bits(bits: u64) -> bool {
    exponent_bits(bits) == 0x7ff && fraction_bits(bits) != 0
}

/// Whether a double is finite (neither NaN nor an infinity).
pub open spec fn is_finite_bits(bits: u64) -> bool {
    exponent_bits(bits) != 0x7ff
}

/// Whether a double is a zero of either sign.
pub open spec fn is_zero_bits(bits: u64) -> bool {
    bits & 0x7fff_ffff_ffff_ffffu64 == 0
}

/// IEEE-754 equality of two doubles: never for NaN, always for two zeros,
/// otherwise exactly when the bits agree.
pub open spec fn float_equal(a: u64, b: u64) -> bool {
    !is_nan_bits(a) && !is_nan_bits(b) && (a == b || (is_zero_bits(a) && is_zero_bits(b)))
}

/// An ASCII decimal digit.
pub open spec fn is_decimal_digit(c: char) -> bool {
    '0' <= c <= '9'
}

/// A text without its leading `-`, if it has one.
pub open spec fn unsigned_part(s: Seq<char>) -> Seq<char> {
    if s.len() > 0 && s[0] == '-' {
        s.drop_first()
    } else {
        s
    }
}

/// Digits with at most one `.`, which has digits on both sides.
pub open spec fn is_unsigned_numeral(d: Seq<char>) -> bool {
    &&& d.len() > 0
    &&& is_decimal_digit(d[0])
    &&& is_decimal_digit(d.last())
    &&& forall|i: int| 0 <= i < d.len() ==> is_decimal_digit(#[trigger] d[i]) || d[i] == '.'
    &&& forall|i: int, j: int| 0 <= i < j < d.len() ==> !(#[trigger] d[i] == '.' && #[trigger] d[j] == '.')
}

/// A plain decimal numeral: an optional `-`, digits, and at most one `.`
/// with digits on both sides; no exponent.
pub open spec fn is_numeral(s: Seq<char>) -> bool {
    is_unsigned_numeral(unsigned_part(s))
}

/// Whether a text is what Rust's float formatting gives for a double with
/// these bits: `NaN` for NaN, `inf` or `-inf` for the infinities, and a
/// plain decimal numeral for a finite number.
pub open spec fn float_text_ok(text: Seq<char>, bits: u64) -> bool {
    if is_nan_bits(bits) {
        text == "NaN"@
    } else if !is_finite_bits(bits) {
        text == (if bits >> 63u64 == 1 {
            "-inf"@
        } else {
            "inf"@
        })
    } else {
        is_numeral(text)
    }
}

/// Whether two character sequences are equal.
fn chars_equal(v: &Vec<char>, w: &Vec<char>) -> (b: bool)
    ensures
        b == (v@ == w@),
{
    if v.len() != w.len() {
        return false;
    }
    let mut i: usize = 0;
    while i < v.len()
        invariant
            i <= v.len() == w.len(),
            forall|k: int| 0 <= k < i ==> v@[k] == w@[k],
        decreases v.len() - i,
    {
        if v[i] != w[i] {
            return false;
        }
        i = i + 1;
    }
    assert(v@ =~= w@);
    true
}

/// Whether `v[from..]` is an unsigned numeral.
fn unsigned_numeral_from(v: &Vec<char>, from: usize) -> (b: bool)
    requires
        from <= v.len(),
    ensures
        b == is_unsigned_numeral(v@.subrange(from as int, v.len() as int)),
{
    let ghost d = v@.subrange(from as int, v.len() as int);
    if from >= v.len() {
        return false;
    }
    if !('0' <= v[from] && v[from] <= '9') || !('0' <= v[v.len() - 1] && v[v.len() - 1] <= '9') {
        assert(d[0] == v@[from as int] && d.last() == v@[v.len() - 1]);
        return false;
    }
    let mut seen_dot = false;
    let mut i: usize = from;
    while i < v.len()
        invariant
            from <= i <= v.len(),
            d == v@.subrange(from as int, v.len() as int),
            forall|k: int| 0 <= k < i - from ==> is_decimal_digit(#[trigger] d[k]) || d[k] == '.',
            forall|k: int, l: int| 0 <= k < l < i - from ==> !(#[trigger] d[k] == '.' && #[trigger] d[l] == '.'),
            seen_dot <==> exists|k: int| 0 <= k < i - from && #[trigger] d[k] == '.',
        decreases v.len() - i,
    {
        let c = v[i];
        assert(d[i - from] == c);
        if c == '.' {
            if seen_dot {
                proof {
                    let k = choose|k: int| 0 <= k < i - from && #[trigger] d[k] == '.';
                    assert(d[k] == '.' && d[i - from] == '.');
                }
                return false;
            }
            seen_dot = true;
        } else if !('0' <= c && c <= '9') {
            return false;
        }
        i = i + 1;
    }
    true
}

/// Whether `text` is what float formatting gives for `bits`.
fn float_text_matches(text: &str, bits: u64) -> (b: bool)
    ensures
        b == float_text_ok(text@, bits),
{
    let v = chars_of(text);
    if (bits >> 52u64) & 0x7ffu64 == 0x7ffu64 && bits & 0xf_ffff_ffff_ffffu64 != 0 {
        chars_equal(&v, &chars_of("NaN"))
    } else if (bits >> 52u64) & 0x7ffu64 == 0x7ffu64 {
        if bits >> 63u64 == 1 {
            chars_equal(&v, &chars_of("-inf"))
        } else {
            chars_equal(&v, &chars_of("inf"))
        }
    } else {
        let from: usize = if v.len() > 0 && v[0] == '-' {
            1
        } else {
            0
        };
        assert(unsigned_part(v@) =~= v@.subrange(from as int, v.len() as int));
        unsigned_numeral_from(&v, from)
    }
}

/// A floating-point number as the library sees it: its IEEE-754 bits, and
/// the text that Rust's float formatting gave it where the float lives.
/// The text always is what formatting gives for the bits.
#[derive(Debug)]
pub struct FloatText {
    text: String,
    bits: u64,
}

impl FloatText {
    #[verifier::type_invariant]
    spec fn inv(self) -> bool {
        float_text_ok(self.text@, self.bits)
    }

    /// The formatted number (for example `3.14`, `NaN`, `inf`).
    pub closed spec fn text_view(self) -> Seq<char> {
        self.text@
    }

    /// The number's IEEE-754 bits (`f64::to_bits`).
    pub closed spec fn bits_view(self) -> u64 {
        self.bits
    }

    /// Whether the text is what float formatting gives for the bits; it
    /// holds of every `FloatText`.
    pub open spec fn wf(self) -> bool {
        float_text_ok(self.text_view(), self.bits_view())
    }

    /// A float's formatted text with its bits (`f64::to_bits`); `None` when
    /// the text is not what formatting gives for those bits.
    pub fn new(text: String, bits: u64) -> (r: Option<FloatText>)
        ensures
            match r {
                Some(f) => float_text_ok(text@, bits) && f.text_view() == text@ && f.bits_view() == bits,
                None => !float_text_ok(text@, bits),
            },
    {
        if float_text_matches(text.as_str(), bits) {
            Some(FloatText { text, bits })
        } else {
            None
        }
    }

    /// The formatted number.
    pub fn text(&self) -> (r: &str)
        ensures
            r@ == self.text_view(),
            self.wf(),
    {
        proof {
            use_type_invariant(self);
        }
        self.text.as_str()
    }

    /// The number's IEEE-754 bits.
    pub fn bits(&self) -> (r: u64)
        ensures
            r == self.bits_view(),
            self.wf(),
    {
        proof {
            use_type_invariant(self);
        }
        self.bits
    }

    /// Whether the number is finite.
    pub fn is_finite(&self) -> (b: bool)
        ensures
            b == is_finite_bits(self.bits_view()),
            self.wf(),
    {
        proof {
            use_type_invariant(self);
        }
        (self.bits >> 52u64) & 0x7ffu64 != 0x7ffu64
    }
}

/// The text of a well-formed float holds no line break, comma or quote.
pub proof fn lemma_float_text_plain(f: FloatText)
    requires
        f.wf(),
    ensures
        !f.text_view().contains('\n'),
        !f.text_view().contains('\r'),
        !f.text_view().contains(','),
        !f.text_view().contains('"'),
{
    reveal_strlit("NaN");
    reveal_strlit("inf");
    reveal_strlit("-inf");
    let t = f.text_view();
    assert forall|c: char| c == '\n' || c == '\r' || c == ',' || c == '"' implies !t.contains(c) by {
        if t.contains(c) {
            let i = choose|i: int| 0 <= i < t.len() && t[i] == c;
            if is_finite_bits(f.bits_view()) {
                assert(!is_nan_bits(f.bits_view()));
                assert(is_numeral(t));
                let d = unsigned_part(t);
                if t.len() > 0 && t[0] == '-' {
                    if i > 0 {
                        assert(d[i - 1] == t[i]);
                        assert(is_decimal_digit(d[i - 1]) || d[i - 1] == '.');
                    }
                } else {
                    assert(d[i] == t[i]);
                    assert(is_decimal_digit(d[i]) || d[i] == '.');
                }
            } else {
                assert(t[i] == c);
            }
        }
    }
}

impl Clone for FloatText {
    fn clone(&self) -> (r: Self)
        ensures
            r == *self,
    {
        proof {
            use_type_invariant(self);
        }
        FloatText { text: self.text.clone(), bits: self.bits }
    }
}

impl PartialEq for FloatText {
    fn eq(&self, other: &Self) -> (r: bool) {
        let a = self.bits;
        let b = other.bits;
        let a_nan = (a >> 52u64) & 0x7ffu64 == 0x7ffu64 && a & 0xf_ffff_ffff_ffffu64 != 0;
        let b_nan = (b >> 52u64) & 0x7ffu64 == 0x7ffu64 && b & 0xf_ffff_ffff_ffffu64 != 0;
        !a_nan && !b_nan && (a == b || (a & 0x7fff_ffff_ffff_ffffu64 == 0 && b & 0x7fff_ffff_ffff_ffffu64 == 0))
    }
}

impl vstd::std_specs::cmp::PartialEqSpecImpl for FloatText {
    open spec fn obeys_eq_spec() -> bool {
        true
    }

    open spec fn eq_spec(&self, other: &Self) -> bool {
        float_equal(self.bits_view(), other.bits_view())
    }
}

/// Copies a string slice into a new string.
pub fn owned(s: &str) -> (r: String)
    ensures
        r@ == s@,
{
    s.to_owned()
}

} // verus!
