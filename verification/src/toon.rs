//! TOON (Token-Optimized Object Notation) list documents: options,
//! structural validation and rendering.
//!
//! ```text
//! issues[2]{number,title,state}:
//!   51815,[Bug]: Telegram plugin,open
//!   51812,dark mode request,open
//! totalCount: 8771
//! help[1]:
//!   Run `gh-axi issue view <number>` to view an issue
//! ```
use vstd::prelude::*;

use crate::escape::{
    contains_structural, escape_value, escaped_value, has_structural, law_escaped_cell, law_sanitized,
    sanitize_header_token, sanitized,
};
use crate::text::{
    bool_text, concat, debug_quoted, debug_str, decimal, int_text, join, lemma_concat_lines,
    lemma_concat_step, lemma_decimal_no_line_feed, lemma_join_no_lines, lemma_join_step, lemma_line_count_add, lemma_line_feed,
    lemma_lacks_line_feed, lemma_no_line_feed, line_count, lemma_add_avoids, lemma_avoids, lemma_concat_avoids,
    lemma_decimal_digits, lemma_float_text_plain, lemma_join_avoids, push_cow, push_i64, push_usize, is_finite_bits, FloatText,
};
use crate::truncate::{truncate_inline, truncated_text};

verus! {

/// A single cell value in a TOON row.
#[derive(Debug, PartialEq)]
pub enum Value {
    /// UTF-8 text.
    Str(String),
    /// Signed integer.
    Int(i64),
    /// Floating-point number; non-finite ones render quoted.
    Float(FloatText),
    /// Renders as `true` or `false`.
    Bool(bool),
    /// Renders as an empty cell.
    Null,
}

impl Clone for Value {
    fn clone(&self) -> (r: Self)
        ensures
            r == *self,
    {
        match self {
            Value::Str(s) => Value::Str(s.clone()),
            Value::Int(n) => Value::Int(*n),
            Value::Float(f) => Value::Float(f.clone()),
            Value::Bool(b) => Value::Bool(*b),
            Value::Null => Value::Null,
        }
    }
}

impl<'a> From<&'a str> for Value {
    fn from(s: &'a str) -> (v: Self)
        ensures
            v matches Value::Str(t) && t@ == s@,
    {
        Value::Str(s.to_owned())
    }
}

impl<'a> vstd::std_specs::convert::FromSpecImpl<&'a str> for Value {
    open spec fn obeys_from_spec() -> bool {
        false
    }

    open spec fn from_spec(s: &'a str) -> Self {
        Value::Null
    }
}

impl From<String> for Value {
    fn from(s: String) -> Self {
        Value::Str(s)
    }
}

impl vstd::std_specs::convert::FromSpecImpl<String> for Value {
    open spec fn obeys_from_spec() -> bool {
        true
    }

    open spec fn from_spec(s: String) -> Self {
        Value::Str(s)
    }
}

impl From<i32> for Value {
    fn from(n: i32) -> Self {
        Value::Int(n as i64)
    }
}

impl vstd::std_specs::convert::FromSpecImpl<i32> for Value {
    open spec fn obeys_from_spec() -> bool {
        true
    }

    open spec fn from_spec(n: i32) -> Self {
        Value::Int(n as i64)
    }
}

impl From<u32> for Value {
    fn from(n: u32) -> Self {
        Value::Int(n as i64)
    }
}

impl vstd::std_specs::convert::FromSpecImpl<u32> for Value {
    open spec fn obeys_from_spec() -> bool {
        true
    }

    open spec fn from_spec(n: u32) -> Self {
        Value::Int(n as i64)
    }
}

impl From<i64> for Value {
    fn from(n: i64) -> Self {
        Value::Int(n)
    }
}

impl vstd::std_specs::convert::FromSpecImpl<i64> for Value {
    open spec fn obeys_from_spec() -> bool {
        true
    }

    open spec fn from_spec(n: i64) -> Self {
        Value::Int(n)
    }
}

/// An unsigned integer as a cell: values above `i64::MAX` clamp to it.
pub open spec fn clamped_int(n: nat) -> i64 {
    if n <= i64::MAX {
        n as i64
    } else {
        i64::MAX
    }
}

impl From<u64> for Value {
    fn from(n: u64) -> Self {
        Value::Int(
            if n <= 9223372036854775807u64 {
                n as i64
            } else {
                9223372036854775807i64
            },
        )
    }
}

impl vstd::std_specs::convert::FromSpecImpl<u64> for Value {
    open spec fn obeys_from_spec() -> bool {
        true
    }

    open spec fn from_spec(n: u64) -> Self {
        Value::Int(clamped_int(n as nat))
    }
}

impl From<usize> for Value {
    fn from(n: usize) -> Self {
        Value::Int(
            if n as u64 <= 9223372036854775807u64 {
                n as i64
            } else {
                9223372036854775807i64
            },
        )
    }
}

impl vstd::std_specs::convert::FromSpecImpl<usize> for Value {
    open spec fn obeys_from_spec() -> bool {
        true
    }

    open spec fn from_spec(n: usize) -> Self {
        Value::Int(clamped_int(n as nat))
    }
}

impl From<bool> for Value {
    fn from(b: bool) -> Self {
        Value::Bool(b)
    }
}

impl vstd::std_specs::convert::FromSpecImpl<bool> for Value {
    open spec fn obeys_from_spec() -> bool {
        true
    }

    open spec fn from_spec(b: bool) -> Self {
        Value::Bool(b)
    }
}

impl From<Option<String>> for Value {
    fn from(s: Option<String>) -> Self {
        match s {
            Some(s) => Value::Str(s),
            None => Value::Null,
        }
    }
}

impl vstd::std_specs::convert::FromSpecImpl<Option<String>> for Value {
    open spec fn obeys_from_spec() -> bool {
        true
    }

    open spec fn from_spec(s: Option<String>) -> Self {
        match s {
            Some(s) => Value::Str(s),
            None => Value::Null,
        }
    }
}

/// The plain display text of a value (strings unescaped, `Null` empty).
pub open spec fn display_text(v: Value) -> Seq<char> {
    match v {
        Value::Str(s) => s@,
        Value::Int(n) => int_text(n as int),
        Value::Float(f) => f.text_view(),
        Value::Bool(b) => bool_text(b),
        Value::Null => seq![],
    }
}

impl Value {
    /// The value's plain display text: strings as they are, numbers in
    /// decimal, booleans as `true`/`false`, `Null` as nothing.
    pub fn to_text(&self) -> (s: String)
        ensures
            s@ == display_text(*self),
    {
        let mut out = String::new();
        match self {
            Value::Str(s) => out.append(s.as_str()),
            Value::Int(n) => push_i64(&mut out, *n),
            Value::Float(f) => out.append(f.text()),
            Value::Bool(b) => out.append(if *b { "true" } else { "false" }),
            Value::Null => {},
        }
        out
    }
}

/// Error returned when options break a structural rule of the format.
#[derive(Debug, Clone, PartialEq)]
#[non_exhaustive]
pub enum ToonError {
    /// `type_label` holds a structural character.
    InvalidTypeName {
        /// The offending name.
        name: String,
    },
    /// A field name holds a structural character.
    InvalidFieldName {
        /// The offending field name.
        name: String,
    },
    /// Row `row_index` has `actual` values where `expected` fields are declared.
    RowLengthMismatch {
        /// Zero-based index of the row.
        row_index: usize,
        /// Number of declared fields.
        expected: usize,
        /// Number of values in the row.
        actual: usize,
    },
    /// An item handed to [`list`] could not become a row.
    InvalidItem {
        /// Zero-based index of the item.
        row_index: usize,
        /// Why the item could not become a row.
        reason: String,
    },
}

/// The message of an error, as its `Display` reads.
pub open spec fn error_message(e: ToonError) -> Seq<char> {
    match e {
        ToonError::InvalidTypeName { name } => "type_name "@ + debug_str(name@)
            + " contains a structural character"@,
        ToonError::InvalidFieldName { name } => "field "@ + debug_str(name@)
            + " contains a structural character"@,
        ToonError::RowLengthMismatch { row_index, expected, actual } => "row "@ + decimal(
            row_index as nat,
        ) + " has "@ + decimal(actual as nat) + " values but "@ + decimal(expected as nat)
            + " fields declared"@,
        ToonError::InvalidItem { row_index, reason } => "item at index "@ + decimal(
            row_index as nat,
        ) + " cannot be rendered as a TOON row: "@ + reason@,
    }
}

impl ToonError {
    /// The human-readable message of this error.
    pub fn message(&self) -> (s: String)
        ensures
            s@ == error_message(*self),
    {
        let mut out = String::new();
        match self {
            ToonError::InvalidTypeName { name } => {
                out.append("type_name ");
                let q = debug_quoted(name.as_str());
                out.append(q.as_str());
                out.append(" contains a structural character");
            },
            ToonError::InvalidFieldName { name } => {
                out.append("field ");
                let q = debug_quoted(name.as_str());
                out.append(q.as_str());
                out.append(" contains a structural character");
            },
            ToonError::RowLengthMismatch { row_index, expected, actual } => {
                out.append("row ");
                push_usize(&mut out, *row_index);
                out.append(" has ");
                push_usize(&mut out, *actual);
                out.append(" values but ");
                push_usize(&mut out, *expected);
                out.append(" fields declared");
            },
            ToonError::InvalidItem { row_index, reason } => {
                out.append("item at index ");
                push_usize(&mut out, *row_index);
                out.append(" cannot be rendered as a TOON row: ");
                out.append(reason.as_str());
            },
        }
        out
    }
}

/// Default cell length limit of [`ToonOptions::new`].
pub const DEFAULT_MAX_CELL_LEN: usize = 200;

/// Options for rendering a TOON document.
#[derive(Debug, Clone)]
#[non_exhaustive]
pub struct ToonOptions {
    /// Type name, e.g. `"issue"`.
    pub type_label: String,
    /// Ordered field names for the header.
    pub fields: Vec<String>,
    /// Rows, each parallel to `fields`.
    pub rows: Vec<Vec<Value>>,
    /// Emitted as `totalCount: N` when present.
    pub total_count: Option<usize>,
    /// Emitted as a `help[N]:` block when non-empty.
    pub hints: Vec<String>,
    /// Longest string cell, in characters, before inline truncation.
    pub max_cell_len: usize,
}

/// The views of a sequence of strings.
pub open spec fn strings_view(v: Seq<String>) -> Seq<Seq<char>> {
    v.map_values(|s: String| s@)
}

/// The views of a sequence of rows.
pub open spec fn rows_view(v: Seq<Vec<Value>>) -> Seq<Seq<Value>> {
    v.map_values(|r: Vec<Value>| r@)
}

/// Whether no field name holds a structural character.
pub open spec fn fields_ok(fields: Seq<Seq<char>>) -> bool {
    forall|i: int| 0 <= i < fields.len() ==> !has_structural(#[trigger] fields[i])
}

/// `i` is the first field that holds a structural character.
pub open spec fn is_first_bad_field(fields: Seq<Seq<char>>, i: int) -> bool {
    &&& 0 <= i < fields.len()
    &&& has_structural(fields[i])
    &&& forall|j: int| 0 <= j < i ==> !has_structural(#[trigger] fields[j])
}

/// Whether every row has exactly `n` values.
pub open spec fn rows_ok(rows: Seq<Seq<Value>>, n: nat) -> bool {
    forall|i: int| 0 <= i < rows.len() ==> (#[trigger] rows[i]).len() == n
}

/// `i` is the first row whose length is not `n`.
pub open spec fn is_first_bad_row(rows: Seq<Seq<Value>>, n: nat, i: int) -> bool {
    &&& 0 <= i < rows.len()
    &&& rows[i].len() != n
    &&& forall|j: int| 0 <= j < i ==> (#[trigger] rows[j]).len() == n
}

/// What validation answers for the given name, fields and rows: `Ok` when
/// no rule is broken, else the first broken rule in the order type name,
/// fields, rows.
pub open spec fn validation_answer(
    type_label: Seq<char>,
    fields: Seq<Seq<char>>,
    rows: Seq<Seq<Value>>,
    r: Result<(), ToonError>,
) -> bool {
    match r {
        Ok(_) => !has_structural(type_label) && fields_ok(fields) && rows_ok(rows, fields.len()),
        Err(ToonError::InvalidTypeName { name }) => has_structural(type_label) && name@ == type_label,
        Err(ToonError::InvalidFieldName { name }) => {
            &&& !has_structural(type_label)
            &&& exists|i: int| is_first_bad_field(fields, i) && name@ == fields[i]
        },
        Err(ToonError::RowLengthMismatch { row_index, expected, actual }) => {
            &&& !has_structural(type_label)
            &&& fields_ok(fields)
            &&& is_first_bad_row(rows, fields.len(), row_index as int)
            &&& expected == fields.len()
            &&& actual == rows[row_index as int].len()
        },
        Err(ToonError::InvalidItem { .. }) => false,
    }
}

/// The message of the error that validation reports for the given name,
/// fields and rows (meaningful when they are not valid).
pub open spec fn validation_message(type_label: Seq<char>, fields: Seq<Seq<char>>, rows: Seq<Seq<Value>>) -> Seq<char> {
    if has_structural(type_label) {
        "type_name "@ + debug_str(type_label) + " contains a structural character"@
    } else if exists|i: int| is_first_bad_field(fields, i) {
        let i = choose|i: int| is_first_bad_field(fields, i);
        "field "@ + debug_str(fields[i]) + " contains a structural character"@
    } else {
        let k = choose|k: int| is_first_bad_row(rows, fields.len(), k);
        "row "@ + decimal(k as nat) + " has "@ + decimal(rows[k].len()) + " values but "@ + decimal(
            fields.len(),
        ) + " fields declared"@
    }
}

/// The error validation reports carries the message of
/// [`validation_message`].
pub proof fn lemma_validation_message(
    type_label: Seq<char>,
    fields: Seq<Seq<char>>,
    rows: Seq<Seq<Value>>,
    e: ToonError,
)
    requires
        validation_answer(type_label, fields, rows, Err(e)),
    ensures
        error_message(e) == validation_message(type_label, fields, rows),
{
    match e {
        ToonError::InvalidFieldName { name } => {
            let i = choose|i: int| is_first_bad_field(fields, i) && name@ == fields[i];
            assert(is_first_bad_field(fields, i));
            let j = choose|j: int| is_first_bad_field(fields, j);
            if i < j {
                assert(!has_structural(fields[i]));
            } else if j < i {
                assert(!has_structural(fields[j]));
            }
            assert(i == j);
            assert(name@ == fields[i]);
            assert(error_message(e) == "field "@ + debug_str(name@) + " contains a structural character"@);
            assert(validation_message(type_label, fields, rows) == "field "@ + debug_str(fields[j]) + " contains a structural character"@);
            assert(error_message(e) =~= validation_message(type_label, fields, rows));
        },
        ToonError::RowLengthMismatch { row_index, expected, actual } => {
            let k = choose|k: int| is_first_bad_row(rows, fields.len(), k);
            let r = row_index as int;
            if k < r {
                assert(rows[k].len() == fields.len());
            } else if r < k {
                assert(rows[r].len() == fields.len());
            }
            if exists|i: int| is_first_bad_field(fields, i) {
                let i = choose|i: int| is_first_bad_field(fields, i);
                assert(!has_structural(fields[i]));
            }
            assert(k == r);
            assert(error_message(e) =~= validation_message(type_label, fields, rows));
        },
        ToonError::InvalidTypeName { name } => {
            assert(name@ == type_label);
            assert(error_message(e) =~= validation_message(type_label, fields, rows));
        },
        ToonError::InvalidItem { .. } => {},
    }
}

/// The `Ok`/`Err` part of a result, without its payload.
pub open spec fn outcome<T>(r: Result<T, ToonError>) -> Result<(), ToonError> {
    match r {
        Ok(_) => Ok(()),
        Err(e) => Err(e),
    }
}

/// The text of one cell, with strings truncated to `max` characters and escaped.
pub open spec fn cell_text(v: Value, max: nat) -> Seq<char> {
    match v {
        Value::Str(s) => escaped_value(truncated_text(s@, max, "full=true"@)),
        Value::Int(n) => int_text(n as int),
        Value::Float(f) => if is_finite_bits(f.bits_view()) {
            f.text_view()
        } else {
            seq!['"'] + f.text_view() + seq!['"']
        },
        Value::Bool(b) => bool_text(b),
        Value::Null => seq![],
    }
}

/// The texts of the cells of a row.
pub open spec fn cell_texts(row: Seq<Value>, max: nat) -> Seq<Seq<char>> {
    row.map_values(|v: Value| cell_text(v, max))
}

/// One row line: two spaces, the cells joined by commas, a line feed.
pub open spec fn row_line(row: Seq<Value>, max: nat) -> Seq<char> {
    seq![' ', ' '] + join(cell_texts(row, max), seq![',']) + seq!['\n']
}

/// All row lines in order.
pub open spec fn row_lines(rows: Seq<Seq<Value>>, max: nat) -> Seq<Seq<char>> {
    rows.map_values(|r: Seq<Value>| row_line(r, max))
}

/// Header fields, each sanitized.
pub open spec fn header_fields(fields: Seq<Seq<char>>) -> Seq<Seq<char>> {
    fields.map_values(|f: Seq<char>| sanitized(f))
}

/// The header line: `type[N]{f1,f2}:`.
pub open spec fn header_line(type_label: Seq<char>, fields: Seq<Seq<char>>, n_rows: nat) -> Seq<char> {
    sanitized(type_label) + seq!['['] + decimal(n_rows) + seq![']', '{'] + join(
        header_fields(fields),
        seq![','],
    ) + seq!['}', ':', '\n']
}

/// The `totalCount: N` line, when present.
pub open spec fn total_line(total: Option<usize>) -> Seq<char> {
    match total {
        Some(t) => "totalCount: "@ + decimal(t as nat) + seq!['\n'],
        None => seq![],
    }
}

/// One sanitized hint line.
pub open spec fn toon_hint_line(h: Seq<char>) -> Seq<char> {
    seq![' ', ' '] + sanitized(h) + seq!['\n']
}

/// The `help[N]:` block of sanitized hints, empty when there are none.
pub open spec fn toon_hints_block(hints: Seq<Seq<char>>) -> Seq<char> {
    if hints.len() == 0 {
        seq![]
    } else {
        "help["@ + decimal(hints.len()) + seq![']', ':', '\n'] + concat(
            hints.map_values(|h: Seq<char>| toon_hint_line(h)),
        )
    }
}

/// The full document text.
pub open spec fn toon_text(
    type_label: Seq<char>,
    fields: Seq<Seq<char>>,
    rows: Seq<Seq<Value>>,
    total: Option<usize>,
    hints: Seq<Seq<char>>,
    max: nat,
) -> Seq<char> {
    header_line(type_label, fields, rows.len()) + concat(row_lines(rows, max)) + total_line(total)
        + toon_hints_block(hints)
}

impl ToonOptions {
    /// Whether the options satisfy every structural rule.
    pub open spec fn is_valid(&self) -> bool {
        validation_answer(self.type_label@, strings_view(self.fields@), rows_view(self.rows@), Ok(()))
    }

    /// The text these options render to.
    pub open spec fn text(&self) -> Seq<char> {
        toon_text(
            self.type_label@,
            strings_view(self.fields@),
            rows_view(self.rows@),
            self.total_count,
            strings_view(self.hints@),
            self.max_cell_len as nat,
        )
    }

    /// Options with no total count, no hints and the default cell limit.
    pub fn new(type_label: String, fields: Vec<String>, rows: Vec<Vec<Value>>) -> (o: Self)
        ensures
            o.type_label == type_label,
            o.fields == fields,
            o.rows == rows,
            o.total_count is None,
            o.hints@.len() == 0,
            o.max_cell_len == DEFAULT_MAX_CELL_LEN,
    {
        ToonOptions {
            type_label,
            fields,
            rows,
            total_count: None,
            hints: Vec::new(),
            max_cell_len: DEFAULT_MAX_CELL_LEN,
        }
    }

    /// Set the total count.
    pub fn total_count(self, total: Option<usize>) -> (o: Self)
        ensures
            o == (ToonOptions { total_count: total, ..self }),
    {
        ToonOptions { total_count: total, ..self }
    }

    /// Set the hints.
    pub fn hints(self, hints: Vec<String>) -> (o: Self)
        ensures
            o == (ToonOptions { hints: hints, ..self }),
    {
        ToonOptions { hints, ..self }
    }

    /// Set the cell length limit.
    pub fn max_cell_len(self, len: usize) -> (o: Self)
        ensures
            o == (ToonOptions { max_cell_len: len, ..self }),
    {
        ToonOptions { max_cell_len: len, ..self }
    }

    /// Validate and return the proof that rendering needs.
    pub fn validate(&self) -> (r: Result<ToonDocument<'_>, ToonError>)
        ensures
            validation_answer(self.type_label@, strings_view(self.fields@), rows_view(self.rows@), outcome(r)),
            r matches Ok(doc) ==> doc.options() == *self,
    {
        ToonDocument::validate(self)
    }
}

impl Default for ToonOptions {
    fn default() -> (o: Self)
        ensures
            o.type_label@.len() == 0,
            o.fields@.len() == 0,
            o.rows@.len() == 0,
            o.total_count is None,
            o.hints@.len() == 0,
            o.max_cell_len == DEFAULT_MAX_CELL_LEN,
    {
        ToonOptions {
            type_label: String::new(),
            fields: Vec::new(),
            rows: Vec::new(),
            total_count: None,
            hints: Vec::new(),
            max_cell_len: DEFAULT_MAX_CELL_LEN,
        }
    }
}

/// Proof that a [`ToonOptions`] passed validation; the only way to render.
#[derive(Debug)]
pub struct ToonDocument<'a> {
    opts: &'a ToonOptions,
}

/// Checks the three structural rules in order.
fn check_options(type_label: &String, fields: &Vec<String>, rows: &Vec<Vec<Value>>) -> (r: Result<(), ToonError>)
    ensures
        validation_answer(type_label@, strings_view(fields@), rows_view(rows@), r),
{
    if contains_structural(type_label.as_str()) {
        return Err(ToonError::InvalidTypeName { name: type_label.clone() });
    }
    let mut i: usize = 0;
    while i < fields.len()
        invariant
            i <= fields.len(),
            !has_structural(type_label@),
            forall|j: int| 0 <= j < i ==> !has_structural(#[trigger] fields@[j]@),
            strings_view(fields@).len() == fields@.len(),
        decreases fields.len() - i,
    {
        if contains_structural(fields[i].as_str()) {
            assert(is_first_bad_field(strings_view(fields@), i as int));
            return Err(ToonError::InvalidFieldName { name: fields[i].clone() });
        }
        i = i + 1;
    }
    let mut k: usize = 0;
    while k < rows.len()
        invariant
            k <= rows.len(),
            !has_structural(type_label@),
            fields_ok(strings_view(fields@)),
            forall|j: int| 0 <= j < k ==> (#[trigger] rows@[j]).len() == fields@.len(),
        decreases rows.len() - k,
    {
        if rows[k].len() != fields.len() {
            assert(is_first_bad_row(rows_view(rows@), fields@.len(), k as int));
            return Err(
                ToonError::RowLengthMismatch {
                    row_index: k,
                    expected: fields.len(),
                    actual: rows[k].len(),
                },
            );
        }
        k = k + 1;
    }
    Ok(())
}

/// Appends the text of one cell.
fn push_cell(out: &mut String, v: &Value, max: usize)
    ensures
        final(out)@ == old(out)@ + cell_text(*v, max as nat),
        *v matches Value::Float(f) ==> f.wf(),
{
    match v {
        Value::Str(s) => {
            let t = truncate_inline(s.as_str(), max, "full=true");
            let e = escape_value(t.as_str());
            push_cow(out, &e);
        },
        Value::Int(n) => push_i64(out, *n),
        Value::Float(f) => {
            if f.is_finite() {
                out.append(f.text());
            } else {
                out.push('"');
                out.append(f.text());
                out.push('"');
            }
        },
        Value::Bool(b) => out.append(if *b { "true" } else { "false" }),
        Value::Null => {},
    }
}

/// Appends one row line.
fn push_row(out: &mut String, row: &Vec<Value>, max: usize)
    ensures
        final(out)@ == old(out)@ + row_line(row@, max as nat),
        forall|j: int| 0 <= j < row@.len() ==> (#[trigger] row@[j] matches Value::Float(f) ==> f.wf()),
{
    out.push(' ');
    out.push(' ');
    let ghost start = out@;
    let ghost parts = cell_texts(row@, max as nat);
    let mut i: usize = 0;
    while i < row.len()
        invariant
            i <= row.len(),
            parts == cell_texts(row@, max as nat),
            out@ == start + join(parts.take(i as int), seq![',']),
            forall|j: int| 0 <= j < i ==> (#[trigger] row@[j] matches Value::Float(f) ==> f.wf()),
        decreases row.len() - i,
    {
        proof {
            lemma_join_step(parts, seq![','], i as int);
        }
        if i > 0 {
            out.push(',');
        }
        push_cell(out, &row[i], max);
        i = i + 1;
    }
    assert(parts.take(row.len() as int) =~= parts);
    out.push('\n');
}

impl<'a> ToonDocument<'a> {
    #[verifier::type_invariant]
    spec fn wf(self) -> bool {
        self.opts.is_valid()
    }

    /// The validated options.
    pub closed spec fn options(self) -> ToonOptions {
        *self.opts
    }

    /// Validate `opts`; on success the document may be rendered.
    pub fn validate(opts: &'a ToonOptions) -> (r: Result<Self, ToonError>)
        ensures
            validation_answer(opts.type_label@, strings_view(opts.fields@), rows_view(opts.rows@), outcome(r)),
            r matches Ok(doc) ==> doc.options() == *opts,
    {
        match check_options(&opts.type_label, &opts.fields, &opts.rows) {
            Ok(()) => Ok(ToonDocument { opts }),
            Err(e) => Err(e),
        }
    }

    /// Render the document.
    pub fn render(&self) -> (s: String)
        ensures
            s@ == self.options().text(),
            !s@.contains('\r'),
            line_count(s@) == document_line_count(self.options()),
    {
        proof {
            use_type_invariant(self);
        }
        let opts = self.opts;
        let mut out = String::new();
        let name = sanitize_header_token(opts.type_label.as_str());
        push_cow(&mut out, &name);
        out.push('[');
        push_usize(&mut out, opts.rows.len());
        out.push(']');
        out.push('{');
        let ghost start = out@;
        let ghost parts = header_fields(strings_view(opts.fields@));
        let mut i: usize = 0;
        while i < opts.fields.len()
            invariant
                i <= opts.fields.len(),
                parts == header_fields(strings_view(opts.fields@)),
                out@ == start + join(parts.take(i as int), seq![',']),
            decreases opts.fields.len() - i,
        {
            proof {
                lemma_join_step(parts, seq![','], i as int);
            }
            if i > 0 {
                out.push(',');
            }
            let f = sanitize_header_token(opts.fields[i].as_str());
            push_cow(&mut out, &f);
            i = i + 1;
        }
        assert(parts.take(opts.fields.len() as int) =~= parts);
        out.push('}');
        out.push(':');
        out.push('\n');
        let ghost head = out@;
        assert(head =~= header_line(opts.type_label@, strings_view(opts.fields@), opts.rows@.len()));
        let ghost lines = row_lines(rows_view(opts.rows@), opts.max_cell_len as nat);
        let mut k: usize = 0;
        while k < opts.rows.len()
            invariant
                k <= opts.rows.len(),
                lines == row_lines(rows_view(opts.rows@), opts.max_cell_len as nat),
                out@ == head + concat(lines.take(k as int)),
                forall|i: int, j: int|
                    0 <= i < k && 0 <= j < opts.rows@[i]@.len() ==> (#[trigger] opts.rows@[i]@[j] matches Value::Float(
                        f,
                    ) ==> f.wf()),
            decreases opts.rows.len() - k,
        {
            proof {
                lemma_concat_step(lines, k as int);
            }
            push_row(&mut out, &opts.rows[k], opts.max_cell_len);
            k = k + 1;
        }
        assert(lines.take(opts.rows.len() as int) =~= lines);
        let ghost body = out@;
        if let Some(total) = opts.total_count {
            out.append("totalCount: ");
            push_usize(&mut out, total);
            out.push('\n');
        }
        assert(out@ =~= body + total_line(opts.total_count));
        let ghost before_hints = out@;
        if opts.hints.len() > 0 {
            out.append("help[");
            push_usize(&mut out, opts.hints.len());
            out.push(']');
            out.push(':');
            out.push('\n');
            let ghost hstart = out@;
            let ghost hlines = strings_view(opts.hints@).map_values(|h: Seq<char>| toon_hint_line(h));
            let mut j: usize = 0;
            while j < opts.hints.len()
                invariant
                    j <= opts.hints.len(),
                    hlines == strings_view(opts.hints@).map_values(|h: Seq<char>| toon_hint_line(h)),
                    out@ == hstart + concat(hlines.take(j as int)),
                decreases opts.hints.len() - j,
            {
                proof {
                    lemma_concat_step(hlines, j as int);
                }
                out.push(' ');
                out.push(' ');
                let h = sanitize_header_token(opts.hints[j].as_str());
                push_cow(&mut out, &h);
                out.push('\n');
                j = j + 1;
            }
            assert(hlines.take(opts.hints.len() as int) =~= hlines);
        }
        assert(out@ =~= before_hints + toon_hints_block(strings_view(opts.hints@)));
        proof {
            let rows = rows_view(opts.rows@);
            assert forall|i: int, j: int| 0 <= i < rows.len() && 0 <= j < rows[i].len() implies (
            #[trigger] rows[i][j] matches Value::Float(f) ==> f.wf()) by {
                assert(rows[i] == opts.rows@[i]@);
                assert(opts.rows@[i]@[j] matches Value::Float(f) ==> f.wf());
            }
            law_one_line_per_row(
                opts.type_label@,
                strings_view(opts.fields@),
                rows,
                opts.total_count,
                strings_view(opts.hints@),
                opts.max_cell_len as nat,
            );
        }
        out
    }
}

/// Render a TOON document, validating first.
pub fn render_toon(opts: &ToonOptions) -> (r: Result<String, ToonError>)
    ensures
        validation_answer(opts.type_label@, strings_view(opts.fields@), rows_view(opts.rows@), outcome(r)),
        r matches Ok(s) ==> s@ == opts.text(),
        r matches Ok(s) ==> !s@.contains('\r') && line_count(s@) == document_line_count(*opts),
{
    match opts.validate() {
        Ok(doc) => Ok(doc.render()),
        Err(e) => Err(e),
    }
}


/// One item handed to [`list`], as serializing it to JSON turned out.
#[derive(Debug, Clone, PartialEq)]
pub enum SerializedItem {
    /// A JSON object: its keys in map order, each with its cell value.
    Object(Vec<(String, Value)>),
    /// Some other JSON value (number, string, array, boolean, null).
    NotObject,
    /// Serialization failed with this message.
    Failed(String),
}

/// Why an item that is not an object cannot be a row.
pub open spec fn item_reason(item: SerializedItem) -> Seq<char> {
    match item {
        SerializedItem::Failed(msg) => msg@,
        _ => "item is not a JSON object (struct or map required)"@,
    }
}

/// `i` is the first item that is not an object.
pub open spec fn is_first_non_object(items: Seq<SerializedItem>, i: int) -> bool {
    &&& 0 <= i < items.len()
    &&& !(items[i] is Object)
    &&& forall|j: int| 0 <= j < i ==> (#[trigger] items[j]) is Object
}

/// The entries of an object item (none for the other kinds).
pub open spec fn entries_of(item: SerializedItem) -> Seq<(String, Value)> {
    match item {
        SerializedItem::Object(e) => e@,
        _ => seq![],
    }
}

/// The value stored under `key` (the first entry with that key), `Null` when absent.
pub open spec fn lookup(entries: Seq<(String, Value)>, key: Seq<char>) -> Value
    decreases entries.len(),
{
    if entries.len() == 0 {
        Value::Null
    } else if entries[0].0@ == key {
        entries[0].1
    } else {
        lookup(entries.drop_first(), key)
    }
}

/// `k` is the first item with at least one entry.
pub open spec fn is_first_nonempty(items: Seq<SerializedItem>, k: int) -> bool {
    &&& 0 <= k < items.len()
    &&& entries_of(items[k]).len() > 0
    &&& forall|j: int| 0 <= j < k ==> entries_of(#[trigger] items[j]).len() == 0
}

/// The fields of a listed document: the keys of the first item with any
/// entry, or none.
pub open spec fn list_fields(items: Seq<SerializedItem>) -> Seq<Seq<char>> {
    if exists|k: int| is_first_nonempty(items, k) {
        let k = choose|k: int| is_first_nonempty(items, k);
        entries_of(items[k]).map_values(|e: (String, Value)| e.0@)
    } else {
        seq![]
    }
}

/// The rows of a listed document: items before the first one with entries
/// become empty rows; later ones look every field up by key.
pub open spec fn list_rows(items: Seq<SerializedItem>) -> Seq<Seq<Value>> {
    let fields = list_fields(items);
    Seq::new(
        items.len(),
        |j: int|
            if exists|k: int| is_first_nonempty(items, k) && k <= j {
                fields.map_values(|f: Seq<char>| lookup(entries_of(items[j]), f))
            } else {
                seq![]
            },
    )
}

proof fn lemma_first_nonempty_unique(items: Seq<SerializedItem>, k1: int, k2: int)
    requires
        is_first_nonempty(items, k1),
        is_first_nonempty(items, k2),
    ensures
        k1 == k2,
{
    if k1 < k2 {
        assert(entries_of(items[k1]).len() == 0);
    } else if k2 < k1 {
        assert(entries_of(items[k2]).len() == 0);
    }
}

proof fn lemma_lookup_first(entries: Seq<(String, Value)>, key: Seq<char>, e: int)
    requires
        0 <= e < entries.len(),
        entries[e].0@ == key,
        forall|i: int| 0 <= i < e ==> (#[trigger] entries[i]).0@ != key,
    ensures
        lookup(entries, key) == entries[e].1,
    decreases e,
{
    if e > 0 {
        assert(entries[0].0@ != key);
        let rest = entries.drop_first();
        assert forall|i: int| 0 <= i < e - 1 implies (#[trigger] rest[i]).0@ != key by {
            assert(rest[i] == entries[i + 1]);
        }
        lemma_lookup_first(rest, key, e - 1);
    }
}

proof fn lemma_lookup_absent(entries: Seq<(String, Value)>, key: Seq<char>)
    requires
        forall|i: int| 0 <= i < entries.len() ==> (#[trigger] entries[i]).0@ != key,
    ensures
        lookup(entries, key) == Value::Null,
    decreases entries.len(),
{
    if entries.len() > 0 {
        assert(entries[0].0@ != key);
        let rest = entries.drop_first();
        assert forall|i: int| 0 <= i < rest.len() implies (#[trigger] rest[i]).0@ != key by {
            assert(rest[i] == entries[i + 1]);
        }
        lemma_lookup_absent(rest, key);
    }
}

/// A listed document's columns are the keys of the first item with entries,
/// in order, and every later item fills each column from its own entry with
/// that key, wherever that entry stands among its entries: the first entry
/// with the column's key gives the cell, and a key the item lacks gives an
/// empty (`Null`) cell. Items before the first one with entries give empty
/// rows.
pub proof fn law_list_cells_follow_keys(items: Seq<SerializedItem>, k: int, j: int, x: int)
    requires
        is_first_nonempty(items, k),
        0 <= j < items.len(),
        0 <= x < entries_of(items[k]).len(),
    ensures
        list_fields(items).len() == entries_of(items[k]).len(),
        list_fields(items)[x] == entries_of(items[k])[x].0@,
        list_rows(items).len() == items.len(),
        j < k ==> list_rows(items)[j].len() == 0,
        k <= j ==> list_rows(items)[j].len() == entries_of(items[k]).len(),
        k <= j ==> forall|e: int|
            0 <= e < entries_of(items[j]).len() && entries_of(items[j])[e].0@ == entries_of(items[k])[x].0@
                && (forall|i: int| 0 <= i < e ==> (#[trigger] entries_of(items[j])[i]).0@ != entries_of(items[k])[x].0@)
                ==> list_rows(items)[j][x] == entries_of(items[j])[e].1,
        k <= j && (forall|i: int|
            0 <= i < entries_of(items[j]).len() ==> (#[trigger] entries_of(items[j])[i]).0@ != entries_of(items[k])[x].0@)
            ==> list_rows(items)[j][x] == Value::Null,
{
    let c = choose|c: int| is_first_nonempty(items, c);
    lemma_first_nonempty_unique(items, c, k);
    let key = entries_of(items[k])[x].0@;
    if j < k {
        if exists|c2: int| is_first_nonempty(items, c2) && c2 <= j {
            let c2 = choose|c2: int| is_first_nonempty(items, c2) && c2 <= j;
            lemma_first_nonempty_unique(items, c2, k);
        }
    } else {
        assert(is_first_nonempty(items, k) && k <= j);
        assert forall|e: int|
            0 <= e < entries_of(items[j]).len() && entries_of(items[j])[e].0@ == key && (forall|i: int|
                0 <= i < e ==> (#[trigger] entries_of(items[j])[i]).0@ != key) implies list_rows(items)[j][x]
            == entries_of(items[j])[e].1 by {
            lemma_lookup_first(entries_of(items[j]), key, e);
        }
        if forall|i: int| 0 <= i < entries_of(items[j]).len() ==> (#[trigger] entries_of(items[j])[i]).0@ != key {
            lemma_lookup_absent(entries_of(items[j]), key);
        }
    }
}

/// Looks a key up among the entries of an object.
fn lookup_value(entries: &Vec<(String, Value)>, key: &String) -> (v: Value)
    ensures
        v == lookup(entries@, key@),
{
    let mut i: usize = 0;
    assert(entries@.skip(0) =~= entries@);
    while i < entries.len()
        invariant
            i <= entries.len(),
            lookup(entries@, key@) == lookup(entries@.skip(i as int), key@),
        decreases entries.len() - i,
    {
        assert(entries@.skip(i as int).drop_first() =~= entries@.skip(i + 1));
        if entries[i].0 == *key {
            return entries[i].1.clone();
        }
        i = i + 1;
    }
    Value::Null
}

/// Builds and renders a document from serialized items: the first item that
/// is not an object is reported; otherwise the fields are the keys of the
/// first item with entries, every row looks the fields up by key (a missing
/// key is an empty cell), and the result is validated and rendered with the
/// default cell limit.
pub fn list(type_label: String, items: &Vec<SerializedItem>) -> (r: Result<String, ToonError>)
    ensures
        (exists|i: int| is_first_non_object(items@, i)) ==> (r matches Err(ToonError::InvalidItem { row_index, reason }) && is_first_non_object(items@, row_index as int) && reason@ == item_reason(items@[row_index as int])),
        !(exists|i: int| is_first_non_object(items@, i)) ==> {
            &&& validation_answer(type_label@, list_fields(items@), list_rows(items@), outcome(r))
            &&& r matches Ok(s) ==> s@ == toon_text(type_label@, list_fields(items@), list_rows(items@), None, seq![], DEFAULT_MAX_CELL_LEN as nat)
        },
{
    let mut fields: Vec<String> = Vec::new();
    let mut rows: Vec<Vec<Value>> = Vec::new();
    let mut found = false;
    let ghost mut first: int = 0;
    let mut i: usize = 0;
    while i < items.len()
        invariant
            i <= items.len(),
            forall|j: int| 0 <= j < i ==> (#[trigger] items@[j]) is Object,
            rows@.len() == i,
            found <==> exists|k: int| 0 <= k < i && is_first_nonempty(items@, k),
            found ==> is_first_nonempty(items@, first) && first < i && strings_view(fields@) == entries_of(items@[first]).map_values(|e: (String, Value)| e.0@),
            !found ==> fields@.len() == 0,
            !found ==> forall|j: int| 0 <= j < i ==> entries_of(#[trigger] items@[j]).len() == 0,
            forall|j: int| 0 <= j < i ==> (#[trigger] rows@[j])@ == (if found && first <= j { strings_view(fields@).map_values(|f: Seq<char>| lookup(entries_of(items@[j]), f)) } else { seq![] }),
        decreases items.len() - i,
    {
        match &items[i] {
            SerializedItem::Failed(msg) => {
                assert(is_first_non_object(items@, i as int));
                return Err(ToonError::InvalidItem { row_index: i, reason: msg.clone() });
            },
            SerializedItem::NotObject => {
                assert(is_first_non_object(items@, i as int));
                return Err(
                    ToonError::InvalidItem {
                        row_index: i,
                        reason: "item is not a JSON object (struct or map required)".to_owned(),
                    },
                );
            },
            SerializedItem::Object(entries) => {
                if !found && entries.len() > 0 {
                    let mut keys: Vec<String> = Vec::new();
                    let mut e: usize = 0;
                    while e < entries.len()
                        invariant
                            e <= entries.len(),
                            keys@.len() == e,
                            strings_view(keys@) =~= entries@.take(e as int).map_values(|x: (String, Value)| x.0@),
                        decreases entries.len() - e,
                    {
                        let k = entries[e].0.clone();
                        proof {
                            assert(entries@.take(e + 1) =~= entries@.take(e as int).push(entries@[e as int]));
                        }
                        let ghost old_keys = keys@;
                        keys.push(k);
                        proof {
                            assert(keys@ == old_keys.push(k));
                            assert(k@ == entries@[e as int].0@);
                            let lhs = strings_view(keys@);
                            let rhs = entries@.take(e + 1).map_values(|x: (String, Value)| x.0@);
                            assert(lhs.len() == rhs.len());
                            assert forall|j: int| 0 <= j < lhs.len() implies lhs[j] == rhs[j] by {
                                if j < e {
                                    assert(lhs[j] == strings_view(old_keys)[j]);
                                }
                            }
                            assert(lhs =~= rhs);
                        }
                        e = e + 1;
                    }
                    assert(entries@.take(entries.len() as int) =~= entries@);
                    fields = keys;
                    found = true;
                    proof {
                        first = i as int;
                    }
                }
                let mut row: Vec<Value> = Vec::new();
                let mut f: usize = 0;
                while f < fields.len()
                    invariant
                        f <= fields.len(),
                        row@ =~= strings_view(fields@).take(f as int).map_values(|x: Seq<char>| lookup(entries@, x)),
                    decreases fields.len() - f,
                {
                    let v = lookup_value(entries, &fields[f]);
                    row.push(v);
                    f = f + 1;
                }
                assert(strings_view(fields@).take(fields.len() as int) =~= strings_view(fields@));
                rows.push(row);
                proof {
                    if found {
                        assert(is_first_nonempty(items@, first));
                    }
                }
            },
        }
        i = i + 1;
    }
    assert(!(exists|i: int| is_first_non_object(items@, i)));
    assert(list_fields(items@) =~= strings_view(fields@));
    assert(rows_view(rows@) =~= list_rows(items@));
    let opts = ToonOptions {
        type_label,
        fields,
        rows,
        total_count: None,
        hints: Vec::new(),
        max_cell_len: DEFAULT_MAX_CELL_LEN,
    };
    render_toon(&opts)
}

/// The option setters commute: setting the total count, the hints and the
/// cell limit in either order gives the same options, and so the same text.
pub proof fn law_setters_commute(o: ToonOptions, total: Option<usize>, hints: Vec<String>, len: usize)
    ensures
        (ToonOptions { max_cell_len: len, ..ToonOptions { hints: hints, ..ToonOptions { total_count: total, ..o } } })
            == (ToonOptions { total_count: total, ..ToonOptions { hints: hints, ..ToonOptions { max_cell_len: len, ..o } } }),
{
}

/// The lines of a rendered document: its header, one per row, one for a
/// total count, and a `help[N]:` line followed by one per hint.
pub open spec fn document_line_count(o: ToonOptions) -> nat {
    1 + o.rows@.len() + (if o.total_count is Some {
        1nat
    } else {
        0nat
    }) + (if o.hints@.len() > 0 {
        o.hints@.len() + 1
    } else {
        0nat
    })
}

/// Whether every float cell is well formed (its text is what formatting
/// gives for its bits).
pub open spec fn floats_well_formed(rows: Seq<Seq<Value>>) -> bool {
    forall|i: int, j: int|
        0 <= i < rows.len() && 0 <= j < rows[i].len() ==> (#[trigger] rows[i][j] matches Value::Float(f) ==> f.wf())
}

proof fn lemma_sanitized_no_lines(s: Seq<char>)
    ensures
        line_count(sanitized(s)) == 0,
        !sanitized(s).contains('\r'),
{
    law_sanitized(s);
    let t = sanitized(s);
    assert forall|i: int| 0 <= i < t.len() implies t[i] != '\n' && t[i] != '\r' by {
        if t[i] == '\n' || t[i] == '\r' {
            assert(crate::escape::is_structural(t[i]));
        }
    }
    lemma_no_line_feed(t);
    lemma_avoids(t, '\r');
}

proof fn lemma_decimal_no_cr(n: nat)
    ensures
        !decimal(n).contains('\r'),
{
    lemma_decimal_digits(n);
    lemma_avoids(decimal(n), '\r');
}

proof fn lemma_cell_no_lines(v: Value, max: nat)
    requires
        v matches Value::Float(f) ==> f.wf(),
    ensures
        line_count(cell_text(v, max)) == 0,
        !cell_text(v, max).contains('\r'),
{
    match v {
        Value::Str(s) => {
            let t = truncated_text(s@, max, "full=true"@);
            law_escaped_cell(t);
            let e = escaped_value(t);
            assert forall|i: int| 0 <= i < e.len() implies e[i] != '\n' && e[i] != '\r' by {
                assert(e[i] != '\n' && e[i] != '\r');
            }
            lemma_no_line_feed(e);
            lemma_avoids(e, '\r');
        },
        Value::Int(n) => {
            if n < 0 {
                let m = (-(n as int)) as nat;
                lemma_decimal_no_line_feed(m);
                lemma_line_count_add(seq!['-'], decimal(m));
                lemma_lacks_line_feed(seq!['-']);
                lemma_decimal_no_cr(m);
                lemma_avoids(seq!['-'], '\r');
                lemma_add_avoids(seq!['-'], decimal(m), '\r');
            } else {
                lemma_decimal_no_line_feed(n as nat);
                lemma_decimal_no_cr(n as nat);
            }
        },
        Value::Float(f) => {
            lemma_float_text_plain(f);
            lemma_lacks_line_feed(f.text_view());
            if !is_finite_bits(f.bits_view()) {
                lemma_line_count_add(seq!['"'], f.text_view());
                lemma_line_count_add(seq!['"'] + f.text_view(), seq!['"']);
                lemma_lacks_line_feed(seq!['"']);
                lemma_avoids(seq!['"'], '\r');
                lemma_add_avoids(seq!['"'], f.text_view(), '\r');
                lemma_add_avoids(seq!['"'] + f.text_view(), seq!['"'], '\r');
            }
        },
        Value::Bool(b) => {
            reveal_strlit("true");
            reveal_strlit("false");
            lemma_lacks_line_feed(bool_text(b));
            lemma_avoids(bool_text(b), '\r');
        },
        Value::Null => {},
    }
}

proof fn lemma_row_one_line(row: Seq<Value>, max: nat)
    requires
        forall|j: int| 0 <= j < row.len() ==> (#[trigger] row[j] matches Value::Float(f) ==> f.wf()),
    ensures
        line_count(row_line(row, max)) == 1,
        !row_line(row, max).contains('\r'),
{
    let cells = cell_texts(row, max);
    assert forall|j: int| 0 <= j < cells.len() implies line_count(#[trigger] cells[j]) == 0 && !cells[j].contains(
        '\r',
    ) by {
        lemma_cell_no_lines(row[j], max);
    }
    lemma_lacks_line_feed(seq![',']);
    lemma_join_no_lines(cells, seq![',']);
    lemma_lacks_line_feed(seq![' ', ' ']);
    lemma_line_count_add(seq![' ', ' '], join(cells, seq![',']));
    lemma_line_count_add(seq![' ', ' '] + join(cells, seq![',']), seq!['\n']);
    lemma_line_feed();
    lemma_avoids(seq![','], '\r');
    lemma_avoids(seq![' ', ' '], '\r');
    lemma_avoids(seq!['\n'], '\r');
    lemma_join_avoids(cells, seq![','], '\r');
    lemma_add_avoids(seq![' ', ' '], join(cells, seq![',']), '\r');
    lemma_add_avoids(seq![' ', ' '] + join(cells, seq![',']), seq!['\n'], '\r');
}

proof fn lemma_toon_text_no_cr(
    type_label: Seq<char>,
    fields: Seq<Seq<char>>,
    rows: Seq<Seq<Value>>,
    total: Option<usize>,
    hints: Seq<Seq<char>>,
    max: nat,
)
    requires
        floats_well_formed(rows),
    ensures
        !toon_text(type_label, fields, rows, total, hints, max).contains('\r'),
{
    let r = '\r';
    lemma_avoids(seq![','], r);
    lemma_avoids(seq!['['], r);
    lemma_avoids(seq![']', '{'], r);
    lemma_avoids(seq!['}', ':', '\n'], r);
    lemma_avoids(seq!['\n'], r);
    lemma_avoids(seq![' ', ' '], r);
    lemma_avoids(seq![']', ':', '\n'], r);
    // The header line.
    let hf = header_fields(fields);
    assert forall|i: int| 0 <= i < hf.len() implies !(#[trigger] hf[i]).contains(r) by {
        lemma_sanitized_no_lines(fields[i]);
    }
    lemma_join_avoids(hf, seq![','], r);
    lemma_sanitized_no_lines(type_label);
    lemma_decimal_no_cr(rows.len());
    let h1 = sanitized(type_label);
    let h2 = h1 + seq!['['];
    let h3 = h2 + decimal(rows.len());
    let h4 = h3 + seq![']', '{'];
    let h5 = h4 + join(hf, seq![',']);
    let h6 = h5 + seq!['}', ':', '\n'];
    lemma_add_avoids(h1, seq!['['], r);
    lemma_add_avoids(h2, decimal(rows.len()), r);
    lemma_add_avoids(h3, seq![']', '{'], r);
    lemma_add_avoids(h4, join(hf, seq![',']), r);
    lemma_add_avoids(h5, seq!['}', ':', '\n'], r);
    assert(h6 == header_line(type_label, fields, rows.len()));
    // The rows.
    let lines = row_lines(rows, max);
    assert forall|i: int| 0 <= i < lines.len() implies !(#[trigger] lines[i]).contains(r) by {
        assert forall|j: int| 0 <= j < rows[i].len() implies (#[trigger] rows[i][j] matches Value::Float(f)
            ==> f.wf()) by {
            assert(floats_well_formed(rows));
        }
        lemma_row_one_line(rows[i], max);
    }
    lemma_concat_avoids(lines, r);
    // The total count line.
    let t = total_line(total);
    if let Some(n) = total {
        reveal_strlit("totalCount: ");
        lemma_avoids("totalCount: "@, r);
        lemma_decimal_no_cr(n as nat);
        lemma_add_avoids("totalCount: "@, decimal(n as nat), r);
        lemma_add_avoids("totalCount: "@ + decimal(n as nat), seq!['\n'], r);
    } else {
        lemma_avoids(t, r);
    }
    // The hints.
    let hb = toon_hints_block(hints);
    if hints.len() > 0 {
        let hl = hints.map_values(|h: Seq<char>| toon_hint_line(h));
        assert forall|i: int| 0 <= i < hl.len() implies !(#[trigger] hl[i]).contains(r) by {
            lemma_sanitized_no_lines(hints[i]);
            lemma_add_avoids(seq![' ', ' '], sanitized(hints[i]), r);
            lemma_add_avoids(seq![' ', ' '] + sanitized(hints[i]), seq!['\n'], r);
        }
        lemma_concat_avoids(hl, r);
        reveal_strlit("help[");
        lemma_avoids("help["@, r);
        lemma_decimal_no_cr(hints.len());
        lemma_add_avoids("help["@, decimal(hints.len()), r);
        lemma_add_avoids("help["@ + decimal(hints.len()), seq![']', ':', '\n'], r);
        lemma_add_avoids("help["@ + decimal(hints.len()) + seq![']', ':', '\n'], concat(hl), r);
    } else {
        lemma_avoids(hb, r);
    }
    lemma_add_avoids(h6, concat(lines), r);
    lemma_add_avoids(h6 + concat(lines), t, r);
    lemma_add_avoids(h6 + concat(lines) + t, hb, r);
}

/// Every row of a document occupies exactly one line, and no carriage
/// return is ever written: a document has one line for its header, one per
/// row, one for a total count, and a `help[N]:` line followed by one line
/// per hint, whatever the names, fields, cells and hints hold. The float
/// cells' texts are what formatting gives for their bits, as every
/// `FloatText` guarantees; `ToonDocument::render` states the same of the
/// text it returns.
pub proof fn law_one_line_per_row(
    type_label: Seq<char>,
    fields: Seq<Seq<char>>,
    rows: Seq<Seq<Value>>,
    total: Option<usize>,
    hints: Seq<Seq<char>>,
    max: nat,
)
    requires
        floats_well_formed(rows),
    ensures
        !toon_text(type_label, fields, rows, total, hints, max).contains('\r'),
        line_count(toon_text(type_label, fields, rows, total, hints, max)) == 1 + rows.len() + (if total is Some {
            1nat
        } else {
            0nat
        }) + (if hints.len() > 0 {
            hints.len() + 1
        } else {
            0nat
        }),
{
    lemma_toon_text_no_cr(type_label, fields, rows, total, hints, max);
    let nl = seq!['\n'];
    lemma_line_feed();
    // The header line.
    let hf = header_fields(fields);
    assert forall|i: int| 0 <= i < hf.len() implies line_count(#[trigger] hf[i]) == 0 by {
        lemma_sanitized_no_lines(fields[i]);
    }
    lemma_lacks_line_feed(seq![',']);
    lemma_join_no_lines(hf, seq![',']);
    lemma_sanitized_no_lines(type_label);
    lemma_decimal_no_line_feed(rows.len());
    let h1 = sanitized(type_label);
    let h2 = h1 + seq!['['];
    let h3 = h2 + decimal(rows.len());
    let h4 = h3 + seq![']', '{'];
    let h5 = h4 + join(hf, seq![',']);
    let h6 = h5 + seq!['}', ':', '\n'];
    lemma_lacks_line_feed(seq!['[']);
    lemma_lacks_line_feed(seq![']', '{']);
    lemma_line_count_add(h1, seq!['[']);
    lemma_line_count_add(h2, decimal(rows.len()));
    lemma_line_count_add(h3, seq![']', '{']);
    lemma_line_count_add(h4, join(hf, seq![',']));
    lemma_line_count_add(seq!['}', ':'], nl);
    lemma_lacks_line_feed(seq!['}', ':']);
    assert(seq!['}', ':', '\n'] =~= seq!['}', ':'] + nl);
    lemma_line_count_add(h5, seq!['}', ':', '\n']);
    assert(h6 == header_line(type_label, fields, rows.len()));
    // The rows.
    let lines = row_lines(rows, max);
    assert forall|i: int| 0 <= i < lines.len() implies line_count(#[trigger] lines[i]) == 1 by {
        assert forall|j: int| 0 <= j < rows[i].len() implies (#[trigger] rows[i][j] matches Value::Float(f)
            ==> f.wf()) by {
            assert(floats_well_formed(rows));
        }
        lemma_row_one_line(rows[i], max);
    }
    lemma_concat_lines(lines);
    // The total count line.
    let t = total_line(total);
    if let Some(n) = total {
        reveal_strlit("totalCount: ");
        lemma_lacks_line_feed("totalCount: "@);
        lemma_decimal_no_line_feed(n as nat);
        lemma_line_count_add("totalCount: "@, decimal(n as nat));
        lemma_line_count_add("totalCount: "@ + decimal(n as nat), nl);
    }
    // The hints.
    let hb = toon_hints_block(hints);
    if hints.len() > 0 {
        let hl = hints.map_values(|h: Seq<char>| toon_hint_line(h));
        assert forall|i: int| 0 <= i < hl.len() implies line_count(#[trigger] hl[i]) == 1 by {
            lemma_sanitized_no_lines(hints[i]);
            lemma_lacks_line_feed(seq![' ', ' ']);
            lemma_line_count_add(seq![' ', ' '], sanitized(hints[i]));
            lemma_line_count_add(seq![' ', ' '] + sanitized(hints[i]), nl);
        }
        lemma_concat_lines(hl);
        reveal_strlit("help[");
        lemma_lacks_line_feed("help["@);
        lemma_decimal_no_line_feed(hints.len());
        lemma_line_count_add("help["@, decimal(hints.len()));
        lemma_lacks_line_feed(seq![']', ':']);
        assert(seq![']', ':', '\n'] =~= seq![']', ':'] + nl);
        lemma_line_count_add(seq![']', ':'], nl);
        lemma_line_count_add("help["@ + decimal(hints.len()), seq![']', ':', '\n']);
        lemma_line_count_add("help["@ + decimal(hints.len()) + seq![']', ':', '\n'], concat(hl));
    }
    lemma_line_count_add(h6, concat(lines));
    lemma_line_count_add(h6 + concat(lines), t);
    lemma_line_count_add(h6 + concat(lines) + t, hb);
}

} // verus!
