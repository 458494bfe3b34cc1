//! Reading the JSON answers of the API-based sources.
//!
//! A response is read through `serde_json` into a [`JsonTable`]: the rows of
//! one array of the document, and for each row the values found at a fixed
//! list of JSON pointers. What the sources do with those values is verified.
use serde_json::Value;
use vstd::prelude::*;

verus! {

/// A value looked up in a JSON document.
#[derive(Debug)]
pub struct JsonLeaf {
    /// The value in compact JSON notation, when the pointer leads to a value.
    pub text: Option<String>,
    /// The contents, when the value is a JSON string.
    pub string: Option<String>,
}

/// The view of a [`JsonLeaf`].
pub struct JsonLeafView {
    pub text: Option<Seq<char>>,
    pub string: Option<Seq<char>>,
}

impl DeepView for JsonLeaf {
    type V = JsonLeafView;

    open spec fn deep_view(&self) -> JsonLeafView {
        JsonLeafView { text: self.text.deep_view(), string: self.string.deep_view() }
    }
}

/// What was read out of a JSON document: when an array stands at the selected
/// pointer, one row per element of it, one leaf per requested pointer (`None`
/// when no array stands there); and the leaves requested from the root.
#[derive(Debug)]
pub struct JsonTable {
    pub rows: Option<Vec<Vec<JsonLeaf>>>,
    pub top: Vec<JsonLeaf>,
}

/// The view of a [`JsonTable`].
pub struct JsonTableView {
    pub rows: Option<Seq<Seq<JsonLeafView>>>,
    pub top: Seq<JsonLeafView>,
}

impl DeepView for JsonTable {
    type V = JsonTableView;

    open spec fn deep_view(&self) -> JsonTableView {
        JsonTableView { rows: self.rows.deep_view(), top: self.top.deep_view() }
    }
}

/// The rows a source reads from a table: those of the array found, and none
/// when no array stands at the selected pointer.
pub open spec fn listed_rows(t: JsonTableView) -> Seq<Seq<JsonLeafView>> {
    match t.rows {
        Some(rows) => rows,
        None => Seq::empty(),
    }
}

impl JsonTable {
    /// The rows of the table (see [`listed_rows`]).
    pub fn into_rows(self) -> (r: Vec<Vec<JsonLeaf>>)
        ensures
            r.deep_view() == listed_rows(self.deep_view()),
    {
        match self.rows {
            Some(rows) => rows,
            None => {
                let rows: Vec<Vec<JsonLeaf>> = Vec::new();
                assert(rows.deep_view() =~= Seq::<Seq<JsonLeafView>>::empty());
                rows
            },
        }
    }
}

/// What `serde_json` makes of the document `text` (see [`json_table`]).
pub uninterp spec fn json_table_of(
    text: Seq<char>,
    rows_at: Seq<char>,
    fields: Seq<Seq<char>>,
    top: Seq<Seq<char>>,
) -> Option<JsonTableView>;

/// The pointer list of a slice of string slices, as character sequences.
pub open spec fn pointers(ps: Seq<&str>) -> Seq<Seq<char>> {
    ps.map_values(|p: &str| p@)
}

/// Calls `serde_json::from_str`, `Value::pointer`, `Value::as_array`,
/// `Value::as_str` and `Value`'s `Display`: parses `text` as JSON (`None` when
/// it is not JSON); when an array stands at pointer `rows_at`, for each of its
/// elements and each pointer of `fields`, the value below that element (`None`
/// when no array stands there); and for each pointer of `top`, the value below the root. The
/// contract names the outcome and claims only that it depends on the four
/// arguments alone.
#[verifier::external_body]
pub(crate) fn json_table(text: &str, rows_at: &str, fields: &[&str], top: &[&str]) -> (r: Option<
    JsonTable,
>)
    ensures
        r.deep_view() == json_table_of(text@, rows_at@, pointers(fields@), pointers(top@)),
{
    let v: Value = serde_json::from_str(text).ok()?;
    let leaf = |x: Option<&Value>|
        JsonLeaf { text: x.map(Value::to_string), string: x.and_then(Value::as_str).map(String::from) };
    let arr = v.pointer(rows_at).and_then(Value::as_array);
    let rows = arr.map(|a| a.iter().map(|e| fields.iter().map(|f| leaf(e.pointer(f))).collect()).collect());
    Some(JsonTable { rows, top: top.iter().map(|f| leaf(v.pointer(f))).collect() })
}

/// The leaf at position `k` of a row, or an absent value past its end.
pub open spec fn leaf_at(row: Seq<JsonLeafView>, k: int) -> JsonLeafView {
    if 0 <= k < row.len() {
        row[k]
    } else {
        JsonLeafView { text: None, string: None }
    }
}

/// `a` when it is present, else `b` (`Option::or_else` on looked-up values).
pub open spec fn first_present(a: JsonLeafView, b: JsonLeafView) -> JsonLeafView {
    if a.text is Some {
        a
    } else {
        b
    }
}

/// The string contents of `l`, or `default` when it is no string.
pub open spec fn str_or(l: JsonLeafView, default: Seq<char>) -> Seq<char> {
    match l.string {
        Some(s) => s,
        None => default,
    }
}

/// The JSON text of `l`, or `default` when it is absent.
pub open spec fn text_or(l: JsonLeafView, default: Seq<char>) -> Seq<char> {
    match l.text {
        Some(s) => s,
        None => default,
    }
}

fn clone_opt(o: &Option<String>) -> (r: Option<String>)
    ensures
        r.deep_view() == o.deep_view(),
{
    match o {
        Some(s) => Some(s.clone()),
        None => None,
    }
}

/// The view of the leaf at position `k` of `row`.
pub open spec fn row_leaf(row: &Vec<JsonLeaf>, k: int) -> JsonLeafView {
    leaf_at(row.deep_view(), k)
}

/// Whether the leaf at position `k` of `row` is present.
pub fn present_at(row: &Vec<JsonLeaf>, k: usize) -> (r: bool)
    ensures
        r == (row_leaf(row, k as int).text is Some),
{
    if k < row.len() {
        row[k].text.is_some()
    } else {
        false
    }
}

/// The string contents of the leaf at position `k` of `row`, if it is a string.
pub fn string_at(row: &Vec<JsonLeaf>, k: usize) -> (r: Option<String>)
    ensures
        r.deep_view() == row_leaf(row, k as int).string,
{
    if k < row.len() {
        clone_opt(&row[k].string)
    } else {
        None
    }
}

/// The JSON text of the leaf at position `k` of `row`, if present.
pub fn text_at(row: &Vec<JsonLeaf>, k: usize) -> (r: Option<String>)
    ensures
        r.deep_view() == row_leaf(row, k as int).text,
{
    if k < row.len() {
        clone_opt(&row[k].text)
    } else {
        None
    }
}

/// The string contents of the first present leaf among positions `a` and `b`.
pub fn string_of_first_present(row: &Vec<JsonLeaf>, a: usize, b: usize) -> (r: Option<String>)
    ensures
        r.deep_view() == first_present(row_leaf(row, a as int), row_leaf(row, b as int)).string,
{
    if present_at(row, a) {
        string_at(row, a)
    } else {
        string_at(row, b)
    }
}

} // verus!
