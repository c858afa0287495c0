//! The row builder: evaluates columns against each resource, keeps the rows
//! that the filter matches, and derives an object handle for each.

use vstd::prelude::*;
use crate::age::{duration_text, rfc3339_seconds, time_since, timestamp_seconds};
use crate::filter::{regex_matches, Filter};
use crate::keyval::{dump_pairs, keyval_str, keyval_text};
use crate::text::{decimal, decimal_text, text_eq};
use crate::value::{resolve, text_at, Value};

verus! {

/// A column that is not built in: its cell is the scalar at `path`.
pub struct ColumnExtractor {
    pub column: String,
    pub path: String,
}

/// A lightweight reference to a listed object, by kind, name and namespace.
pub struct ObjectHandle {
    pub kind: String,
    pub name: String,
    pub namespace: Option<String>,
}

pub type HandleView = (Seq<char>, Seq<char>, Option<Seq<char>>);

pub open spec fn opt_view(o: Option<String>) -> Option<Seq<char>> {
    match o {
        Some(s) => Some(s@),
        None => None,
    }
}

impl ObjectHandle {
    pub open spec fn view(&self) -> HandleView {
        (self.kind@, self.name@, opt_view(self.namespace))
    }
}

/// The handle of a resource of the given kind: its name (empty where it has
/// none) and its namespace.
pub open spec fn handle_of(kind: Seq<char>, res: Value) -> HandleView {
    (
        kind,
        match text_at(res, "/metadata/name"@) {
            Some(n) => n,
            None => Seq::empty(),
        },
        text_at(res, "/metadata/namespace"@),
    )
}

/// Makes the handle of a resource of the given kind.
pub fn get_handle(kind: &str, res: &Value) -> (r: ObjectHandle)
    ensures
        r.view() == handle_of(kind@, *res),
{
    let name = match res.str_at("/metadata/name") {
        Some(n) => n.clone(),
        None => String::new(),
    };
    let namespace = match res.str_at("/metadata/namespace") {
        Some(n) => Some(n.clone()),
        None => None,
    };
    ObjectHandle { kind: String::from_str(kind), name, namespace }
}

/// The text of a scalar: strings as they are, numbers in decimal, booleans
/// as `true` or `false`; nothing for null, arrays and objects.
pub open spec fn scalar_text(v: Value) -> Option<Seq<char>> {
    match v {
        Value::Text(s) => Some(s@),
        Value::Real(s) => Some(s@),
        Value::UInt(n) => Some(decimal(n as int)),
        Value::Int(n) => Some(decimal(n as int)),
        Value::Bool(b) => Some(if b { "true"@ } else { "false"@ }),
        _ => None,
    }
}

/// Renders a scalar (see `scalar_text`).
pub fn scalar_string(v: &Value) -> (r: Option<String>)
    ensures
        opt_view(r) == scalar_text(*v),
{
    match v {
        Value::Text(s) => Some(s.clone()),
        Value::Real(s) => Some(s.clone()),
        Value::UInt(n) => Some(decimal_text(*n as i128)),
        Value::Int(n) => Some(decimal_text(*n as i128)),
        Value::Bool(b) => Some(if *b { String::from_str("true") } else { String::from_str("false") }),
        _ => None,
    }
}

/// The path registered for `column`: that of the first extractor named so.
pub open spec fn registered(registry: Seq<ColumnExtractor>, column: Seq<char>) -> Option<Seq<char>>
    decreases registry.len(),
{
    if registry.len() == 0 {
        None
    } else if registry[0].column@ == column {
        Some(registry[0].path@)
    } else {
        registered(registry.drop_first(), column)
    }
}

/// The columns built into every list.
pub open spec fn is_builtin(column: Seq<char>) -> bool {
    column == "Name"@ || column == "Namespace"@ || column == "Age"@ || column == "Labels"@
}

/// Whether a column can be evaluated: built in, or registered.
pub open spec fn column_known(registry: Seq<ColumnExtractor>, column: Seq<char>) -> bool {
    is_builtin(column) || registered(registry, column) is Some
}

/// The labels of a resource as `key=value` lines; empty where it has none.
pub open spec fn labels_text(res: Value) -> Seq<char> {
    match resolve(res, "/metadata/labels"@) {
        Some(Value::Object(entries)) => keyval_text(dump_pairs(res, entries@, false, Seq::empty())),
        _ => Seq::empty(),
    }
}

/// The age of a resource at time `now`, where its creation time parses.
pub open spec fn age_text(res: Value, now: int) -> Option<Seq<char>> {
    match text_at(res, "/metadata/creationTimestamp"@) {
        Some(ts) => match rfc3339_seconds(ts) {
            Some(secs) => Some(duration_text(now - secs)),
            None => None,
        },
        None => None,
    }
}

/// The cell of a column for a resource at time `now`; nothing where the
/// value is absent.
pub open spec fn cell_of(registry: Seq<ColumnExtractor>, column: Seq<char>, res: Value, now: int) -> Option<Seq<char>> {
    if column == "Age"@ {
        age_text(res, now)
    } else if column == "Labels"@ {
        Some(labels_text(res))
    } else if column == "Name"@ {
        text_at(res, "/metadata/name"@)
    } else if column == "Namespace"@ {
        text_at(res, "/metadata/namespace"@)
    } else {
        match registered(registry, column) {
            Some(path) => match resolve(res, path) {
                Some(v) => scalar_text(v),
                None => None,
            },
            None => None,
        }
    }
}

pub open spec fn cells_view(cells: Seq<Option<String>>) -> Seq<Option<Seq<char>>> {
    cells.map_values(|c: Option<String>| opt_view(c))
}

/// The cells of a row: one per column, in order.
pub open spec fn row_cells(registry: Seq<ColumnExtractor>, cols: Seq<String>, res: Value, now: int) -> Seq<Option<Seq<char>>> {
    Seq::new(cols.len(), |i: int| cell_of(registry, cols[i]@, res, now))
}

/// The rendered text of a cell: an absent cell renders blank.
pub open spec fn cell_text(c: Option<Seq<char>>) -> Seq<char> {
    match c {
        Some(t) => t,
        None => Seq::empty(),
    }
}

/// Whether a row is kept: always without a filter, else when the pattern
/// matches the text of at least one of its cells.
pub open spec fn row_kept(pattern: Option<Seq<char>>, cells: Seq<Option<Seq<char>>>) -> bool {
    match pattern {
        None => true,
        Some(p) => exists|i: int| 0 <= i < cells.len() && regex_matches(p, #[trigger] cell_text(cells[i])),
    }
}

pub type EntryView = (HandleView, Seq<Option<Seq<char>>>);

/// The rows built from `list`, in order: each resource's handle and cells,
/// for the resources whose row the filter keeps.
pub open spec fn built_rows(
    registry: Seq<ColumnExtractor>,
    cols: Seq<String>,
    list: Seq<Value>,
    pattern: Option<Seq<char>>,
    kind: Seq<char>,
    now: int,
) -> Seq<EntryView>
    decreases list.len(),
{
    if list.len() == 0 {
        Seq::empty()
    } else {
        let rest = built_rows(registry, cols, list.drop_last(), pattern, kind, now);
        let cells = row_cells(registry, cols, list.last(), now);
        if row_kept(pattern, cells) {
            rest.push((handle_of(kind, list.last()), cells))
        } else {
            rest
        }
    }
}

pub open spec fn filter_pattern(filter: Option<&Filter>) -> Option<Seq<char>> {
    match filter {
        Some(f) => Some(f.pattern()),
        None => None,
    }
}

/// A handle together with the cells of its row.
pub type Entry = (ObjectHandle, Vec<Option<String>>);

pub open spec fn entry_view(e: Entry) -> EntryView {
    (e.0.view(), cells_view(e.1@))
}

pub open spec fn entries_view(s: Seq<Entry>) -> Seq<EntryView> {
    s.map_values(|e: Entry| entry_view(e))
}

/// The path registered for `column` (see `registered`).
pub fn find_extractor<'a>(registry: &'a Vec<ColumnExtractor>, column: &str) -> (r: Option<&'a String>)
    ensures
        r matches Some(p) ==> registered(registry@, column@) == Some(p@),
        r is None ==> registered(registry@, column@) is None,
{
    let mut i: usize = 0;
    assert(registry@.skip(0) == registry@);
    while i < registry.len()
        invariant
            i <= registry@.len(),
            registered(registry@, column@) == registered(registry@.skip(i as int), column@),
        decreases registry@.len() - i,
    {
        assert(registry@.skip(i as int).drop_first() == registry@.skip(i + 1));
        assert(registry@.skip(i as int)[0] == registry@[i as int]);
        if text_eq(registry[i].column.as_str(), column) {
            return Some(&registry[i].path);
        }
        i = i + 1;
    }
    None
}

/// The labels of a resource (see `labels_text`).
pub fn extract_labels(res: &Value) -> (r: String)
    ensures
        r@ == labels_text(*res),
{
    match res.pointer("/metadata/labels") {
        Some(Value::Object(_)) => {
            let skip: Vec<String> = Vec::new();
            keyval_str(res, "/metadata/labels", false, &skip)
        },
        _ => String::new(),
    }
}

/// The age of a resource at `now` (see `age_text`).
pub fn extract_age(res: &Value, now: i64) -> (r: Option<String>)
    ensures
        opt_view(r) == age_text(*res, now as int),
{
    match res.str_at("/metadata/creationTimestamp") {
        Some(ts) => match timestamp_seconds(ts.as_str()) {
            Some(secs) => Some(time_since(now, secs)),
            None => None,
        },
        None => None,
    }
}

/// The name of a resource, where it has one.
pub fn extract_name(res: &Value) -> (r: Option<String>)
    ensures
        opt_view(r) == text_at(*res, "/metadata/name"@),
{
    match res.str_at("/metadata/name") {
        Some(s) => Some(s.clone()),
        None => None,
    }
}

/// The namespace of a resource, where it has one.
pub fn extract_namespace(res: &Value) -> (r: Option<String>)
    ensures
        opt_view(r) == text_at(*res, "/metadata/namespace"@),
{
    match res.str_at("/metadata/namespace") {
        Some(s) => Some(s.clone()),
        None => None,
    }
}

/// Evaluates one column for a resource (see `cell_of`).
pub fn extract_cell(registry: &Vec<ColumnExtractor>, column: &str, res: &Value, now: i64) -> (r: Option<String>)
    ensures
        opt_view(r) == cell_of(registry@, column@, *res, now as int),
{
    if text_eq(column, "Age") {
        extract_age(res, now)
    } else if text_eq(column, "Labels") {
        Some(extract_labels(res))
    } else if text_eq(column, "Name") {
        extract_name(res)
    } else if text_eq(column, "Namespace") {
        extract_namespace(res)
    } else {
        match find_extractor(registry, column) {
            Some(path) => match res.pointer(path.as_str()) {
                Some(v) => scalar_string(v),
                None => None,
            },
            None => None,
        }
    }
}

/// Whether the filter matches the text of some cell (see `row_kept`).
pub fn row_matches(cells: &Vec<Option<String>>, filter: &Filter) -> (r: bool)
    ensures
        r == row_kept(Some(filter.pattern()), cells_view(cells@)),
{
    let mut i: usize = 0;
    while i < cells.len()
        invariant
            i <= cells@.len(),
            forall|k: int| 0 <= k < i ==> !regex_matches(filter.pattern(), #[trigger] cell_text(cells_view(cells@)[k])),
        decreases cells@.len() - i,
    {
        proof {
            reveal_strlit("");
            assert(""@ =~= Seq::<char>::empty());
        }
        assert(cells_view(cells@)[i as int] == opt_view(cells@[i as int]));
        let m = match &cells[i] {
            Some(t) => filter.is_match(t.as_str()),
            None => filter.is_match(""),
        };
        if m {
            assert(regex_matches(filter.pattern(), cell_text(cells_view(cells@)[i as int])));
            return true;
        }
        i = i + 1;
    }
    false
}

/// Why a list cannot be built.
pub enum ListError {
    /// A column is neither built in nor registered.
    UnknownColumn(String),
}

/// Checks that every column can be evaluated; names the first that cannot.
pub fn check_columns(cols: &Vec<String>, registry: &Vec<ColumnExtractor>) -> (r: Result<(), ListError>)
    ensures
        r is Ok <==> all_columns_known(registry@, cols@),
{
    let mut i: usize = 0;
    while i < cols.len()
        invariant
            i <= cols@.len(),
            forall|k: int| 0 <= k < i ==> column_known(registry@, (#[trigger] cols@[k])@),
        decreases cols@.len() - i,
    {
        let c = cols[i].as_str();
        let known = text_eq(c, "Name") || text_eq(c, "Namespace") || text_eq(c, "Age") || text_eq(c, "Labels")
            || find_extractor(registry, c).is_some();
        if !known {
            return Err(ListError::UnknownColumn(cols[i].clone()));
        }
        i = i + 1;
    }
    Ok(())
}

/// Every column can be evaluated.
pub open spec fn all_columns_known(registry: Seq<ColumnExtractor>, cols: Seq<String>) -> bool {
    forall|i: int| 0 <= i < cols.len() ==> column_known(registry, (#[trigger] cols[i])@)
}

/// Builds the rows of a list: for each resource in order, one cell per
/// column, kept where the filter (if any) matches one of its cells, with the
/// resource's handle. A column that is neither built in nor registered is a
/// configuration error, left out here (see `check_columns`).
pub fn build_specs(
    cols: &Vec<String>,
    list: &Vec<Value>,
    registry: &Vec<ColumnExtractor>,
    filter: Option<&Filter>,
    kind: &str,
    now: i64,
) -> (r: Vec<Entry>)
    requires
        all_columns_known(registry@, cols@),
    ensures
        entries_view(r@) == built_rows(registry@, cols@, list@, filter_pattern(filter), kind@, now as int),
{
    let mut ret: Vec<Entry> = Vec::new();
    let mut i: usize = 0;
    while i < list.len()
        invariant
            i <= list@.len(),
            entries_view(ret@) == built_rows(registry@, cols@, list@.take(i as int), filter_pattern(filter), kind@, now as int),
        decreases list@.len() - i,
    {
        let item = &list[i];
        let mut row: Vec<Option<String>> = Vec::new();
        let mut j: usize = 0;
        while j < cols.len()
            invariant
                j <= cols@.len(),
                cells_view(row@) == row_cells(registry@, cols@, *item, now as int).take(j as int),
            decreases cols@.len() - j,
        {
            let c = extract_cell(registry, cols[j].as_str(), item, now);
            let ghost before = row@;
            let ghost cv = opt_view(c);
            assert(cv == row_cells(registry@, cols@, *item, now as int)[j as int]);
            row.push(c);
            assert(cells_view(row@) =~= cells_view(before).push(cv));
            assert(cells_view(row@) =~= row_cells(registry@, cols@, *item, now as int).take(j + 1));
            j = j + 1;
        }
        assert(cells_view(row@) =~= row_cells(registry@, cols@, *item, now as int));
        let keep = match filter {
            Some(f) => row_matches(&row, f),
            None => true,
        };
        assert(list@.take(i + 1).drop_last() == list@.take(i as int));
        assert(list@.take(i + 1).last() == *item);
        if keep {
            let h = get_handle(kind, item);
            let ghost before = ret@;
            ret.push((h, row));
            assert(entries_view(ret@) =~= entries_view(before).push(entry_view(ret@.last())));
        }
        i = i + 1;
    }
    assert(list@.take(i as int) == list@);
    ret
}

/// Filtering: a resource whose row has no cell that the pattern matches
/// adds no row; one whose row has a matching cell adds exactly its row; and
/// an empty list gives no rows.
pub proof fn lemma_filter_law(
    registry: Seq<ColumnExtractor>,
    cols: Seq<String>,
    list: Seq<Value>,
    pattern: Seq<char>,
    kind: Seq<char>,
    now: int,
    res: Value,
)
    ensures
        built_rows(registry, cols, Seq::empty(), Some(pattern), kind, now) == Seq::<EntryView>::empty(),
        (forall|i: int| 0 <= i < cols.len() ==> !regex_matches(pattern, #[trigger] cell_text(row_cells(registry, cols, res, now)[i])))
            ==> built_rows(registry, cols, list.push(res), Some(pattern), kind, now)
            == built_rows(registry, cols, list, Some(pattern), kind, now),
        (exists|i: int| 0 <= i < cols.len() && regex_matches(pattern, #[trigger] cell_text(row_cells(registry, cols, res, now)[i])))
            ==> built_rows(registry, cols, list.push(res), Some(pattern), kind, now)
            == built_rows(registry, cols, list, Some(pattern), kind, now).push(
                (handle_of(kind, res), row_cells(registry, cols, res, now)),
            ),
{
    assert(list.push(res).drop_last() == list);
}

/// Every row that a filtered list emits has a cell that the pattern matches.
pub proof fn lemma_filtered_rows_match(
    registry: Seq<ColumnExtractor>,
    cols: Seq<String>,
    list: Seq<Value>,
    pattern: Seq<char>,
    kind: Seq<char>,
    now: int,
)
    ensures
        forall|k: int| 0 <= k < built_rows(registry, cols, list, Some(pattern), kind, now).len()
            ==> row_kept(Some(pattern), (#[trigger] built_rows(registry, cols, list, Some(pattern), kind, now)[k]).1),
    decreases list.len(),
{
    if list.len() > 0 {
        lemma_filtered_rows_match(registry, cols, list.drop_last(), pattern, kind, now);
        let rest = built_rows(registry, cols, list.drop_last(), Some(pattern), kind, now);
        let all = built_rows(registry, cols, list, Some(pattern), kind, now);
        assert forall|k: int| 0 <= k < all.len() implies row_kept(Some(pattern), (#[trigger] all[k]).1) by {
            if k < rest.len() {
                assert(all[k] == rest[k]);
            }
        }
    }
}

/// Rows of two lists one after the other are the rows of the joined list.
pub proof fn lemma_built_rows_concat(
    registry: Seq<ColumnExtractor>,
    cols: Seq<String>,
    a: Seq<Value>,
    b: Seq<Value>,
    pattern: Option<Seq<char>>,
    kind: Seq<char>,
    now: int,
)
    ensures
        built_rows(registry, cols, a + b, pattern, kind, now) == built_rows(registry, cols, a, pattern, kind, now)
            + built_rows(registry, cols, b, pattern, kind, now),
    decreases b.len(),
{
    if b.len() == 0 {
        assert(a + b == a);
        assert(built_rows(registry, cols, a, pattern, kind, now) + Seq::<EntryView>::empty() == built_rows(registry, cols, a, pattern, kind, now));
    } else {
        lemma_built_rows_concat(registry, cols, a, b.drop_last(), pattern, kind, now);
        assert((a + b).drop_last() == a + b.drop_last());
        assert((a + b).last() == b.last());
        let ra = built_rows(registry, cols, a, pattern, kind, now);
        let rb = built_rows(registry, cols, b.drop_last(), pattern, kind, now);
        let e = (handle_of(kind, b.last()), row_cells(registry, cols, b.last(), now));
        assert((ra + rb).push(e) == ra + rb.push(e));
    }
}

/// Filtering at any position: the resource `x` between `before` and `after`
/// adds its row to the result, in its place, exactly when a cell of that row
/// matches; the rows of the other resources are unchanged.
pub proof fn lemma_filter_any_position(
    registry: Seq<ColumnExtractor>,
    cols: Seq<String>,
    before: Seq<Value>,
    x: Value,
    after: Seq<Value>,
    pattern: Seq<char>,
    kind: Seq<char>,
    now: int,
)
    ensures
        built_rows(registry, cols, before.push(x) + after, Some(pattern), kind, now) == built_rows(
            registry,
            cols,
            before,
            Some(pattern),
            kind,
            now,
        ) + (if row_kept(Some(pattern), row_cells(registry, cols, x, now)) {
            seq![(handle_of(kind, x), row_cells(registry, cols, x, now))]
        } else {
            Seq::empty()
        }) + built_rows(registry, cols, after, Some(pattern), kind, now),
{
    lemma_built_rows_concat(registry, cols, before.push(x), after, Some(pattern), kind, now);
    assert(before.push(x).drop_last() == before);
    let rb = built_rows(registry, cols, before, Some(pattern), kind, now);
    let e = (handle_of(kind, x), row_cells(registry, cols, x, now));
    assert(rb.push(e) == rb + seq![e]);
    assert(rb + Seq::<EntryView>::empty() == rb);
}

} // verus!
