//! The table that a reply to a query is shown as.
use crate::json::{data_of, entry, items_view, lemma_field_view, or_null, Json, JsonView};
use crate::options::texts_of;
use crate::order::{
    keys_of, law_keys_are_handed_out_in_order, lemma_sorted_keys, ordered, sorted_keys, text_before,
};
use crate::text::same_text;
use vstd::prelude::*;

verus! {

/// The rows of a table, each a list of cells.
pub type QueryRows = Vec<Vec<Json>>;

/// A table: its columns, its rows, and whether rows were left out.
pub type QueryOutput = (Vec<String>, QueryRows, bool);

/// What a table is.
#[verifier::ext_equal]
pub struct TableView {
    pub columns: Seq<Seq<char>>,
    pub rows: Seq<Seq<JsonView>>,
    pub truncated: bool,
}

/// What the cells of the rows of a table are.
pub open spec fn rows_view(rows: Seq<Vec<Json>>) -> Seq<Seq<JsonView>> {
    Seq::new(rows.len(), |i: int| items_view(rows[i]@))
}

/// What a table is.
pub open spec fn output_view(output: QueryOutput) -> TableView {
    TableView {
        columns: texts_of(output.0@),
        rows: rows_view(output.1@),
        truncated: output.2,
    }
}

/// The keys of a row, in the order in which the row holds them.
pub open spec fn row_keys(row: Json) -> Seq<Seq<char>> {
    match row {
        Json::Object(entries) => keys_of(entries@),
        _ => Seq::empty(),
    }
}

/// The keys of each row.
pub open spec fn all_row_keys(rows: Seq<Json>) -> Seq<Seq<Seq<char>>> {
    Seq::new(rows.len(), |i: int| row_keys(rows[i]))
}

/// The keys of each row, in order.
pub open spec fn all_sorted_keys(rows: Seq<JsonView>) -> Seq<Seq<Seq<char>>> {
    Seq::new(
        rows.len(),
        |i: int|
            match rows[i] {
                JsonView::Object(map) => sorted_keys(map),
                _ => Seq::empty(),
            },
    )
}

/// The columns with those keys added that are not among them.
pub open spec fn merged(columns: Seq<Seq<char>>, keys: Seq<Seq<char>>) -> Seq<Seq<char>>
    decreases keys.len(),
{
    if keys.len() == 0 {
        columns
    } else {
        let before = merged(columns, keys.drop_last());
        if before.contains(keys.last()) {
            before
        } else {
            before.push(keys.last())
        }
    }
}

/// The keys of all rows, each at its first appearance.
pub open spec fn columns_of(keys: Seq<Seq<Seq<char>>>) -> Seq<Seq<char>>
    decreases keys.len(),
{
    if keys.len() == 0 {
        Seq::empty()
    } else {
        merged(columns_of(keys.drop_last()), keys.last())
    }
}

/// The cells of a row: an object has one under each column, any other value is the only cell.
pub open spec fn cells(columns: Seq<Seq<char>>, row: JsonView) -> Seq<JsonView> {
    if row is Object {
        Seq::new(columns.len(), |c: int| or_null(row.field(columns[c])))
    } else {
        seq![row]
    }
}

/// The table of the given rows, whose keys are given as well. Rows without any key make up one
/// column.
pub open spec fn table(
    keys: Seq<Seq<Seq<char>>>,
    rows: Seq<JsonView>,
    truncated: bool,
) -> TableView {
    let columns = columns_of(keys);
    TableView {
        columns: if columns.len() == 0 && rows.len() > 0 {
            seq!["value"@]
        } else {
            columns
        },
        rows: Seq::new(rows.len(), |i: int| cells(columns, rows[i])),
        truncated,
    }
}

/// The data of a reply.
pub open spec fn data_in(reply: Json) -> Json {
    match reply.field("data"@) {
        Some(data) => data,
        None => Json::Null,
    }
}

/// The rows in a reply: its data, where that is a list; the list in the data, where the data is an
/// object that holds one; and otherwise the data as the only row.
pub open spec fn rows_in(reply: Json) -> Seq<Json> {
    let data = data_in(reply);
    match data {
        Json::Array(items) => items@,
        Json::Object(_) => {
            let inner = match data.field("data"@) {
                Some(inner) => Some(inner),
                None => data.field("results"@),
            };
            match inner {
                Some(Json::Array(items)) => items@,
                _ => seq![data],
            }
        },
        _ => seq![data],
    }
}

/// What the rows in a reply are.
pub open spec fn rows_of(reply: JsonView) -> Seq<JsonView> {
    let data = data_of(reply);
    match data {
        JsonView::Array(items) => items,
        JsonView::Object(_) => {
            let inner = match data.field("data"@) {
                Some(inner) => Some(inner),
                None => data.field("results"@),
            };
            match inner {
                Some(JsonView::Array(items)) => items,
                _ => seq![data],
            }
        },
        _ => seq![data],
    }
}

/// The first `cap` of the rows.
pub open spec fn capped<T>(rows: Seq<T>, cap: usize) -> Seq<T> {
    if rows.len() > cap {
        rows.take(cap as int)
    } else {
        rows
    }
}

/// The table that a reply is shown as.
pub open spec fn reply_table(reply: JsonView, cap: usize) -> TableView {
    let rows = capped(rows_of(reply), cap);
    table(all_sorted_keys(rows), rows, rows_of(reply).len() > cap)
}

/// Whether a column is among the columns.
fn has_column(columns: &Vec<String>, key: &str) -> (r: bool)
    ensures
        r == texts_of(columns@).contains(key@),
{
    let mut i: usize = 0;
    while i < columns.len()
        invariant
            i <= columns.len(),
            forall|j: int| 0 <= j < i ==> (#[trigger] columns@[j])@ != key@,
        decreases columns.len() - i,
    {
        if same_text(columns[i].as_str(), key) {
            assert(texts_of(columns@)[i as int] == key@);
            return true;
        }
        i = i + 1;
    }
    false
}

/// The columns with those keys of a row added that are not among them.
fn merge_keys(columns: Vec<String>, row: &Json) -> (r: Vec<String>)
    ensures
        texts_of(r@) == merged(texts_of(columns@), row_keys(*row)),
{
    match row {
        Json::Object(entries) => {
            let mut merged_columns = columns;
            let ghost keys = keys_of(entries@);
            let mut i: usize = 0;
            assert(keys.take(0) =~= Seq::empty());
            while i < entries.len()
                invariant
                    i <= entries.len(),
                    keys == keys_of(entries@),
                    texts_of(merged_columns@) == merged(texts_of(columns@), keys.take(i as int)),
                decreases entries.len() - i,
            {
                let key = entries[i].0.as_str();
                assert(keys.take(i + 1).drop_last() =~= keys.take(i as int));
                assert(keys.take(i + 1).last() == key@);
                if !has_column(&merged_columns, key) {
                    let ghost before = texts_of(merged_columns@);
                    merged_columns.push(key.to_owned());
                    assert(texts_of(merged_columns@) =~= before.push(key@));
                }
                i = i + 1;
            }
            assert(keys.take(i as int) =~= keys);
            merged_columns
        },
        _ => columns,
    }
}

/// The keys of all rows, each at its first appearance.
fn collect_columns(rows_json: &Vec<Json>) -> (r: Vec<String>)
    ensures
        texts_of(r@) == columns_of(all_row_keys(rows_json@)),
{
    let mut columns: Vec<String> = Vec::new();
    let ghost keys = all_row_keys(rows_json@);
    let mut i: usize = 0;
    assert(keys.take(0) =~= Seq::empty());
    assert(texts_of(columns@) =~= Seq::empty());
    while i < rows_json.len()
        invariant
            i <= rows_json.len(),
            keys == all_row_keys(rows_json@),
            texts_of(columns@) == columns_of(keys.take(i as int)),
        decreases rows_json.len() - i,
    {
        assert(keys.take(i + 1).drop_last() =~= keys.take(i as int));
        columns = merge_keys(columns, &rows_json[i]);
        i = i + 1;
    }
    assert(keys.take(i as int) =~= keys);
    columns
}

/// The cells of a row.
fn row_cells(columns: &Vec<String>, row: &Json) -> (r: Vec<Json>)
    ensures
        items_view(r@) == cells(texts_of(columns@), row@),
{
    let mut out: Vec<Json> = Vec::new();
    match row {
        Json::Object(_) => {
            let mut c: usize = 0;
            while c < columns.len()
                invariant
                    c <= columns.len(),
                    out.len() == c,
                    forall|j: int|
                        0 <= j < c ==> (#[trigger] out@[j])@ == or_null(
                            row@.field(texts_of(columns@)[j]),
                        ),
                decreases columns.len() - c,
            {
                let cell = match row.get(columns[c].as_str()) {
                    Some(value) => value.copy(),
                    None => Json::Null,
                };
                out.push(cell);
                c = c + 1;
            }
            assert(items_view(out@) =~= cells(texts_of(columns@), row@));
            out
        },
        _ => {
            out.push(row.copy());
            assert(items_view(out@) =~= seq![row@]);
            out
        },
    }
}

/// The table of the given rows.
pub fn rows_to_output(rows_json: Vec<Json>, truncated: bool) -> (r: QueryOutput)
    ensures
        output_view(r) == table(all_row_keys(rows_json@), items_view(rows_json@), truncated),
{
    let columns = collect_columns(&rows_json);
    let mut rows: Vec<Vec<Json>> = Vec::new();
    let mut i: usize = 0;
    while i < rows_json.len()
        invariant
            i <= rows_json.len(),
            rows.len() == i,
            forall|j: int|
                0 <= j < i ==> items_view((#[trigger] rows@[j])@) == cells(
                    texts_of(columns@),
                    rows_json@[j]@,
                ),
        decreases rows_json.len() - i,
    {
        rows.push(row_cells(&columns, &rows_json[i]));
        i = i + 1;
    }
    let ghost expected = table(all_row_keys(rows_json@), items_view(rows_json@), truncated);
    assert(rows_view(rows@) =~= expected.rows);
    if columns.len() == 0 && rows_json.len() > 0 {
        let header: Vec<String> = vec!["value".to_owned()];
        assert(texts_of(header@) =~= seq!["value"@]);
        (header, rows, truncated)
    } else {
        (columns, rows, truncated)
    }
}

/// The rows in a reply.
pub fn reply_rows(reply: Json) -> (r: Vec<Json>)
    ensures
        r@ == rows_in(reply),
{
    let data = match reply.take("data") {
        Some(data) => data,
        None => Json::Null,
    };
    match data {
        Json::Array(items) => items,
        Json::Object(entries) => {
            let object = Json::Object(entries);
            let key = if object.get("data").is_some() {
                "data"
            } else {
                "results"
            };
            let is_list = match object.get(key) {
                Some(inner) => inner.as_array().is_some(),
                None => false,
            };
            if is_list {
                if let Some(Json::Array(items)) = object.take(key) {
                    return items;
                }
                Vec::new()
            } else {
                vec![object]
            }
        },
        other => vec![other],
    }
}

/// The table that a reply is shown as, with no more than `cap` rows.
pub fn query_output(reply: Json, cap: usize) -> (r: QueryOutput)
    ensures
        output_view(r) == ({
            let rows = capped(rows_in(reply), cap);
            table(all_row_keys(rows), items_view(rows), rows_in(reply).len() > cap)
        }),
        ordered(reply) ==> output_view(r) == reply_table(reply@, cap),
{
    let mut rows_json = reply_rows(reply);
    let truncated = rows_json.len() > cap;
    rows_json.truncate(cap);
    proof {
        assert(rows_json@ =~= capped(rows_in(reply), cap));
        if ordered(reply) {
            lemma_reply_table(reply, cap);
        }
    }
    rows_to_output(rows_json, truncated)
}

/// The rows in a reply are the rows in what the reply is.
proof fn lemma_rows_in(reply: Json)
    ensures
        items_view(rows_in(reply)) == rows_of(reply@),
        ordered(reply) ==> forall|i: int|
            0 <= i < rows_in(reply).len() ==> ordered(#[trigger] rows_in(reply)[i]),
{
    lemma_field_view(reply, "data"@);
    let data = data_in(reply);
    lemma_field_view(data, "data"@);
    lemma_field_view(data, "results"@);
    if ordered(reply) {
        lemma_field_ordered(reply, "data"@);
        lemma_field_ordered(data, "data"@);
        lemma_field_ordered(data, "results"@);
    }
    assert(items_view(seq![data]) =~= seq![data@]);
}

/// A value in an ordered object is ordered.
proof fn lemma_field_ordered(value: Json, key: Seq<char>)
    requires
        ordered(value),
    ensures
        value.field(key) matches Some(v) ==> ordered(v),
{
    if let Json::Object(entries) = value {
        lemma_entry_ordered(entries@, key);
    }
}

proof fn lemma_entry_ordered(entries: Seq<(String, Json)>, key: Seq<char>)
    requires
        forall|i: int| 0 <= i < entries.len() ==> ordered(#[trigger] entries[i].1),
    ensures
        entry(entries, key) matches Some(v) ==> ordered(v),
    decreases entries.len(),
{
    if entries.len() > 0 {
        assert(ordered(entries[entries.len() - 1].1));
        assert forall|i: int| 0 <= i < entries.drop_last().len() implies ordered(
            #[trigger] entries.drop_last()[i].1,
        ) by {
            assert(ordered(entries[i].1));
        }
        lemma_entry_ordered(entries.drop_last(), key);
    }
}

/// The table of a reply whose objects are in order is the table of what the reply is.
proof fn lemma_reply_table(reply: Json, cap: usize)
    requires
        ordered(reply),
    ensures
        ({
            let rows = capped(rows_in(reply), cap);
            table(all_row_keys(rows), items_view(rows), rows_in(reply).len() > cap)
        }) == reply_table(reply@, cap),
{
    lemma_rows_in(reply);
    let rows = capped(rows_in(reply), cap);
    let views = capped(rows_of(reply@), cap);
    assert(items_view(rows).len() == views.len());
    assert forall|i: int| 0 <= i < rows.len() implies #[trigger] items_view(rows)[i] == views[i] by {
        assert(items_view(rows_in(reply))[i] == rows_of(reply@)[i]);
    }
    assert(items_view(rows) =~= views);
    assert forall|i: int| 0 <= i < rows.len() implies #[trigger] all_row_keys(rows)[i]
        == all_sorted_keys(views)[i] by {
        assert(ordered(rows_in(reply)[i]));
        assert(items_view(rows)[i] == views[i]);
        if let Json::Object(entries) = rows[i] {
            lemma_sorted_keys(entries@);
        }
    }
    assert(all_row_keys(rows) =~= all_sorted_keys(views));
}

/// Adding keys keeps the columns that are there where they are, adds every key that is not among
/// them, and nothing else, and never one twice.
proof fn lemma_merged(columns: Seq<Seq<char>>, keys: Seq<Seq<char>>)
    requires
        columns.no_duplicates(),
    ensures
        merged(columns, keys).no_duplicates(),
        columns.is_prefix_of(merged(columns, keys)),
        forall|key: Seq<char>|
            merged(columns, keys).contains(key) <==> columns.contains(key) || keys.contains(key),
    decreases keys.len(),
{
    if keys.len() > 0 {
        let rest = keys.drop_last();
        lemma_merged(columns, rest);
        let before = merged(columns, rest);
        let after = merged(columns, keys);
        assert forall|key: Seq<char>|
            after.contains(key) <==> columns.contains(key) || keys.contains(key) by {
            assert(before.contains(key) <==> columns.contains(key) || rest.contains(key));
            if rest.contains(key) {
                let j = choose|j: int| 0 <= j < rest.len() && rest[j] == key;
                assert(keys[j] == key);
            }
            if before.contains(key) {
                let i = choose|i: int| 0 <= i < before.len() && before[i] == key;
                assert(after[i] == key);
            }
            if after.contains(key) && !before.contains(key) {
                let i = choose|i: int| 0 <= i < after.len() && after[i] == key;
                assert(i < before.len() ==> before[i] == key);
                assert(keys[keys.len() - 1] == key);
            }
            if keys.contains(key) {
                let j = choose|j: int| 0 <= j < keys.len() && keys[j] == key;
                if j < rest.len() {
                    assert(rest[j] == key);
                } else {
                    assert(after.contains(keys.last())) by {
                        if !before.contains(keys.last()) {
                            assert(after[after.len() - 1] == keys.last());
                        }
                    }
                }
            }
        }
    }
}

/// No column comes twice, and the columns are exactly the keys of the rows.
pub proof fn law_columns_are_the_keys(keys: Seq<Seq<Seq<char>>>)
    ensures
        columns_of(keys).no_duplicates(),
        forall|key: Seq<char>|
            columns_of(keys).contains(key) <==> exists|i: int|
                0 <= i < keys.len() && (#[trigger] keys[i]).contains(key),
    decreases keys.len(),
{
    if keys.len() > 0 {
        let rest = keys.drop_last();
        law_columns_are_the_keys(rest);
        lemma_merged(columns_of(rest), keys.last());
        assert forall|key: Seq<char>|
            columns_of(keys).contains(key) <==> exists|i: int|
                0 <= i < keys.len() && (#[trigger] keys[i]).contains(key) by {
            if columns_of(rest).contains(key) {
                let i = choose|i: int| 0 <= i < rest.len() && (#[trigger] rest[i]).contains(key);
                assert(keys[i].contains(key));
            }
            if keys.last().contains(key) {
                assert(keys[keys.len() - 1].contains(key));
            }
            if exists|i: int| 0 <= i < keys.len() && (#[trigger] keys[i]).contains(key) {
                let i = choose|i: int| 0 <= i < keys.len() && (#[trigger] keys[i]).contains(key);
                if i < rest.len() {
                    assert(rest[i].contains(key));
                }
            }
        }
    }
}

/// Further rows add columns behind those that are there, and move none.
pub proof fn law_further_rows_move_no_column(keys: Seq<Seq<Seq<char>>>, n: int)
    requires
        0 <= n <= keys.len(),
    ensures
        columns_of(keys.take(n)).is_prefix_of(columns_of(keys)),
    decreases keys.len(),
{
    if n == keys.len() {
        assert(keys.take(n) =~= keys);
    } else {
        let rest = keys.drop_last();
        law_further_rows_move_no_column(rest, n);
        assert(rest.take(n) =~= keys.take(n));
        law_columns_are_the_keys(rest);
        lemma_merged(columns_of(rest), keys.last());
    }
}

/// A table has one row for each value, and a row that comes from an object has a cell under every
/// key of any row: what the object holds there, or null.
pub proof fn law_cells_hold_the_fields(
    keys: Seq<Seq<Seq<char>>>,
    rows: Seq<JsonView>,
    truncated: bool,
    i: int,
)
    requires
        0 <= i < rows.len(),
    ensures
        ({
            let shown = table(keys, rows, truncated);
            &&& shown.rows.len() == rows.len()
            &&& rows[i] is Object ==> {
                &&& shown.rows[i].len() == columns_of(keys).len()
                &&& forall|c: int|
                    0 <= c < columns_of(keys).len() ==> #[trigger] shown.rows[i][c] == or_null(
                        rows[i].field(columns_of(keys)[c]),
                    )
            }
            &&& !(rows[i] is Object) ==> shown.rows[i] == seq![rows[i]]
        }),
{
}

/// No more rows are shown than were wanted, and the table says so exactly where rows were left
/// out.
pub proof fn law_no_more_rows_than_wanted(reply: JsonView, cap: usize)
    ensures
        reply_table(reply, cap).rows.len() <= cap,
        reply_table(reply, cap).rows.len() <= rows_of(reply).len(),
        reply_table(reply, cap).truncated <==> reply_table(reply, cap).rows.len() < rows_of(
            reply,
        ).len(),
{
}

/// A column stands to the left of another exactly as its key was met first: wherever the key of a
/// column stands in a row, the key of each column to the left of it stood before that, in the same
/// row or in an earlier one.
pub proof fn law_columns_come_as_their_keys_are_met(
    keys: Seq<Seq<Seq<char>>>,
    a: int,
    b: int,
    row: int,
    at: int,
)
    requires
        0 <= a < b < columns_of(keys).len(),
        0 <= row < keys.len(),
        0 <= at < keys[row].len(),
        keys[row][at] == columns_of(keys)[b],
    ensures
        exists|i: int, p: int|
            0 <= i <= row && 0 <= p < keys[i].len() && (i < row || p < at) && #[trigger] keys[i][p]
                == columns_of(keys)[a],
    decreases keys.len(),
{
    let rest = keys.drop_last();
    let before = columns_of(rest);
    let all = columns_of(keys);
    law_columns_are_the_keys(rest);
    law_columns_are_the_keys(keys);
    lemma_merged(before, keys.last());
    if row < rest.len() {
        assert(rest[row].contains(rest[row][at]));
        assert(before.contains(all[b]));
        let m = choose|m: int| 0 <= m < before.len() && before[m] == all[b];
        assert(all[m] == before[m]);
        assert(m == b);
        law_columns_come_as_their_keys_are_met(rest, a, b, row, at);
        let (i, p) = choose|i: int, p: int|
            0 <= i <= row && 0 <= p < rest[i].len() && (i < row || p < at) && #[trigger] rest[i][p]
                == before[a];
        assert(keys[i][p] == all[a]);
    } else if a < before.len() {
        assert(before[a] == all[a]);
        assert(before.contains(all[a]));
        let i = choose|i: int| 0 <= i < rest.len() && (#[trigger] rest[i]).contains(all[a]);
        let p = choose|p: int| 0 <= p < rest[i].len() && rest[i][p] == all[a];
        assert(keys[i][p] == all[a]);
    } else {
        lemma_merged_order(before, keys.last(), a, b, at);
        let p = choose|p: int| 0 <= p < at && #[trigger] keys.last()[p] == all[a];
        assert(keys[row][p] == all[a]);
    }
}

proof fn lemma_merged_order(columns: Seq<Seq<char>>, keys: Seq<Seq<char>>, a: int, b: int, at: int)
    requires
        columns.no_duplicates(),
        columns.len() <= a < b < merged(columns, keys).len(),
        0 <= at < keys.len(),
        keys[at] == merged(columns, keys)[b],
    ensures
        exists|p: int| 0 <= p < at && #[trigger] keys[p] == merged(columns, keys)[a],
    decreases keys.len(),
{
    let rest = keys.drop_last();
    let before = merged(columns, rest);
    let all = merged(columns, keys);
    lemma_merged(columns, rest);
    lemma_merged(columns, keys);
    if at < rest.len() {
        assert(rest[at] == all[b]);
        assert(rest.contains(all[b]));
        assert(before.contains(all[b]));
        let m = choose|m: int| 0 <= m < before.len() && before[m] == all[b];
        assert(all[m] == before[m]);
        assert(m == b);
        lemma_merged_order(columns, rest, a, b, at);
        let p = choose|p: int| 0 <= p < at && #[trigger] rest[p] == before[a];
        assert(keys[p] == all[a]);
    } else {
        assert(a < before.len());
        assert(before[a] == all[a]);
        assert(before.contains(all[a]));
        assert(!columns.contains(all[a])) by {
            if columns.contains(all[a]) {
                let m = choose|m: int| 0 <= m < columns.len() && columns[m] == all[a];
                assert(before[m] == columns[m]);
                assert(m == a);
            }
        }
        assert(rest.contains(all[a]));
        let p = choose|p: int| 0 <= p < rest.len() && rest[p] == all[a];
        assert(keys[p] == all[a]);
    }
}

/// Every value stands under the name of its field: where the rows have keys, the names shown are
/// these, a row that comes from an object has as many cells as there are names, and the cell under
/// a name is what the object holds under it, or null.
pub proof fn law_cells_stand_under_their_names(
    keys: Seq<Seq<Seq<char>>>,
    rows: Seq<JsonView>,
    truncated: bool,
    i: int,
    c: int,
)
    requires
        columns_of(keys).len() > 0,
        0 <= i < rows.len(),
        rows[i] is Object,
        0 <= c < table(keys, rows, truncated).columns.len(),
    ensures
        ({
            let shown = table(keys, rows, truncated);
            &&& shown.columns == columns_of(keys)
            &&& shown.rows.len() == rows.len()
            &&& shown.rows[i].len() == shown.columns.len()
            &&& match rows[i].field(shown.columns[c]) {
                Some(value) => shown.rows[i][c] == value,
                None => shown.rows[i][c] == JsonView::Null,
            }
            &&& shown.truncated == truncated
        }),
{
}

/// Rows without any key make up one column by the name of `value`; where there are no rows, there
/// are no columns either. What is no object is the only cell of its row.
pub proof fn law_rows_without_keys_make_up_one_column(
    keys: Seq<Seq<Seq<char>>>,
    rows: Seq<JsonView>,
    truncated: bool,
    i: int,
)
    requires
        forall|j: int| 0 <= j < keys.len() ==> (#[trigger] keys[j]).len() == 0,
    ensures
        rows.len() > 0 ==> table(keys, rows, truncated).columns.len() == 1 && table(
            keys,
            rows,
            truncated,
        ).columns[0] == "value"@,
        rows.len() == 0 ==> table(keys, rows, truncated).columns.len() == 0,
        table(keys, rows, truncated).rows.len() == rows.len(),
        table(keys, rows, truncated).truncated == truncated,
        0 <= i < rows.len() && !(rows[i] is Object) ==> table(keys, rows, truncated).rows[i].len()
            == 1 && table(keys, rows, truncated).rows[i][0] == rows[i],
        0 <= i < rows.len() && rows[i] is Object ==> table(keys, rows, truncated).rows[i].len()
            == 0,
{
    let columns = columns_of(keys);
    law_columns_are_the_keys(keys);
    if columns.len() > 0 {
        assert(columns.contains(columns[0]));
        let j = choose|j: int| 0 <= j < keys.len() && (#[trigger] keys[j]).contains(columns[0]);
        assert(keys[j].len() == 0);
    }
}

/// The rows of a reply are its data where that is a list; where it is an object, the list under
/// `data` or, without anything there, under `results`; otherwise the data is the only row, and
/// null where there is none.
pub proof fn law_rows_are_found_in_the_data(reply: JsonView)
    ensures
        reply.field("data"@) is None ==> rows_of(reply) == seq![JsonView::Null],
        reply.field("data"@) matches Some(data) ==> {
            &&& data matches JsonView::Array(items) ==> rows_of(reply) == items
            &&& data.field("data"@) matches Some(JsonView::Array(items)) ==> rows_of(reply)
                == items
            &&& data.field("data"@) is None ==> (data.field("results"@) matches Some(
                JsonView::Array(items),
            ) ==> rows_of(reply) == items)
            &&& !(data is Array) && data.field("data"@) is None && !(data.field(
                "results"@,
            ) matches Some(JsonView::Array(_))) ==> rows_of(reply) == seq![data]
            &&& !(data is Array) && (data.field("data"@) matches Some(inner) && !(inner is Array))
                ==> rows_of(reply) == seq![data]
        },
{
}

/// A reply is shown with its first rows, no more than were wanted, in their order, and whether rows
/// were left out is told. Every field of a row that is shown stands under its name, every name is
/// that of a field of a row that is shown, and what is no object is the only cell of its row.
pub proof fn law_a_reply_is_shown_row_by_row(reply: JsonView, cap: usize, i: int)
    requires
        0 <= i < rows_of(reply).len(),
        i < cap,
        forall|j: int|
            0 <= j < rows_of(reply).len() ==> ((#[trigger] rows_of(reply)[j]) matches
                JsonView::Object(map) ==> map.dom().finite()),
    ensures
        ({
            let shown = reply_table(reply, cap);
            let rows = rows_of(reply);
            &&& shown.rows.len() == if rows.len() <= cap {
                rows.len()
            } else {
                cap as nat
            }
            &&& shown.truncated <==> rows.len() > cap
            &&& !(rows[i] is Object) ==> shown.rows[i] == seq![rows[i]]
            &&& rows[i] is Object ==> forall|key: Seq<char>| #[trigger]
                rows[i].field(key) is Some ==> exists|c: int|
                    0 <= c < shown.columns.len() && c < shown.rows[i].len()
                        && #[trigger] shown.columns[c] == key && rows[i].field(key) == Some(
                        shown.rows[i][c],
                    )
            &&& shown.columns.no_duplicates()
            &&& forall|c: int|
                0 <= c < shown.columns.len() ==> (shown.columns.len() == 1 && shown.columns[c]
                    == "value"@) || exists|j: int|
                    0 <= j < shown.rows.len() && rows[j].field(#[trigger] shown.columns[c]) is Some
                        && #[trigger] rows[j] is Object
        }),
{
    let all = rows_of(reply);
    let rows = capped(all, cap);
    let keys = all_sorted_keys(rows);
    let shown = reply_table(reply, cap);
    let columns = columns_of(keys);
    law_columns_are_the_keys(keys);
    assert forall|j: int| 0 <= j < rows.len() implies #[trigger] rows[j] == all[j] by {}
    if rows[i] is Object {
        assert forall|key: Seq<char>| #[trigger] rows[i].field(key) is Some implies exists|c: int|
            0 <= c < shown.columns.len() && c < shown.rows[i].len() && #[trigger] shown.columns[c]
                == key && rows[i].field(key) == Some(shown.rows[i][c]) by {
            let map = rows[i]->Object_0;
            assert(rows[i] == all[i]);
            law_keys_are_handed_out_in_order(map);
            assert(keys[i] == sorted_keys(map));
            assert(keys[i].contains(key));
            assert(columns.contains(key));
            let c = choose|c: int| 0 <= c < columns.len() && columns[c] == key;
            assert(shown.columns == columns);
            assert(shown.columns[c] == key);
            assert(shown.rows[i][c] == or_null(rows[i].field(key)));
        }
    }
    assert forall|c: int| 0 <= c < shown.columns.len() implies (shown.columns.len() == 1
        && shown.columns[c] == "value"@) || exists|j: int|
        0 <= j < shown.rows.len() && all[j].field(#[trigger] shown.columns[c]) is Some
            && #[trigger] all[j] is Object by {
        if columns.len() > 0 {
            let key = columns[c];
            assert(columns.contains(key));
            let j = choose|j: int| 0 <= j < keys.len() && (#[trigger] keys[j]).contains(key);
            assert(rows[j] == all[j]);
            if let JsonView::Object(map) = rows[j] {
                law_keys_are_handed_out_in_order(map);
                assert(keys[j] == sorted_keys(map));
                assert(all[j].field(shown.columns[c]) is Some);
            }
        }
    }
}

/// The columns of a reply with one row that is an object are the keys of that object, in order.
pub proof fn law_one_row_shows_its_keys_in_order(
    reply: JsonView,
    map: Map<Seq<char>, JsonView>,
    cap: usize,
    c: int,
    d: int,
)
    requires
        rows_of(reply) == seq![JsonView::Object(map)],
        map.dom().finite(),
        cap > 0,
        0 <= c < d < reply_table(reply, cap).columns.len(),
    ensures
        text_before(reply_table(reply, cap).columns[c], reply_table(reply, cap).columns[d]),
{
    let rows = capped(rows_of(reply), cap);
    let keys = all_sorted_keys(rows);
    let columns = columns_of(keys);
    law_columns_are_the_keys(keys);
    law_keys_are_handed_out_in_order(map);
    assert(rows =~= seq![JsonView::Object(map)]);
    assert(keys.len() == 1 && keys[0] == sorted_keys(map));
    assert(columns.contains(columns[d]));
    let row = choose|j: int| 0 <= j < keys.len() && (#[trigger] keys[j]).contains(columns[d]);
    let q = choose|q: int| 0 <= q < keys[row].len() && keys[row][q] == columns[d];
    law_columns_come_as_their_keys_are_met(keys, c, d, 0, q);
    let (i, p) = choose|i: int, p: int|
        0 <= i <= 0 && 0 <= p < keys[i].len() && (i < 0 || p < q) && #[trigger] keys[i][p]
            == columns[c];
    assert(text_before(sorted_keys(map)[p], sorted_keys(map)[q]));
}

/// A table is seen as it is: every name, every cell, and whether rows were left out.
pub proof fn law_a_table_is_seen_as_it_is(output: QueryOutput)
    ensures
        output_view(output).columns.len() == output.0.len(),
        forall|c: int|
            0 <= c < output.0.len() ==> #[trigger] output_view(output).columns[c] == output.0[c]@,
        output_view(output).rows.len() == output.1.len(),
        forall|i: int|
            0 <= i < output.1.len() ==> (#[trigger] output_view(output).rows[i]).len()
                == output.1[i].len(),
        forall|i: int, c: int|
            0 <= i < output.1.len() && 0 <= c < output.1[i].len() ==> #[trigger] output_view(
                output,
            ).rows[i][c] == output.1[i][c]@,
        output_view(output).truncated == output.2,
{
}

/// A row hands its keys out in the order in which it holds them; what is no object has none.
pub proof fn law_a_row_hands_its_keys_out_as_it_holds_them(rows: Seq<Json>, i: int)
    requires
        0 <= i < rows.len(),
    ensures
        all_row_keys(rows).len() == rows.len(),
        match rows[i] {
            Json::Object(entries) => all_row_keys(rows)[i].len() == entries.len() && forall|k: int|
                0 <= k < entries.len() ==> #[trigger] all_row_keys(rows)[i][k] == entries[k].0@,
            _ => all_row_keys(rows)[i].len() == 0,
        },
{
}

} // verus!
