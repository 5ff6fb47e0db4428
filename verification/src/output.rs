//! The choice of output format.

use vstd::prelude::*;
use vstd::string::*;
use crate::text::{
    find_key, holds_text, insert_sorted, join, joined, position, strictly_sorted, texts,
};

verus! {

/// How results are shown.
#[derive(Copy, Clone, Debug, PartialEq, Eq, Structural)]
pub enum OutputFormat {
    Table,
    Json,
    Yaml,
    Csv,
    Quiet,
}

impl Default for OutputFormat {
    fn default() -> (r: Self)
        ensures
            r == OutputFormat::Table,
    {
        OutputFormat::Table
    }
}

/// Renders results in one format.
pub struct OutputRenderer {
    format: OutputFormat,
}

impl View for OutputRenderer {
    type V = OutputFormat;

    closed spec fn view(&self) -> OutputFormat {
        self.format
    }
}

impl OutputRenderer {
    /// A renderer for `format`.
    pub fn new(format: OutputFormat) -> (r: Self)
        ensures
            r@ == format,
    {
        OutputRenderer { format }
    }

    /// The format in use.
    pub fn format(&self) -> (r: OutputFormat)
        ensures
            r == self@,
    {
        self.format
    }
}

/// What kind of JSON value a value is, with what it holds.
#[derive(Debug, PartialEq, Eq)]
pub enum JsonKind {
    Null,
    Bool(bool),
    Number,
    Text(String),
    Array(Vec<JsonValue>),
    Object(Vec<(String, JsonValue)>),
}

/// A JSON value as the renderer reads it: its kind, and its compact JSON
/// text. The members of an object stand in the order of the object.
#[derive(Debug, PartialEq, Eq)]
pub struct JsonValue {
    pub kind: JsonKind,
    pub compact: String,
}

/// A value as the text of a table cell: a string as it is, a number and a
/// boolean as JSON writes them, null as the empty text, and an array or an
/// object as compact JSON.
pub open spec fn cell_text(value: JsonValue) -> Seq<char> {
    match value.kind {
        JsonKind::Text(text) => text@,
        JsonKind::Bool(b) => if b {
            "true"@
        } else {
            "false"@
        },
        JsonKind::Null => Seq::empty(),
        _ => value.compact@,
    }
}

/// `key` is a key of some object among the rows.
pub open spec fn is_column(rows: Seq<JsonValue>, key: Seq<char>) -> bool {
    exists|r: int, m: int|
        0 <= r < rows.len() && (#[trigger] rows[r]).kind is Object && 0 <= m
            < rows[r].kind->Object_0@.len() && (#[trigger] rows[r].kind->Object_0@[m]).0@ == key
}

/// The cell of a row under one header: the text of the member of that
/// name, or the empty text where the row has none.
pub open spec fn cell(members: Seq<(String, JsonValue)>, header: Seq<char>) -> Seq<char> {
    match position(members, header) {
        Some(at) => cell_text(members[at].1),
        None => Seq::empty(),
    }
}

/// The record of a row: one cell for each header where the row is an
/// object, and no cell at all where it is not.
pub open spec fn record(row: JsonValue, headers: Seq<String>) -> Seq<Seq<char>> {
    match row.kind {
        JsonKind::Object(members) => Seq::new(headers.len(), |j: int| cell(members@, headers[j]@)),
        _ => Seq::empty(),
    }
}

/// `headers` and `data` are the table that the rows make: the headers are
/// the keys of the objects among the rows, in order and none twice, and
/// each row has its record.
pub open spec fn is_table(rows: Seq<JsonValue>, headers: Seq<String>, data: Seq<Vec<String>>) -> bool {
    &&& strictly_sorted(headers)
    &&& forall|key: Seq<char>| #[trigger] holds_text(headers, key) <==> is_column(rows, key)
    &&& data.len() == rows.len()
    &&& forall|r: int| 0 <= r < rows.len() ==> texts((#[trigger] data[r])@) == record(rows[r], headers)
}

/// The value can be shown as a table: it is an array with at least one
/// row, and some row is an object with at least one member.
pub open spec fn tabular(value: JsonValue) -> bool {
    value.kind matches JsonKind::Array(rows) && exists|key: Seq<char>| is_column(rows@, key)
}

/// What the quiet format shows of one row of an array: of an object its
/// `id` where that is a string, else its first member as JSON, else
/// nothing; of null nothing; of any other value its JSON.
pub open spec fn quiet_row(row: JsonValue) -> Option<Seq<char>> {
    match row.kind {
        JsonKind::Object(members) => match id_of(members@) {
            Some(id) => Some(id),
            None => if members@.len() > 0 {
                Some(members@[0].1.compact@)
            } else {
                None
            },
        },
        JsonKind::Null => None,
        _ => Some(row.compact@),
    }
}

/// The `id` of an object, where it has one and it is a string.
pub open spec fn id_of(members: Seq<(String, JsonValue)>) -> Option<Seq<char>> {
    match position(members, "id"@) {
        Some(at) => match members[at].1.kind {
            JsonKind::Text(id) => Some(id@),
            _ => None,
        },
        None => None,
    }
}

/// The lines of the rows of an array in the quiet format.
pub open spec fn quiet_rows(rows: Seq<JsonValue>) -> Seq<Seq<char>>
    decreases rows.len(),
{
    if rows.len() == 0 {
        Seq::empty()
    } else {
        let before = quiet_rows(rows.drop_last());
        match quiet_row(rows.last()) {
            Some(line) => before.push(line),
            None => before,
        }
    }
}

/// The lines that the quiet format shows of a value: of an array the line
/// of each row that has one; of an object its `id`, where that is a
/// string; of null nothing; of any other value its JSON.
pub open spec fn quiet_lines(value: JsonValue) -> Seq<Seq<char>> {
    match value.kind {
        JsonKind::Array(rows) => quiet_rows(rows@),
        JsonKind::Object(members) => match id_of(members@) {
            Some(id) => seq![id],
            None => Seq::empty(),
        },
        JsonKind::Null => Seq::empty(),
        _ => seq![value.compact@],
    }
}

fn id_text(members: &Vec<(String, JsonValue)>) -> (r: Option<String>)
    ensures
        match r {
            Some(id) => id_of(members@) == Some(id@),
            None => id_of(members@) is None,
        },
{
    match find_key(members, "id") {
        Some(at) => match &members[at].1.kind {
            JsonKind::Text(id) => Some(id.clone()),
            _ => None,
        },
        None => None,
    }
}

fn row_line(row: &JsonValue) -> (r: Option<String>)
    ensures
        match r {
            Some(line) => quiet_row(*row) == Some(line@),
            None => quiet_row(*row) is None,
        },
{
    match &row.kind {
        JsonKind::Object(members) => match id_text(members) {
            Some(id) => Some(id),
            None => if members.len() > 0 {
                Some(members[0].1.compact.clone())
            } else {
                None
            },
        },
        JsonKind::Null => None,
        _ => Some(row.compact.clone()),
    }
}

impl OutputRenderer {
    /// The text of a value in a table cell.
    pub fn value_to_string(value: &JsonValue) -> (r: String)
        ensures
            r@ == cell_text(*value),
    {
        match &value.kind {
            JsonKind::Text(text) => text.clone(),
            JsonKind::Bool(b) => if *b {
                String::from_str("true")
            } else {
                String::from_str("false")
            },
            JsonKind::Null => String::new(),
            _ => value.compact.clone(),
        }
    }

    /// The headers and the rows of the table that a value makes, or `None`
    /// where it makes none: it is no array, the array is empty, or no row is
    /// an object with a member.
    pub fn coerce_rows(value: &JsonValue) -> (r: Option<(Vec<String>, Vec<Vec<String>>)>)
        ensures
            r is Some <==> tabular(*value),
            r matches Some((headers, data)) ==> (value.kind matches JsonKind::Array(rows)
                && is_table(rows@, headers@, data@)),
    {
        let rows = match &value.kind {
            JsonKind::Array(rows) => rows,
            _ => {
                return None;
            },
        };
        let headers = Self::collect_headers(rows);
        if headers.len() == 0 {
            proof {
                assert forall|key: Seq<char>| !is_column(rows@, key) by {
                    assert(!holds_text(headers@, key));
                }
            }
            return None;
        }
        proof {
            assert(holds_text(headers@, headers@[0]@));
            assert(is_column(rows@, headers@[0]@));
        }
        let n = rows.len();
        let mut data: Vec<Vec<String>> = Vec::new();
        let mut r: usize = 0;
        while r < n
            invariant
                r <= n,
                n == rows@.len(),
                data@.len() == r,
                forall|k: int|
                    0 <= k < r ==> texts((#[trigger] data@[k])@) == record(rows@[k], headers@),
            decreases n - r,
        {
            let row = Self::make_record(&rows[r], &headers);
            data.push(row);
            r = r + 1;
        }
        Some((headers, data))
    }

    fn collect_headers(rows: &Vec<JsonValue>) -> (headers: Vec<String>)
        ensures
            strictly_sorted(headers@),
            forall|key: Seq<char>| #[trigger] holds_text(headers@, key) <==> is_column(rows@, key),
    {
        let mut headers: Vec<String> = Vec::new();
        let n = rows.len();
        let mut r: usize = 0;
        while r < n
            invariant
                r <= n,
                n == rows@.len(),
                strictly_sorted(headers@),
                forall|key: Seq<char>| #[trigger]
                    holds_text(headers@, key) <==> is_column(rows@.take(r as int), key),
            decreases n - r,
        {
            let ghost done = rows@.take(r as int);
            let ghost upto = rows@.take(r as int + 1);
            match &rows[r].kind {
                JsonKind::Object(members) => {
                    let count = members.len();
                    let mut m: usize = 0;
                    while m < count
                        invariant
                            m <= count,
                            count == members@.len(),
                            r < n,
                            n == rows@.len(),
                            rows@[r as int].kind == JsonKind::Object(*members),
                            done == rows@.take(r as int),
                            strictly_sorted(headers@),
                            forall|key: Seq<char>| #[trigger]
                                holds_text(headers@, key) <==> (is_column(done, key) || exists|
                                    k: int,
                                |
                                    0 <= k < m && (#[trigger] members@[k]).0@ == key),
                        decreases count - m,
                    {
                        let ghost so_far = headers@;
                        insert_sorted(&mut headers, members[m].0.as_str());
                        proof {
                            assert forall|key: Seq<char>| #[trigger]
                                holds_text(headers@, key) <==> (is_column(done, key) || exists|
                                    k: int,
                                |
                                    0 <= k < m + 1 && (#[trigger] members@[k]).0@ == key) by {
                                assert(holds_text(headers@, key) <==> (holds_text(so_far, key)
                                    || key == members@[m as int].0@));
                                if holds_text(so_far, key) && !is_column(done, key) {
                                    let k = choose|k: int|
                                        0 <= k < m && (#[trigger] members@[k]).0@ == key;
                                    assert(0 <= k < m + 1 && members@[k].0@ == key);
                                }
                                if exists|k: int|
                                    0 <= k < m + 1 && (#[trigger] members@[k]).0@ == key {
                                    let k = choose|k: int|
                                        0 <= k < m + 1 && (#[trigger] members@[k]).0@ == key;
                                    if k < m {
                                        assert(holds_text(so_far, key));
                                    }
                                }
                            }
                        }
                        m = m + 1;
                    }
                    proof {
                        assert forall|key: Seq<char>| #[trigger]
                            holds_text(headers@, key) <==> is_column(upto, key) by {
                            lemma_columns_grow(rows@, r as int, key);
                        }
                    }
                },
                _ => {
                    proof {
                        assert forall|key: Seq<char>| #[trigger]
                            holds_text(headers@, key) <==> is_column(upto, key) by {
                            lemma_columns_grow(rows@, r as int, key);
                        }
                    }
                },
            }
            r = r + 1;
        }
        proof {
            assert(rows@.take(n as int) =~= rows@);
        }
        headers
    }

    fn make_record(row: &JsonValue, headers: &Vec<String>) -> (cells: Vec<String>)
        ensures
            texts(cells@) == record(*row, headers@),
    {
        let mut cells: Vec<String> = Vec::new();
        match &row.kind {
            JsonKind::Object(members) => {
                let n = headers.len();
                let mut j: usize = 0;
                while j < n
                    invariant
                        j <= n,
                        n == headers@.len(),
                        cells@.len() == j,
                        forall|k: int|
                            0 <= k < j ==> (#[trigger] cells@[k])@ == cell(
                                members@,
                                headers@[k]@,
                            ),
                    decreases n - j,
                {
                    let text = match find_key(members, headers[j].as_str()) {
                        Some(at) => Self::value_to_string(&members[at].1),
                        None => String::new(),
                    };
                    cells.push(text);
                    j = j + 1;
                }
                proof {
                    assert(texts(cells@) =~= record(*row, headers@));
                }
            },
            _ => {
                proof {
                    assert(texts(cells@) =~= record(*row, headers@));
                }
            },
        }
        cells
    }

    /// Adds to `out` the lines that the quiet format shows of a value, and
    /// says whether there was any.
    pub fn render_quiet(&self, value: &JsonValue, out: &mut Vec<String>) -> (printed: bool)
        ensures
            texts(final(out)@) == texts(old(out)@) + quiet_lines(*value),
            printed == (quiet_lines(*value).len() > 0),
    {
        let ghost start = texts(out@);
        match &value.kind {
            JsonKind::Array(rows) => {
                let n = rows.len();
                let mut printed = false;
                let mut r: usize = 0;
                while r < n
                    invariant
                        r <= n,
                        n == rows@.len(),
                        texts(out@) == start + quiet_rows(rows@.take(r as int)),
                        printed == (quiet_rows(rows@.take(r as int)).len() > 0),
                    decreases n - r,
                {
                    let ghost shown = texts(out@);
                    proof {
                        assert(rows@.take(r as int + 1).drop_last() =~= rows@.take(r as int));
                    }
                    match row_line(&rows[r]) {
                        Some(line) => {
                            out.push(line);
                            printed = true;
                            proof {
                                assert(texts(out@) =~= shown.push(line@));
                                assert(texts(out@) =~= start + quiet_rows(
                                    rows@.take(r as int + 1),
                                ));
                            }
                        },
                        None => {},
                    }
                    r = r + 1;
                }
                proof {
                    assert(rows@.take(n as int) =~= rows@);
                }
                printed
            },
            JsonKind::Object(members) => match id_text(members) {
                Some(id) => {
                    out.push(id);
                    proof {
                        assert(texts(out@) =~= start + quiet_lines(*value));
                    }
                    true
                },
                None => {
                    proof {
                        assert(texts(out@) =~= start + quiet_lines(*value));
                    }
                    false
                },
            },
            JsonKind::Null => {
                proof {
                    assert(texts(out@) =~= start + quiet_lines(*value));
                }
                false
            },
            _ => {
                out.push(value.compact.clone());
                proof {
                    assert(texts(out@) =~= start + quiet_lines(*value));
                }
                true
            },
        }
    }

    /// Adds to `out` the lines of a value as comma-separated values: the
    /// headers, then each row. Says whether the value made a table; where
    /// it made none, nothing is added.
    pub fn render_csv(&self, value: &JsonValue, out: &mut Vec<String>) -> (shown: bool)
        ensures
            shown == tabular(*value),
            !shown ==> final(out)@ == old(out)@,
            shown ==> (value.kind matches JsonKind::Array(rows) && exists|
                headers: Seq<String>,
                data: Seq<Vec<String>>,
            |
                {
                    &&& is_table(rows@, headers, data)
                    &&& texts(final(out)@) == texts(old(out)@).push(joined(texts(headers), ","@))
                        + Seq::new(data.len(), |r: int| joined(texts(data[r]@), ","@))
                }),
    {
        let ghost start = texts(out@);
        match Self::coerce_rows(value) {
            Some((headers, data)) => {
                out.push(join(&headers, ","));
                proof {
                    assert(texts(out@) =~= start.push(joined(texts(headers@), ","@)));
                }
                let n = data.len();
                let mut r: usize = 0;
                while r < n
                    invariant
                        r <= n,
                        n == data@.len(),
                        texts(out@) == start.push(joined(texts(headers@), ","@)) + Seq::new(
                            r as nat,
                            |k: int| joined(texts(data@[k]@), ","@),
                        ),
                    decreases n - r,
                {
                    let ghost shown = texts(out@);
                    let line = join(&data[r], ",");
                    out.push(line);
                    proof {
                        assert(texts(out@) =~= shown.push(line@));
                        assert(texts(out@) =~= start.push(joined(texts(headers@), ","@))
                            + Seq::new(
                            (r + 1) as nat,
                            |k: int| joined(texts(data@[k]@), ","@),
                        ));
                    }
                    r = r + 1;
                }
                true
            },
            None => false,
        }
    }
}

/// The columns of the first `r + 1` rows are those of the first `r` rows
/// and the keys of row `r`, where that row is an object.
proof fn lemma_columns_grow(rows: Seq<JsonValue>, r: int, key: Seq<char>)
    requires
        0 <= r < rows.len(),
    ensures
        is_column(rows.take(r + 1), key) <==> (is_column(rows.take(r), key) || (rows[r].kind
            is Object && exists|k: int|
            0 <= k < rows[r].kind->Object_0@.len() && (#[trigger] rows[r].kind->Object_0@[k]).0@
                == key)),
{
    let shorter = rows.take(r);
    let longer = rows.take(r + 1);
    if is_column(longer, key) {
        let (x, m) = choose|x: int, m: int|
            0 <= x < longer.len() && (#[trigger] longer[x]).kind is Object && 0 <= m
                < longer[x].kind->Object_0@.len() && (#[trigger] longer[x].kind->Object_0@[m]).0@
                == key;
        if x < r {
            assert(shorter[x] == longer[x]);
            assert(shorter[x].kind is Object && 0 <= m < shorter[x].kind->Object_0@.len()
                && shorter[x].kind->Object_0@[m].0@ == key);
        } else {
            assert(longer[x] == rows[r]);
            assert(0 <= m < rows[r].kind->Object_0@.len() && rows[r].kind->Object_0@[m].0@ == key);
        }
    }
    if is_column(shorter, key) {
        let (x, m) = choose|x: int, m: int|
            0 <= x < shorter.len() && (#[trigger] shorter[x]).kind is Object && 0 <= m
                < shorter[x].kind->Object_0@.len() && (#[trigger] shorter[x].kind->Object_0@[m]).0@
                == key;
        assert(longer[x] == shorter[x]);
        assert(longer[x].kind is Object && 0 <= m < longer[x].kind->Object_0@.len()
            && longer[x].kind->Object_0@[m].0@ == key);
    }
    if rows[r].kind is Object && exists|k: int|
        0 <= k < rows[r].kind->Object_0@.len() && (#[trigger] rows[r].kind->Object_0@[k]).0@ == key {
        let k = choose|k: int|
            0 <= k < rows[r].kind->Object_0@.len() && (#[trigger] rows[r].kind->Object_0@[k]).0@
                == key;
        assert(longer[r] == rows[r]);
        assert(longer[r].kind is Object && 0 <= k < longer[r].kind->Object_0@.len()
            && longer[r].kind->Object_0@[k].0@ == key);
    }
}

} // verus!
