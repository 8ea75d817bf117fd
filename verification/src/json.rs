//! JSON snapshot persistence: the sequence rendered to and parsed from a
//! flat array of objects, with the title index rebuilt on load. Reading and
//! writing the snapshot file is the caller's business; this module only
//! turns records into text and back.

use vstd::prelude::*;
use vstd::string::StringExecFns;
use crate::manager::TodoManager;
use crate::todo::{Todo, TodoView};

verus! {

#[verifier::external_type_specification]
#[verifier::external_body]
pub struct ExValue(serde_json::Value);

#[verifier::external_type_specification]
#[verifier::external_body]
#[verifier::reject_recursive_types(K)]
#[verifier::reject_recursive_types(V)]
pub struct ExJsonMap<K, V>(serde_json::Map<K, V>);

#[verifier::external_type_specification]
#[verifier::external_body]
pub struct ExJsonError(serde_json::Error);

/// The (id, title, status) triples of a record sequence.
pub open spec fn record_triples(s: Seq<TodoView>) -> Seq<(int, Seq<char>, bool)> {
    s.map_values(|t: TodoView| (t.id, t.title, t.status))
}

/// The records that a sequence of triples describes.
pub open spec fn todo_views(ts: Seq<(int, Seq<char>, bool)>) -> Seq<TodoView> {
    ts.map_values(|p: (int, Seq<char>, bool)| TodoView { id: p.0, title: p.1, status: p.2 })
}

/// Every id of the triples fits an i64.
pub open spec fn i64_ids(ts: Seq<(int, Seq<char>, bool)>) -> bool {
    forall|i: int| 0 <= i < ts.len() ==> i64::MIN <= (#[trigger] ts[i]).0 <= i64::MAX
}

/// Every id of the triples fits an i32.
pub open spec fn i32_ids(ts: Seq<(int, Seq<char>, bool)>) -> bool {
    forall|i: int| 0 <= i < ts.len() ==> i32::MIN <= (#[trigger] ts[i]).0 <= i32::MAX
}

proof fn lemma_i32_ids_are_i64_ids(ts: Seq<(int, Seq<char>, bool)>)
    requires
        i32_ids(ts),
    ensures
        i64_ids(ts),
{
}

/// What a canonical snapshot row holds: Some exactly when the object's
/// fields are id, title and status in that order and nothing else, with an
/// integer id, a string title and a boolean status; the field values then.
pub uninterp spec fn row_triple(row: serde_json::Map<String, serde_json::Value>) -> Option<
    (int, Seq<char>, bool),
>;

/// What an arbitrary parsed object yields: Some exactly when an id field
/// holds an integer that fits an i64, a title field a string and a status
/// field a boolean, whatever else the object holds; those values then.
pub uninterp spec fn row_fields(row: serde_json::Map<String, serde_json::Value>) -> Option<
    (int, Seq<char>, bool),
>;

/// The text that serde_json renders for the canonical snapshot rows of
/// these triples: one object per triple in order, the fields id, title and
/// status in that order. Meaningful where the ids fit an i64.
pub uninterp spec fn snapshot_text(triples: Seq<(int, Seq<char>, bool)>) -> Seq<char>;

/// The snapshot that a text denotes: Some exactly when serde_json parses
/// the text as an array of objects and every object yields a triple as
/// `row_fields` describes; those triples in array order. None otherwise.
pub uninterp spec fn snapshot_triples(text: Seq<char>) -> Option<Seq<(int, Seq<char>, bool)>>;

/// The triples of a sequence of canonical rows.
pub open spec fn rows_triples(rows: Seq<serde_json::Map<String, serde_json::Value>>) -> Seq<
    (int, Seq<char>, bool),
> {
    rows.map_values(|m: serde_json::Map<String, serde_json::Value>| row_triple(m).unwrap())
}

/// How parsed rows relate to the snapshot that their text denotes: on a
/// denoted snapshot the rows carry exactly its triples, and on a denied
/// text some row yields no triple.
pub open spec fn rows_agree(
    text: Seq<char>,
    rows: Seq<serde_json::Map<String, serde_json::Value>>,
) -> bool {
    match snapshot_triples(text) {
        Some(ts) => rows.len() == ts.len() && forall|i: int|
            0 <= i < rows.len() ==> #[trigger] row_fields(rows[i]) == Some(ts[i]),
        None => exists|i: int| 0 <= i < rows.len() && (#[trigger] row_fields(rows[i])) is None,
    }
}

/// Relies on serde_json::Map::new, Map::insert and Value::from: builds one
/// canonical snapshot row, the fields id, title and status in that order.
#[verifier::external_body]
fn snapshot_row(id: i64, title: &str, status: bool) -> (r: serde_json::Map<
    String,
    serde_json::Value,
>)
    ensures
        row_triple(r) == Some((id as int, title@, status)),
        row_fields(r) == Some((id as int, title@, status)),
{
    let mut row = serde_json::Map::new();
    row.insert("id".to_owned(), serde_json::Value::from(id));
    row.insert("title".to_owned(), serde_json::Value::from(title));
    row.insert("status".to_owned(), serde_json::Value::from(status));
    row
}

/// Relies on serde_json::Map::get and Value::as_i64, as_str and as_bool:
/// the id, title and status fields of one parsed object, refused when a
/// field is missing or of the wrong kind.
#[verifier::external_body]
fn row_scalars(row: &serde_json::Map<String, serde_json::Value>) -> (r: Option<(i64, String, bool)>)
    ensures
        r is Some <==> row_fields(*row) is Some,
        r matches Some((id, title, status)) ==> row_fields(*row) == Some((id as int, title@, status)),
{
    let id = row.get("id")?.as_i64()?;
    let title = row.get("title")?.as_str()?.to_owned();
    let status = row.get("status")?.as_bool()?;
    Some((id, title, status))
}

/// Relies on serde_json::to_string: renders the rows as one JSON array.
/// For canonical snapshot rows the text depends on their triples alone,
/// and serialization of string-keyed maps cannot fail.
#[verifier::external_body]
fn json_rows_to_string(rows: &Vec<serde_json::Map<String, serde_json::Value>>) -> (r: Result<
    String,
    serde_json::Error,
>)
    ensures
        r is Ok <== (forall|i: int| 0 <= i < rows@.len() ==> (#[trigger] row_triple(
            rows@[i],
        )) is Some),
        r matches Ok(t) ==> ((forall|i: int|
            0 <= i < rows@.len() ==> (#[trigger] row_triple(rows@[i])) is Some) ==> t@
            == snapshot_text(rows_triples(rows@))),
{
    serde_json::to_string(rows)
}

/// Relies on serde_json::from_str: parses a JSON array of objects and
/// refuses any other text; parsing is a function of the text alone, and a
/// text serde_json itself rendered from canonical rows parses back to
/// exactly their triples.
#[verifier::external_body]
fn json_parse_rows(s: &str) -> (r: Result<
    Vec<serde_json::Map<String, serde_json::Value>>,
    serde_json::Error,
>)
    ensures
        r matches Ok(rows) ==> rows_agree(s@, rows@),
        r matches Ok(rows) ==> forall|ts: Seq<(int, Seq<char>, bool)>|
            s@ == #[trigger] snapshot_text(ts) && i64_ids(ts) ==> snapshot_triples(s@) == Some(ts),
        r is Err ==> snapshot_triples(s@) is None,
        r is Err ==> forall|ts: Seq<(int, Seq<char>, bool)>|
            !(s@ == #[trigger] snapshot_text(ts) && i64_ids(ts)),
{
    serde_json::from_str(s)
}

/// Relies on ToString for serde_json::Error: the error rendered as text.
#[verifier::external_body]
fn json_error_text(e: &serde_json::Error) -> String {
    e.to_string()
}

impl TodoManager {
    /// The snapshot of the sequence as text: serde_json's rendering of one
    /// canonical row per record, in sequence order, each row's fields id,
    /// title and status in that order. `load_from_json_str` parses the
    /// text back to the same triples.
    pub fn to_json(&self) -> (r: Result<String, String>)
        ensures
            r is Ok,
            r matches Ok(t) ==> t@ == snapshot_text(record_triples(self.records())),
    {
        let mut rows: Vec<serde_json::Map<String, serde_json::Value>> = Vec::new();
        let n = self.todos.len();
        let mut i: usize = 0;
        while i < n
            invariant
                i <= n,
                n == self.todos@.len(),
                rows@.len() == i,
                forall|j: int|
                    0 <= j < i ==> #[trigger] row_triple(rows@[j]) == Some(
                        (self.records()[j].id, self.records()[j].title, self.records()[j].status),
                    ),
            decreases n - i,
        {
            let todo = &self.todos[i];
            let row = snapshot_row(todo.id as i64, todo.title.as_str(), todo.status);
            rows.push(row);
            i += 1;
        }
        match json_rows_to_string(&rows) {
            Ok(text) => {
                proof {
                    assert forall|j: int| 0 <= j < rows@.len() implies rows_triples(rows@)[j]
                        == record_triples(self.records())[j] by {}
                    assert(rows_triples(rows@) =~= record_triples(self.records()));
                }
                Ok(text)
            },
            Err(e) => {
                proof {
                    assert(false);
                }
                Err(json_error_text(&e))
            },
        }
    }

    /// Replaces the sequence wholesale with the parsed snapshot triples and
    /// rebuilds the title index by scanning the new sequence in order, last
    /// write winning for duplicate titles. Succeeds exactly when the text
    /// denotes a snapshot whose ids fit an i32; any failure is reported and
    /// leaves the store unchanged. Loaded records are taken as they stand,
    /// unvalidated.
    pub fn load_from_json_str(&mut self, text: &str) -> (r: Result<(), String>)
        ensures
            r is Ok <==> (snapshot_triples(text@) matches Some(ts) && i32_ids(ts)),
            snapshot_triples(text@) matches Some(ts) ==> (i32_ids(ts) ==> final(self).records()
                == todo_views(ts)),
            forall|ts: Seq<(int, Seq<char>, bool)>|
                text@ == #[trigger] snapshot_text(ts) && i32_ids(ts) ==> (r is Ok
                    && final(self).records() == todo_views(ts)),
            r is Ok ==> final(self).wf(),
            r is Err ==> *final(self) == *old(self),
    {
        let rows = match json_parse_rows(text) {
            Ok(rows) => rows,
            Err(e) => {
                proof {
                    assert forall|ts: Seq<(int, Seq<char>, bool)>|
                        text@ == #[trigger] snapshot_text(ts) && i32_ids(ts) implies false by {
                        lemma_i32_ids_are_i64_ids(ts);
                    }
                }
                let mut m = String::from_str("Parse error: ");
                let detail = json_error_text(&e);
                m.append(detail.as_str());
                return Err(m);
            },
        };
        let mut todos: Vec<Todo> = Vec::new();
        let n = rows.len();
        let mut i: usize = 0;
        while i < n
            invariant
                i <= n,
                n == rows@.len(),
                *self == *old(self),
                rows_agree(text@, rows@),
                forall|ts: Seq<(int, Seq<char>, bool)>|
                    text@ == #[trigger] snapshot_text(ts) && i64_ids(ts) ==> snapshot_triples(text@)
                        == Some(ts),
                todos@.len() == i,
                forall|j: int|
                    0 <= j < i ==> ((#[trigger] row_fields(rows@[j])) matches Some(p) && i32::MIN
                        <= p.0 <= i32::MAX && todos@[j]@ == (TodoView {
                        id: p.0,
                        title: p.1,
                        status: p.2,
                    })),
            decreases n - i,
        {
            match row_scalars(&rows[i]) {
                Some((wide, title, status)) => {
                    if wide < i32::MIN as i64 || wide > i32::MAX as i64 {
                        proof {
                            if snapshot_triples(text@) is Some {
                                let ts = snapshot_triples(text@).unwrap();
                                assert(row_fields(rows@[i as int]) == Some(ts[i as int]));
                                assert(!(i32::MIN <= ts[i as int].0 <= i32::MAX));
                                assert(!i32_ids(ts));
                            }
                            assert forall|ts: Seq<(int, Seq<char>, bool)>|
                                text@ == #[trigger] snapshot_text(ts) && i32_ids(ts) implies false by {
                                lemma_i32_ids_are_i64_ids(ts);
                                assert(snapshot_triples(text@) == Some(ts));
                            }
                        }
                        return Err(String::from_str("Parse error: todo id out of range"));
                    }
                    todos.push(Todo { id: wide as i32, title, status });
                },
                None => {
                    proof {
                        if snapshot_triples(text@) is Some {
                            let ts = snapshot_triples(text@).unwrap();
                            assert(row_fields(rows@[i as int]) == Some(ts[i as int]));
                            assert(false);
                        }
                        assert forall|ts: Seq<(int, Seq<char>, bool)>|
                            text@ == #[trigger] snapshot_text(ts) && i32_ids(ts) implies false by {
                            lemma_i32_ids_are_i64_ids(ts);
                            assert(snapshot_triples(text@) == Some(ts));
                        }
                    }
                    return Err(String::from_str("Parse error: malformed todo record"));
                },
            }
            i += 1;
        }
        proof {
            if snapshot_triples(text@) is None {
                assert(false);
            }
            let ts = snapshot_triples(text@).unwrap();
            assert(rows@.len() == ts.len());
            assert forall|k: int| 0 <= k < ts.len() implies i32::MIN <= (#[trigger] ts[k]).0
                <= i32::MAX by {
                assert(row_fields(rows@[k]) == Some(ts[k]));
            }
            assert(i32_ids(ts));
        }
        self.todos = todos;
        self.rebuild_index();
        proof {
            let ts = snapshot_triples(text@).unwrap();
            assert forall|j: int| 0 <= j < self.records().len() implies self.records()[j]
                == todo_views(ts)[j] by {
                assert(row_fields(rows@[j]) == Some(ts[j]));
            }
            assert(self.records() =~= todo_views(ts));
            assert forall|ts2: Seq<(int, Seq<char>, bool)>|
                text@ == #[trigger] snapshot_text(ts2) && i32_ids(ts2) implies self.records()
                == todo_views(ts2) by {
                lemma_i32_ids_are_i64_ids(ts2);
                assert(snapshot_triples(text@) == Some(ts2));
            }
        }
        Ok(())
    }
}

} // verus!
