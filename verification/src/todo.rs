//! The todo record, its validator, and the accumulated validation complaints.

use vstd::prelude::*;
use vstd::string::{StrSliceExecFns, StringExecFns};

verus! {

/// Greatest number of characters a title may hold.
pub const TITLE_MAX: usize = 100;

/// Mathematical content of one todo record.
pub struct TodoView {
    pub id: int,
    pub title: Seq<char>,
    pub status: bool,
}

/// One task entry: a numeric id, a title and a completion status.
#[derive(Debug)]
pub struct Todo {
    pub id: i32,
    pub title: String,
    pub status: bool,
}

impl View for Todo {
    type V = TodoView;

    open spec fn view(&self) -> TodoView {
        TodoView { id: self.id as int, title: self.title@, status: self.status }
    }
}

/// Equality between records is defined solely by `id`.
impl PartialEq for Todo {
    fn eq(&self, other: &Self) -> (r: bool) {
        self.id == other.id
    }
}

impl vstd::std_specs::cmp::PartialEqSpecImpl for Todo {
    open spec fn obeys_eq_spec() -> bool {
        true
    }

    open spec fn eq_spec(&self, other: &Todo) -> bool {
        self.id == other.id
    }
}

/// A title is accepted when it is non-empty and at most `TITLE_MAX` characters.
pub open spec fn title_ok(title: Seq<char>) -> bool {
    0 < title.len() <= TITLE_MAX
}

/// The complaints recorded against a candidate title.
pub open spec fn title_error_msgs(title: Seq<char>) -> Seq<Seq<char>> {
    if title.len() == 0 {
        seq!["Title cannot be empty."@]
    } else if title.len() > TITLE_MAX {
        seq!["Title cannot exceed 100 characters."@]
    } else {
        Seq::empty()
    }
}

/// The complaints recorded against a candidate id.
pub open spec fn id_error_msgs(id: int) -> Seq<Seq<char>> {
    if id < 0 {
        seq!["ID cannot be negative."@]
    } else {
        Seq::empty()
    }
}

/// Mathematical content of `ValidationErrors`.
pub struct ValidationView {
    pub title_errors: Seq<Seq<char>>,
    pub id_errors: Seq<Seq<char>>,
    pub status_errors: Seq<Seq<char>>,
}

/// Per-field accumulation of validation complaints.
#[derive(Debug)]
pub struct ValidationErrors {
    pub title_errors: Vec<String>,
    pub id_errors: Vec<String>,
    pub status_errors: Vec<String>,
}

impl View for ValidationErrors {
    type V = ValidationView;

    open spec fn view(&self) -> ValidationView {
        ValidationView {
            title_errors: self.title_errors.deep_view(),
            id_errors: self.id_errors.deep_view(),
            status_errors: self.status_errors.deep_view(),
        }
    }
}

/// All messages of one group, concatenated in order.
pub open spec fn concat_msgs(msgs: Seq<Seq<char>>) -> Seq<char>
    decreases msgs.len(),
{
    if msgs.len() == 0 {
        Seq::empty()
    } else {
        concat_msgs(msgs.drop_last()) + msgs.last()
    }
}

/// One rendered group: nothing when empty, else its header followed by its messages.
pub open spec fn section(header: Seq<char>, msgs: Seq<Seq<char>>) -> Seq<char> {
    if msgs.len() == 0 {
        Seq::empty()
    } else {
        header + concat_msgs(msgs)
    }
}

/// The full rendering: the three groups in order, each under its header.
pub open spec fn rendered_errors(v: ValidationView) -> Seq<char> {
    section("Title errors:\n"@, v.title_errors) + section("ID errors:\n"@, v.id_errors) + section(
        "Status errors:\n"@,
        v.status_errors,
    )
}

/// Renders one group of complaints under its header; empty groups render as nothing.
fn section_string(header: &str, msgs: &Vec<String>) -> (r: String)
    ensures
        r@ == section(header@, msgs.deep_view()),
{
    let mut out = String::new();
    if msgs.len() == 0 {
        return out;
    }
    out.append(header);
    let mut i: usize = 0;
    while i < msgs.len()
        invariant
            i <= msgs.len(),
            out@ == header@ + concat_msgs(msgs.deep_view().take(i as int)),
        decreases msgs.len() - i,
    {
        out.append(msgs[i].as_str());
        proof {
            assert(msgs.deep_view().take(i + 1).drop_last() =~= msgs.deep_view().take(i as int));
            assert(msgs.deep_view().take(i + 1).last() == msgs@[i as int]@);
        }
        i += 1;
    }
    proof {
        assert(msgs.deep_view().take(msgs.len() as int) =~= msgs.deep_view());
    }
    out
}

impl ValidationErrors {
    /// True when no complaint was recorded in any group.
    pub fn is_empty(&self) -> (r: bool)
        ensures
            r == (self@.title_errors.len() == 0 && self@.id_errors.len() == 0
                && self@.status_errors.len() == 0),
    {
        self.title_errors.is_empty() && self.id_errors.is_empty() && self.status_errors.is_empty()
    }

    /// A human-readable rendering of the complaints, grouped by field category.
    pub fn message(&self) -> (r: String)
        ensures
            r@ == rendered_errors(self@),
    {
        let mut out = section_string("Title errors:\n", &self.title_errors);
        let ids = section_string("ID errors:\n", &self.id_errors);
        let statuses = section_string("Status errors:\n", &self.status_errors);
        out.append(ids.as_str());
        out.append(statuses.as_str());
        out
    }
}

/// Checks a candidate record's fields; complaints accumulate independently per field.
pub fn validate_todo(todo: &Todo) -> (r: Result<(), ValidationErrors>)
    ensures
        r is Ok <==> (title_ok(todo@.title) && todo@.id >= 0),
        r matches Err(e) ==> e@.title_errors == title_error_msgs(todo@.title) && e@.id_errors
            == id_error_msgs(todo@.id) && e@.status_errors == Seq::<Seq<char>>::empty(),
{
    let mut errors = ValidationErrors {
        title_errors: Vec::new(),
        id_errors: Vec::new(),
        status_errors: Vec::new(),
    };
    let title_len = todo.title.as_str().unicode_len();
    if title_len == 0 {
        errors.title_errors.push(String::from_str("Title cannot be empty."));
    }
    if title_len > TITLE_MAX {
        errors.title_errors.push(String::from_str("Title cannot exceed 100 characters."));
    }
    if todo.id < 0 {
        errors.id_errors.push(String::from_str("ID cannot be negative."));
    }
    proof {
        assert(errors.title_errors.deep_view() =~= title_error_msgs(todo@.title));
        assert(errors.id_errors.deep_view() =~= id_error_msgs(todo@.id));
        assert(errors.status_errors.deep_view() =~= Seq::<Seq<char>>::empty());
    }
    if errors.is_empty() {
        Ok(())
    } else {
        Err(errors)
    }
}

impl Todo {
    /// Validated constructor: a fresh record starts incomplete.
    pub fn new(id: i32, title: String) -> (r: Result<Todo, ValidationErrors>)
        ensures
            r is Ok <==> (title_ok(title@) && id >= 0),
            r matches Ok(t) ==> t@ == (TodoView { id: id as int, title: title@, status: false }),
            r matches Err(e) ==> e@.title_errors == title_error_msgs(title@) && e@.id_errors
                == id_error_msgs(id as int) && e@.status_errors == Seq::<Seq<char>>::empty(),
    {
        let todo = Todo { title, id, status: false };
        match validate_todo(&todo) {
            Ok(()) => Ok(todo),
            Err(e) => Err(e),
        }
    }

    /// Flips the completion status; the other fields are untouched.
    pub fn toggle(&mut self)
        ensures
            final(self)@.id == old(self)@.id,
            final(self)@.title == old(self)@.title,
            final(self)@.status == !old(self)@.status,
    {
        self.status = !self.status;
    }
}

} // verus!
