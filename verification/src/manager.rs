//! The record store: an ordered sequence of todos plus the title index,
//! kept consistent with the sequence under every mutation.

use vstd::prelude::*;
use vstd::string::{StrSliceExecFns, StringExecFns};
use crate::index::TitleIndex;
use crate::text::{decimal, line_of, i32_string};
use crate::todo::{
    rendered_errors, title_error_msgs, title_ok, Todo, TodoView, ValidationView,
};

verus! {

/// The index that a record sequence denotes: each title maps to the latest
/// position holding it.
pub open spec fn title_index_of(s: Seq<TodoView>) -> Map<Seq<char>, int>
    decreases s.len(),
{
    if s.len() == 0 {
        Map::empty()
    } else {
        title_index_of(s.drop_last()).insert(s.last().title, s.len() - 1)
    }
}

/// Every indexed title points at a position inside the sequence that holds a
/// record with that exact title.
pub proof fn lemma_title_index_of_in_range(s: Seq<TodoView>)
    ensures
        forall|t: Seq<char>| #[trigger] title_index_of(s).contains_key(t) ==> 0 <= title_index_of(
            s,
        )[t] < s.len() && s[title_index_of(s)[t]].title == t,
    decreases s.len(),
{
    if s.len() > 0 {
        lemma_title_index_of_in_range(s.drop_last());
        assert forall|t: Seq<char>| #[trigger] title_index_of(s).contains_key(t) implies 0
            <= title_index_of(s)[t] < s.len() && s[title_index_of(s)[t]].title == t by {
            if t != s.last().title {
                assert(title_index_of(s.drop_last()).contains_key(t));
                assert(s.drop_last()[title_index_of(s.drop_last())[t]] == s[title_index_of(
                    s.drop_last(),
                )[t]]);
            }
        }
    }
}

/// Two sequences with the same titles in the same places denote the same index.
pub proof fn lemma_title_index_same_titles(a: Seq<TodoView>, b: Seq<TodoView>)
    requires
        a.len() == b.len(),
        forall|i: int| 0 <= i < a.len() ==> (#[trigger] a[i]).title == b[i].title,
    ensures
        title_index_of(a) == title_index_of(b),
    decreases a.len(),
{
    if a.len() > 0 {
        assert forall|i: int| 0 <= i < a.drop_last().len() implies (#[trigger] a.drop_last()[i]).title
            == b.drop_last()[i].title by {
            assert(a.drop_last()[i] == a[i]);
            assert(b.drop_last()[i] == b[i]);
        }
        lemma_title_index_same_titles(a.drop_last(), b.drop_last());
        assert(a.last().title == b.last().title);
    }
}

/// The record with its completion status flipped.
pub open spec fn toggled(t: TodoView) -> TodoView {
    TodoView { id: t.id, title: t.title, status: !t.status }
}

/// The records that survive removal by status: those whose status differs
/// from the given value, in their original order.
pub open spec fn without_status(s: Seq<TodoView>, status: bool) -> Seq<TodoView>
    decreases s.len(),
{
    if s.len() == 0 {
        Seq::empty()
    } else {
        let rest = without_status(s.drop_last(), status);
        if s.last().status != status {
            rest.push(s.last())
        } else {
            rest
        }
    }
}

/// The records whose status equals the given value, in their original order.
pub open spec fn with_status(s: Seq<TodoView>, status: bool) -> Seq<TodoView>
    decreases s.len(),
{
    if s.len() == 0 {
        Seq::empty()
    } else {
        let rest = with_status(s.drop_last(), status);
        if s.last().status == status {
            rest.push(s.last())
        } else {
            rest
        }
    }
}

/// Every record with all statuses set to the given value.
pub open spec fn all_set(s: Seq<TodoView>, status: bool) -> Seq<TodoView> {
    s.map_values(|t: TodoView| TodoView { id: t.id, title: t.title, status: status })
}

/// Position of the first record at or after `i` whose id field equals the
/// given id, or the length when there is none.
pub open spec fn first_with_id(s: Seq<TodoView>, id: int, i: int) -> int
    decreases s.len() - i when 0 <= i <= s.len()
{
    if i >= s.len() {
        i
    } else if s[i].id == id {
        i
    } else {
        first_with_id(s, id, i + 1)
    }
}

/// The first record whose id field equals the given id removed, or the
/// sequence unchanged when no record carries that id.
pub open spec fn remove_first_with_id(s: Seq<TodoView>, id: int) -> Seq<TodoView> {
    let p = first_with_id(s, id, 0);
    if p < s.len() {
        s.remove(p)
    } else {
        s
    }
}

/// The ids of the inclusive range tried in increasing order, each removing
/// the first record that carries it at the moment it is tried; positions
/// shift between steps exactly as the removals happen.
pub open spec fn remove_id_range_spec(s: Seq<TodoView>, lo: int, hi: int) -> Seq<TodoView>
    decreases hi - lo + 1,
{
    if lo > hi {
        s
    } else {
        remove_id_range_spec(remove_first_with_id(s, lo), lo + 1, hi)
    }
}

/// The rendered lines of the given records, each ended by a line break.
pub open spec fn lines_of(s: Seq<TodoView>) -> Seq<char>
    decreases s.len(),
{
    if s.len() == 0 {
        Seq::empty()
    } else {
        lines_of(s.drop_last()) + line_of(s.last()) + "\n"@
    }
}

/// Owner of the ordered record sequence and the secondary title index.
pub struct TodoManager {
    pub todos: Vec<Todo>,
    pub title_index: TitleIndex,
}

impl TodoManager {
    /// The mathematical record sequence.
    pub open spec fn records(&self) -> Seq<TodoView> {
        self.todos@.map_values(|t: Todo| t@)
    }

    /// The title index's mathematical content.
    pub open spec fn index(&self) -> Map<Seq<char>, int> {
        self.title_index@
    }

    /// Well-formed: the index is exactly the one the sequence denotes.
    pub open spec fn wf(&self) -> bool {
        self.index() == title_index_of(self.records())
    }

    /// An empty store.
    pub fn new() -> (r: TodoManager)
        ensures
            r.records() == Seq::<TodoView>::empty(),
            r.index() == Map::<Seq<char>, int>::empty(),
            r.wf(),
    {
        let r = TodoManager { todos: Vec::new(), title_index: TitleIndex::new() };
        proof {
            assert(r.records() =~= Seq::<TodoView>::empty());
        }
        r
    }

    /// Rebuilds the title index by scanning the sequence in order, so every
    /// title maps to its current position; the last write wins for
    /// duplicate titles.
    pub(crate) fn rebuild_index(&mut self)
        ensures
            final(self).todos == old(self).todos,
            final(self).wf(),
    {
        self.title_index.clear();
        let n = self.todos.len();
        let mut i: usize = 0;
        while i < n
            invariant
                n == self.todos@.len(),
                i <= n,
                self.todos == old(self).todos,
                self.title_index@ == title_index_of(self.records().take(i as int)),
            decreases n - i,
        {
            let title = self.todos[i].title.clone();
            self.title_index.insert(title, i);
            proof {
                assert(self.records().take(i + 1).drop_last() =~= self.records().take(i as int));
                assert(self.records().take(i + 1).last() == self.records()[i as int]);
            }
            i += 1;
        }
        proof {
            assert(self.records().take(n as int) =~= self.records());
        }
    }

    /// The not-found report for a numeric id.
    fn id_not_found(id: i32) -> (r: String)
        ensures
            r@ == "Todo with ID "@ + decimal(id as int) + " not found."@,
    {
        let mut m = String::from_str("Todo with ID ");
        let num = i32_string(id);
        m.append(num.as_str());
        m.append(" not found.");
        proof {
            assert(m@ =~= "Todo with ID "@ + decimal(id as int) + " not found."@);
        }
        m
    }

    /// The not-found report for a title.
    fn title_not_found(title: &str) -> (r: String)
        ensures
            r@ == "Todo with title '"@ + title@ + "' not found."@,
    {
        let mut m = String::from_str("Todo with title '");
        m.append(title);
        m.append("' not found.");
        proof {
            assert(m@ =~= "Todo with title '"@ + title@ + "' not found."@);
        }
        m
    }

    /// Appends a validated record whose id is the current record count, and
    /// points the index at the new last position; a rejected title leaves
    /// the store unchanged and reports the complaints. Duplicate titles are
    /// accepted; the index entry for the earlier record is overridden.
    pub fn add(&mut self, title: String) -> (r: Result<(), String>)
        requires
            old(self).wf(),
            old(self).records().len() <= i32::MAX as int,
        ensures
            r is Ok <==> title_ok(title@),
            title_ok(title@) ==> final(self).records() == old(self).records().push(
                (TodoView {
                    id: old(self).records().len() as int,
                    title: title@,
                    status: false,
                }),
            ) && final(self).wf(),
            !title_ok(title@) ==> *final(self) == *old(self),
            r matches Err(m) ==> m@ == "Validation error: "@ + rendered_errors(
                (ValidationView {
                    title_errors: title_error_msgs(title@),
                    id_errors: Seq::empty(),
                    status_errors: Seq::empty(),
                }),
            ),
    {
        let id = self.todos.len() as i32;
        let todo = match Todo::new(id, title.clone()) {
            Ok(todo) => todo,
            Err(err) => {
                let mut m = String::from_str("Validation error: ");
                let rendered = err.message();
                m.append(rendered.as_str());
                return Err(m);
            },
        };
        let pos = self.todos.len();
        self.todos.push(todo);
        self.title_index.insert(title, pos);
        proof {
            let pushed = old(self).records().push(
                TodoView { id: old(self).records().len() as int, title: title@, status: false },
            );
            assert(self.records() =~= pushed);
            assert(self.records().drop_last() =~= old(self).records());
        }
        Ok(())
    }

    /// Removes every record whose status equals the given value, keeping the
    /// others in order. The command help reads this as removal by status;
    /// the operation's exact meaning is pinned here by `without_status`.
    pub fn remove_by_status(&mut self, status: bool)
        ensures
            final(self).records() == without_status(old(self).records(), status),
            final(self).wf(),
    {
        let ghost orig = self.records();
        let n = self.todos.len();
        let mut kept: Vec<Todo> = Vec::new();
        let mut processed: usize = 0;
        while processed < n
            invariant
                n == orig.len(),
                processed <= n,
                self.todos@.len() == n - processed,
                forall|j: int| 0 <= j < self.todos@.len() ==> (#[trigger] self.todos@[j])@ == orig[
                    j + processed
                ],
                kept@.map_values(|t: Todo| t@) == without_status(orig.take(processed as int), status),
            decreases n - processed,
        {
            let t = self.todos.remove(0);
            let ghost kept_before = kept@;
            if t.status != status {
                kept.push(t);
            }
            proof {
                assert(orig.take(processed + 1).drop_last() =~= orig.take(processed as int));
                assert(orig.take(processed + 1).last() == orig[processed as int]);
                if t@.status != status {
                    assert(kept@.map_values(|t: Todo| t@) =~= kept_before.map_values(
                        |t: Todo| t@,
                    ).push(t@));
                }
            }
            processed += 1;
        }
        proof {
            assert(orig.take(n as int) =~= orig);
        }
        self.todos = kept;
        self.rebuild_index();
    }

    /// Removes the first record whose id field equals the given id, if any;
    /// the index is not touched and is rebuilt by the caller.
    fn remove_first_by_id_field(&mut self, id: i32)
        ensures
            final(self).records() == remove_first_with_id(old(self).records(), id as int),
    {
        let n = self.todos.len();
        let mut j: usize = 0;
        while j < n && self.todos[j].id != id
            invariant
                n == self.todos@.len(),
                j <= n,
                self.todos == old(self).todos,
                first_with_id(self.records(), id as int, j as int) == first_with_id(
                    self.records(),
                    id as int,
                    0,
                ),
            decreases n - j,
        {
            j += 1;
        }
        if j < n {
            proof {
                assert(first_with_id(self.records(), id as int, 0) == j as int);
            }
            let ghost before = self.records();
            self.todos.remove(j);
            proof {
                assert(self.records() =~= before.remove(j as int));
            }
        } else {
            proof {
                assert(first_with_id(self.records(), id as int, 0) == n as int);
            }
        }
    }

    /// Tries each id of the inclusive range in increasing order and removes
    /// the first record carrying it at that moment; positions shift between
    /// steps, so later ids may no longer be found once earlier removals
    /// happened. The index is rebuilt afterwards.
    pub fn remove_by_id_range(&mut self, min: i32, max: i32)
        requires
            old(self).wf(),
        ensures
            final(self).records() == remove_id_range_spec(
                old(self).records(),
                min as int,
                max as int,
            ),
            final(self).wf(),
    {
        if min > max {
            return;
        }
        let mut id = min;
        let mut finished = false;
        while !finished
            invariant
                min <= id <= max,
                !finished ==> remove_id_range_spec(old(self).records(), min as int, max as int)
                    == remove_id_range_spec(self.records(), id as int, max as int),
                finished ==> remove_id_range_spec(old(self).records(), min as int, max as int)
                    == self.records(),
            decreases (if finished { 0int } else { max as int - id + 1 }),
        {
            let ghost pre = self.records();
            self.remove_first_by_id_field(id);
            proof {
                assert(remove_id_range_spec(pre, id as int, max as int) == remove_id_range_spec(
                    self.records(),
                    id as int + 1,
                    max as int,
                ));
                if id == max {
                    assert(remove_id_range_spec(self.records(), id as int + 1, max as int)
                        == self.records());
                }
            }
            if id == max {
                finished = true;
            } else {
                id += 1;
            }
        }
        self.rebuild_index();
    }

    /// Clears both the sequence and the title index.
    pub fn remove_all_todos(&mut self)
        ensures
            final(self).records() == Seq::<TodoView>::empty(),
            final(self).index() == Map::<Seq<char>, int>::empty(),
            final(self).wf(),
    {
        self.todos.clear();
        self.title_index.clear();
        proof {
            assert(self.records() =~= Seq::<TodoView>::empty());
        }
    }

    /// Treats the id as a direct position into the sequence, bounds-checked;
    /// the id field of a record found this way need not equal the position.
    pub fn find_by_id(&self, id: i32) -> (r: Option<&Todo>)
        ensures
            match r {
                Some(t) => 0 <= (id as int) && (id as int) < self.records().len() && t@ == self.records()[id as int],
                None => !(0 <= (id as int) && (id as int) < self.records().len()),
            },
    {
        if id >= 0 && (id as usize) < self.todos.len() {
            Some(&self.todos[id as usize])
        } else {
            None
        }
    }

    /// Direct-position removal: on success the record at that position
    /// leaves and the index is rebuilt for the shifted records.
    pub fn remove_by_id(&mut self, id: i32) -> (r: Result<(), String>)
        requires
            old(self).wf(),
        ensures
            r is Ok <==> 0 <= (id as int) && (id as int) < old(self).records().len(),
            r is Ok ==> final(self).records() == old(self).records().remove(id as int)
                && final(self).wf(),
            r is Err ==> *final(self) == *old(self),
            r matches Err(m) ==> m@ == "Todo with ID "@ + decimal(id as int) + " not found."@,
    {
        if id >= 0 && (id as usize) < self.todos.len() {
            let ghost before = self.records();
            self.todos.remove(id as usize);
            proof {
                assert(self.records() =~= before.remove(id as int));
            }
            self.rebuild_index();
            Ok(())
        } else {
            Err(Self::id_not_found(id))
        }
    }

    /// Direct-position toggle: flips the status of the record at the given
    /// position; every title keeps its place, so the index is untouched.
    pub fn toggle_by_id(&mut self, id: i32) -> (r: Result<(), String>)
        requires
            old(self).wf(),
        ensures
            r is Ok <==> 0 <= (id as int) && (id as int) < old(self).records().len(),
            r is Ok ==> final(self).records() == old(self).records().update(
                id as int,
                toggled(old(self).records()[id as int]),
            ) && final(self).wf(),
            r is Err ==> *final(self) == *old(self),
            r matches Err(m) ==> m@ == "Todo with ID "@ + decimal(id as int) + " not found."@,
    {
        if id >= 0 && (id as usize) < self.todos.len() {
            let i = id as usize;
            let ghost before = self.records();
            let mut t = self.todos.remove(i);
            t.toggle();
            self.todos.insert(i, t);
            proof {
                assert(self.records() =~= before.update(i as int, toggled(before[i as int])));
                lemma_title_index_same_titles(before, self.records());
            }
            Ok(())
        } else {
            Err(Self::id_not_found(id))
        }
    }

    /// Looks the title up in the index and returns the record at the indexed
    /// position.
    pub fn find_by_title(&self, title: &str) -> (r: Result<&Todo, String>)
        requires
            self.wf(),
        ensures
            r is Ok <==> self.index().contains_key(title@),
            r matches Ok(t) ==> t@ == self.records()[self.index()[title@]] && t@.title == title@,
            r matches Err(m) ==> m@ == "Todo with title '"@ + title@ + "' not found."@,
    {
        let key = title.to_owned();
        match self.title_index.get(&key) {
            Some(pos) => {
                proof {
                    lemma_title_index_of_in_range(self.records());
                }
                Ok(&self.todos[pos])
            },
            None => Err(Self::title_not_found(title)),
        }
    }

    /// Removes the record that the index holds for this title and rebuilds
    /// the index for the shifted records.
    pub fn remove_by_title(&mut self, title: &str) -> (r: Result<(), String>)
        requires
            old(self).wf(),
        ensures
            r is Ok <==> old(self).index().contains_key(title@),
            r is Ok ==> final(self).records() == old(self).records().remove(
                old(self).index()[title@],
            ) && final(self).wf(),
            r is Err ==> *final(self) == *old(self),
            r matches Err(m) ==> m@ == "Todo with title '"@ + title@ + "' not found."@,
    {
        let key = title.to_owned();
        match self.title_index.get(&key) {
            Some(pos) => {
                proof {
                    lemma_title_index_of_in_range(self.records());
                }
                let ghost before = self.records();
                self.todos.remove(pos);
                proof {
                    assert(self.records() =~= before.remove(pos as int));
                }
                self.rebuild_index();
                Ok(())
            },
            None => Err(Self::title_not_found(title)),
        }
    }

    /// Flips the status of the record that the index holds for this title;
    /// titles keep their places, so the index is untouched.
    pub fn toggle_by_title(&mut self, title: &str) -> (r: Result<(), String>)
        requires
            old(self).wf(),
        ensures
            r is Ok <==> old(self).index().contains_key(title@),
            r is Ok ==> final(self).records() == old(self).records().update(
                old(self).index()[title@],
                toggled(old(self).records()[old(self).index()[title@]]),
            ) && final(self).wf(),
            r is Err ==> *final(self) == *old(self),
            r matches Err(m) ==> m@ == "Todo with title '"@ + title@ + "' not found."@,
    {
        let key = title.to_owned();
        match self.title_index.get(&key) {
            Some(pos) => {
                proof {
                    lemma_title_index_of_in_range(self.records());
                }
                let ghost before = self.records();
                let mut t = self.todos.remove(pos);
                t.toggle();
                self.todos.insert(pos, t);
                proof {
                    assert(self.records() =~= before.update(pos as int, toggled(before[pos as int])));
                    lemma_title_index_same_titles(before, self.records());
                }
                Ok(())
            },
            None => Err(Self::title_not_found(title)),
        }
    }

    /// Every record whose status equals the given value, in sequence order.
    pub fn find_by_status(&self, status: bool) -> (r: Vec<&Todo>)
        ensures
            r@.map_values(|t: &Todo| t@) == with_status(self.records(), status),
    {
        let mut found: Vec<&Todo> = Vec::new();
        let n = self.todos.len();
        let mut i: usize = 0;
        while i < n
            invariant
                n == self.todos@.len(),
                i <= n,
                found@.map_values(|t: &Todo| t@) == with_status(
                    self.records().take(i as int),
                    status,
                ),
            decreases n - i,
        {
            let ghost found_before = found@;
            if self.todos[i].status == status {
                found.push(&self.todos[i]);
            }
            proof {
                assert(self.records().take(i + 1).drop_last() =~= self.records().take(i as int));
                assert(self.records().take(i + 1).last() == self.records()[i as int]);
                if self.todos@[i as int]@.status == status {
                    assert(found@.map_values(|t: &Todo| t@) =~= found_before.map_values(
                        |t: &Todo| t@,
                    ).push(self.records()[i as int]));
                }
            }
            i += 1;
        }
        proof {
            assert(self.records().take(n as int) =~= self.records());
        }
        found
    }

    /// Sets every record's status to the given value: a setter, not a toggle.
    pub fn toggle_by_status(&mut self, status: bool)
        requires
            old(self).wf(),
        ensures
            final(self).records() == all_set(old(self).records(), status),
            final(self).wf(),
    {
        let ghost orig = self.records();
        let n = self.todos.len();
        let mut i: usize = 0;
        while i < n
            invariant
                n == self.todos@.len(),
                orig.len() == n,
                i <= n,
                self.title_index == old(self).title_index,
                self.records() == all_set(orig.take(i as int), status) + orig.skip(i as int),
            decreases n - i,
        {
            let ghost before = self.records();
            let ghost before_vec = self.todos@;
            let mut t = self.todos.remove(i);
            t.status = status;
            let ghost tv = t@;
            self.todos.insert(i, t);
            proof {
                assert(all_set(orig.take(i as int), status).len() == i as int);
                assert(all_set(orig.take(i + 1), status).len() == i + 1);
                assert(self.todos@ =~= before_vec.update(i as int, self.todos@[i as int]));
                assert(before[i as int] == orig.skip(i as int)[0]);
                assert(orig.skip(i as int)[0] == orig[i as int]);
                assert(tv == (TodoView { id: orig[i as int].id, title: orig[i as int].title, status }));
                assert forall|j: int| 0 <= j < self.records().len() implies self.records()[j] == (
                all_set(orig.take(i + 1), status) + orig.skip(i + 1))[j] by {
                    if j < i as int {
                        assert(self.records()[j] == before[j]);
                        assert(before[j] == all_set(orig.take(i as int), status)[j]);
                        assert(all_set(orig.take(i as int), status)[j] == (TodoView {
                            id: orig.take(i as int)[j].id,
                            title: orig.take(i as int)[j].title,
                            status,
                        }));
                        assert(all_set(orig.take(i + 1), status)[j] == (TodoView {
                            id: orig.take(i + 1)[j].id,
                            title: orig.take(i + 1)[j].title,
                            status,
                        }));
                    } else if j == i as int {
                        assert(self.records()[j] == tv);
                        assert(all_set(orig.take(i + 1), status)[j] == (TodoView {
                            id: orig.take(i + 1)[j].id,
                            title: orig.take(i + 1)[j].title,
                            status,
                        }));
                    } else {
                        assert(self.records()[j] == before[j]);
                        assert(before[j] == orig.skip(i as int)[j - i]);
                        assert(orig.skip(i as int)[j - i] == orig[j]);
                        assert(orig.skip(i + 1)[j - i - 1] == orig[j]);
                    }
                }
                assert(self.records() =~= all_set(orig.take(i + 1), status) + orig.skip(i + 1));
            }
            i += 1;
        }
        proof {
            assert(self.records() =~= all_set(orig, status));
            lemma_title_index_same_titles(orig, self.records());
        }
    }

    /// Renders every record, one line each, in sequence order; the caller
    /// decides where to write the text.
    pub fn print(&self) -> (r: String)
        ensures
            r@ == lines_of(self.records()),
    {
        let mut out = String::new();
        let n = self.todos.len();
        let mut i: usize = 0;
        while i < n
            invariant
                n == self.todos@.len(),
                i <= n,
                out@ == lines_of(self.records().take(i as int)),
            decreases n - i,
        {
            let line = self.todos[i].print();
            out.append(line.as_str());
            out.append("\n");
            proof {
                assert(self.records().take(i + 1).drop_last() =~= self.records().take(i as int));
                assert(self.records().take(i + 1).last() == self.records()[i as int]);
                assert(out@ =~= lines_of(self.records().take(i + 1)));
            }
            i += 1;
        }
        proof {
            assert(self.records().take(n as int) =~= self.records());
        }
        out
    }

    /// Renders the record at the given position, or a not-found report;
    /// the text ends with a line break either way.
    pub fn print_by_id(&self, id: i32) -> (r: String)
        ensures
            0 <= (id as int) && (id as int) < self.records().len() ==> r@ == line_of(self.records()[id as int])
                + "\n"@,
            !(0 <= (id as int) && (id as int) < self.records().len()) ==> r@ == "Todo with ID "@ + decimal(id as int)
                + " not found.\n"@,
    {
        match self.find_by_id(id) {
            Some(todo) => {
                let mut out = todo.print();
                out.append("\n");
                out
            },
            None => {
                let mut m = String::from_str("Todo with ID ");
                let num = i32_string(id);
                m.append(num.as_str());
                m.append(" not found.\n");
                proof {
                    assert(m@ =~= "Todo with ID "@ + decimal(id as int) + " not found.\n"@);
                }
                m
            },
        }
    }

    /// Renders the record that the index holds for this title, or a
    /// not-found report; the text ends with a line break either way.
    pub fn print_by_title(&self, title: &str) -> (r: String)
        requires
            self.wf(),
        ensures
            self.index().contains_key(title@) ==> r@ == line_of(
                self.records()[self.index()[title@]],
            ) + "\n"@,
            !self.index().contains_key(title@) ==> r@ == "Todo with title '"@ + title@
                + "' not found.\n"@,
    {
        let key = title.to_owned();
        match self.title_index.get(&key) {
            Some(pos) => {
                proof {
                    lemma_title_index_of_in_range(self.records());
                }
                let mut out = self.todos[pos].print();
                out.append("\n");
                out
            },
            None => {
                let mut m = Self::title_not_found(title);
                m.append("\n");
                proof {
                    reveal_strlit("' not found.");
                    reveal_strlit("\n");
                    reveal_strlit("' not found.\n");
                    assert(m@ =~= "Todo with title '"@ + title@ + "' not found.\n"@);
                }
                m
            },
        }
    }

    /// Renders every record whose status equals the given value, one line
    /// each, in sequence order; nothing matches, nothing is rendered.
    pub fn print_by_status(&self, status: bool) -> (r: String)
        ensures
            r@ == lines_of(with_status(self.records(), status)),
    {
        let mut out = String::new();
        let n = self.todos.len();
        let mut i: usize = 0;
        while i < n
            invariant
                n == self.todos@.len(),
                i <= n,
                out@ == lines_of(with_status(self.records().take(i as int), status)),
            decreases n - i,
        {
            if self.todos[i].status == status {
                let line = self.todos[i].print();
                out.append(line.as_str());
                out.append("\n");
            }
            proof {
                let ghost ws = with_status(self.records().take(i as int), status);
                assert(self.records().take(i + 1).drop_last() =~= self.records().take(i as int));
                assert(self.records().take(i + 1).last() == self.records()[i as int]);
                if self.records()[i as int].status == status {
                    assert(with_status(self.records().take(i + 1), status) == ws.push(
                        self.records()[i as int],
                    ));
                    assert(ws.push(self.records()[i as int]).drop_last() =~= ws);
                    assert(out@ =~= lines_of(with_status(self.records().take(i + 1), status)));
                }
            }
            i += 1;
        }
        proof {
            assert(self.records().take(n as int) =~= self.records());
        }
        out
    }
}

} // verus!
