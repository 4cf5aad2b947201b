use vstd::prelude::*;
use crate::todo::{Todo, TodoView};

verus! {

/// Mathematical model of the repository: the rows in storage order and the
/// id the next insert will be assigned.
pub ghost struct StoreView {
    pub todos: Seq<TodoView>,
    pub next_id: int,
}

/// Whether the sequence holds a row with the given id.
pub open spec fn has_id(s: Seq<TodoView>, id: int) -> bool {
    exists|i: int| 0 <= i < s.len() && s[i].id == id
}

/// The position of the first row with the given id.
pub open spec fn idx_of(s: Seq<TodoView>, id: int) -> int
    decreases s.len(),
{
    if s.len() == 0 {
        0
    } else if s[0].id == id {
        0
    } else {
        1 + idx_of(s.drop_first(), id)
    }
}

/// The row with the given id, if any.
pub open spec fn spec_get(s: Seq<TodoView>, id: int) -> Option<TodoView> {
    if has_id(s, id) {
        Some(s[idx_of(s, id)])
    } else {
        None
    }
}

/// Well-formedness of the model: ids are unique, positive, and below the
/// next id to be assigned.
pub open spec fn view_wf(v: StoreView) -> bool {
    &&& 1 <= v.next_id <= i32::MAX
    &&& forall|i: int| 0 <= i < v.todos.len() ==> 1 <= (#[trigger] v.todos[i]).id < v.next_id
    &&& forall|i: int, j: int|
        0 <= i < v.todos.len() && 0 <= j < v.todos.len() && i != j ==> v.todos[i].id
            != v.todos[j].id
}

/// The model after an insert: the new row appended, the counter advanced.
pub open spec fn spec_insert(v: StoreView, content: Seq<char>) -> StoreView {
    StoreView {
        todos: v.todos.push(TodoView { id: v.next_id, content }),
        next_id: v.next_id + 1,
    }
}

/// The model after an update: the row with the given id, if any, carries the
/// new content; everything else is unchanged.
pub open spec fn spec_update(v: StoreView, id: int, content: Seq<char>) -> StoreView {
    StoreView {
        todos: Seq::new(
            v.todos.len(),
            |i: int|
                if v.todos[i].id == id {
                    TodoView { id, content }
                } else {
                    v.todos[i]
                },
        ),
        next_id: v.next_id,
    }
}

/// The model after a delete: the row with the given id, if any, removed.
pub open spec fn spec_delete(v: StoreView, id: int) -> StoreView {
    if has_id(v.todos, id) {
        StoreView { todos: v.todos.remove(idx_of(v.todos, id)), next_id: v.next_id }
    } else {
        v
    }
}

proof fn lemma_idx_of(s: Seq<TodoView>, id: int)
    requires
        has_id(s, id),
    ensures
        0 <= idx_of(s, id) < s.len(),
        s[idx_of(s, id)].id == id,
        forall|i: int| 0 <= i < idx_of(s, id) ==> (#[trigger] s[i]).id != id,
    decreases s.len(),
{
    if s.len() > 0 && s[0].id != id {
        let t = s.drop_first();
        assert(has_id(t, id)) by {
            let w = choose|i: int| 0 <= i < s.len() && s[i].id == id;
            assert(t[w - 1] == s[w]);
        }
        lemma_idx_of(t, id);
        assert forall|i: int| 0 <= i < idx_of(s, id) implies (#[trigger] s[i]).id != id by {
            if i > 0 {
                assert(s[i] == t[i - 1]);
            }
        }
    }
}

/// Inserting content and then looking the returned id up yields a row with
/// exactly that id and that content, whatever the content is.
pub proof fn lemma_insert_then_get(v: StoreView, content: Seq<char>)
    requires
        view_wf(v),
    ensures
        spec_get(spec_insert(v, content).todos, v.next_id) == Some(
            TodoView { id: v.next_id, content },
        ),
{
    let t = TodoView { id: v.next_id, content };
    let s2 = spec_insert(v, content).todos;
    let n = v.todos.len() as int;
    assert(s2[n] == t);
    assert(has_id(s2, v.next_id));
    lemma_idx_of(s2, v.next_id);
    let k = idx_of(s2, v.next_id);
    if k < n {
        assert(s2[k] == v.todos[k]);
    }
    assert(k == n);
}

/// The listing grows by exactly one on an insert and shrinks by exactly one
/// on a delete of a present id.
pub proof fn lemma_list_len(v: StoreView, content: Seq<char>, id: int)
    requires
        view_wf(v),
    ensures
        spec_insert(v, content).todos.len() == v.todos.len() + 1,
        has_id(v.todos, id) ==> spec_delete(v, id).todos.len() == v.todos.len() - 1,
{
    if has_id(v.todos, id) {
        lemma_idx_of(v.todos, id);
    }
}

/// An id that was never assigned — one outside the range the counter has
/// handed out — is never found.
pub proof fn lemma_get_never_inserted(v: StoreView, id: int)
    requires
        view_wf(v),
        id < 1 || id >= v.next_id,
    ensures
        spec_get(v.todos, id) is None,
{
    assert forall|i: int| 0 <= i < v.todos.len() implies (#[trigger] v.todos[i]).id != id by {}
    assert(!has_id(v.todos, id));
}

/// Updating a row twice with the same content leaves the store exactly as
/// updating it once does.
pub proof fn lemma_update_idempotent(v: StoreView, id: int, content: Seq<char>)
    ensures
        spec_update(spec_update(v, id, content), id, content) == spec_update(v, id, content),
{
    let a = spec_update(v, id, content);
    let b = spec_update(a, id, content);
    assert(b.todos =~= a.todos);
}

/// After a delete the id is gone, so a second delete of the same id finds
/// nothing and changes nothing.
pub proof fn lemma_delete_twice(v: StoreView, id: int)
    requires
        view_wf(v),
    ensures
        !has_id(spec_delete(v, id).todos, id),
        spec_delete(spec_delete(v, id), id) == spec_delete(v, id),
{
    if has_id(v.todos, id) {
        lemma_idx_of(v.todos, id);
        let k = idx_of(v.todos, id);
        let s2 = v.todos.remove(k);
        assert forall|i: int| 0 <= i < s2.len() implies (#[trigger] s2[i]).id != id by {
            if i < k {
                assert(s2[i] == v.todos[i]);
            } else {
                assert(s2[i] == v.todos[i + 1]);
            }
        }
        assert(!has_id(s2, id));
    }
}

/// The in-memory repository over the `todos` table: rows in insertion order
/// and an auto-increment counter, as the backing table keeps them.
pub struct TodoStore {
    rows: Vec<Todo>,
    next_id: i32,
}

impl View for TodoStore {
    type V = StoreView;

    closed spec fn view(&self) -> StoreView {
        StoreView {
            todos: Seq::new(self.rows@.len(), |i: int| self.rows@[i]@),
            next_id: self.next_id as int,
        }
    }
}

impl TodoStore {
    /// Well-formedness: the representation satisfies the model invariant.
    pub open spec fn wf(&self) -> bool {
        view_wf(self@)
    }

    /// An empty store, as a freshly created table: no rows, first id 1.
    pub fn new() -> (r: TodoStore)
        ensures
            r.wf(),
            r@.todos.len() == 0,
            r@.next_id == 1,
    {
        let r = TodoStore { rows: Vec::new(), next_id: 1 };
        proof {
            assert(r@.todos =~= Seq::<TodoView>::empty());
        }
        r
    }

    /// Every row, in storage order; an empty store yields an empty list.
    pub fn list_all(&self) -> (r: Vec<Todo>)
        ensures
            r@.len() == self@.todos.len(),
            forall|i: int| 0 <= i < r@.len() ==> (#[trigger] r@[i])@ == self@.todos[i],
    {
        let mut out: Vec<Todo> = Vec::new();
        let mut i: usize = 0;
        while i < self.rows.len()
            invariant
                i <= self.rows.len(),
                out@.len() == i,
                forall|j: int| 0 <= j < i ==> (#[trigger] out@[j])@ == self@.todos[j],
            decreases self.rows.len() - i,
        {
            out.push(self.rows[i].duplicate());
            i += 1;
        }
        out
    }

    /// The row with the given id, or `None` if no row has it.
    pub fn get_by_id(&self, id: i32) -> (r: Option<Todo>)
        ensures
            r is Some <==> has_id(self@.todos, id as int),
            match r {
                Some(t) => spec_get(self@.todos, id as int) == Some(t@),
                None => spec_get(self@.todos, id as int) is None,
            },
    {
        let mut i: usize = 0;
        while i < self.rows.len()
            invariant
                i <= self.rows.len(),
                forall|j: int| 0 <= j < i ==> (#[trigger] self@.todos[j]).id != id as int,
            decreases self.rows.len() - i,
        {
            if self.rows[i].id == id {
                proof {
                    assert(self@.todos[i as int].id == id as int);
                    assert(has_id(self@.todos, id as int));
                    lemma_idx_of(self@.todos, id as int);
                    assert(idx_of(self@.todos, id as int) == i);
                }
                return Some(self.rows[i].duplicate());
            }
            i += 1;
        }
        proof {
            assert(!has_id(self@.todos, id as int));
        }
        None
    }

    /// Creates a row with the given content under a store-assigned fresh id
    /// and returns it.
    pub fn insert(&mut self, content: &str) -> (r: Todo)
        requires
            old(self).wf(),
            old(self)@.next_id < i32::MAX,
        ensures
            final(self).wf(),
            final(self)@ == spec_insert(old(self)@, content@),
            r@ == (TodoView { id: old(self)@.next_id, content: content@ }),
    {
        let id = self.next_id;
        let t = Todo { id, content: content.to_owned() };
        let r = t.duplicate();
        self.rows.push(t);
        self.next_id = self.next_id + 1;
        proof {
            assert(self@.todos =~= spec_insert(old(self)@, content@).todos);
        }
        r
    }

    /// Overwrites the content of the row with the given id, leaving its id in
    /// place; reports whether such a row existed. Absent ids are a no-op.
    pub fn update_content(&mut self, id: i32, content: &str) -> (r: bool)
        requires
            old(self).wf(),
        ensures
            final(self).wf(),
            r == has_id(old(self)@.todos, id as int),
            final(self)@ == spec_update(old(self)@, id as int, content@),
    {
        let ghost pre = self@;
        let mut i: usize = 0;
        while i < self.rows.len()
            invariant
                i <= self.rows.len(),
                forall|j: int| 0 <= j < i ==> (#[trigger] pre.todos[j]).id != id as int,
                self@ == pre,
                pre == old(self)@,
                view_wf(pre),
            decreases self.rows.len() - i,
        {
            if self.rows[i].id == id {
                proof {
                    assert(pre.todos[i as int].id == id as int);
                    assert(has_id(pre.todos, id as int));
                }
                let t = Todo { id, content: content.to_owned() };
                self.rows.set(i, t);
                proof {
                    assert forall|j: int|
                        0 <= j < self@.todos.len() implies #[trigger] self@.todos[j]
                        == spec_update(pre, id as int, content@).todos[j] by {
                        if j != i {
                            assert(view_wf(pre));
                            assert(pre.todos[j].id != pre.todos[i as int].id);
                        }
                    }
                    assert(self@.todos =~= spec_update(pre, id as int, content@).todos);
                }
                return true;
            }
            i += 1;
        }
        proof {
            assert(!has_id(pre.todos, id as int));
            assert(self@.todos =~= spec_update(pre, id as int, content@).todos);
        }
        false
    }

    /// Removes the row with the given id permanently; reports whether such a
    /// row existed. Absent ids are a no-op.
    pub fn delete_by_id(&mut self, id: i32) -> (r: bool)
        requires
            old(self).wf(),
        ensures
            final(self).wf(),
            r == has_id(old(self)@.todos, id as int),
            final(self)@ == spec_delete(old(self)@, id as int),
    {
        let ghost pre = self@;
        let mut i: usize = 0;
        while i < self.rows.len()
            invariant
                i <= self.rows.len(),
                forall|j: int| 0 <= j < i ==> (#[trigger] pre.todos[j]).id != id as int,
                self@ == pre,
                pre == old(self)@,
                view_wf(pre),
            decreases self.rows.len() - i,
        {
            if self.rows[i].id == id {
                proof {
                    assert(pre.todos[i as int].id == id as int);
                    assert(has_id(pre.todos, id as int));
                    lemma_idx_of(pre.todos, id as int);
                    assert(idx_of(pre.todos, id as int) == i);
                }
                self.rows.remove(i);
                proof {
                    assert(self@.todos =~= spec_delete(pre, id as int).todos);
                    assert forall|a: int, b: int|
                        0 <= a < self@.todos.len() && 0 <= b < self@.todos.len() && a != b
                        implies self@.todos[a].id != self@.todos[b].id by {
                        assert(view_wf(pre));
                    }
                }
                return true;
            }
            i += 1;
        }
        proof {
            assert(!has_id(pre.todos, id as int));
        }
        false
    }
}

} // verus!

