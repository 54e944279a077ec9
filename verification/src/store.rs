use vstd::prelude::*;

use crate::models::{Todo, TodoView, views_of};

verus! {

/// The one domain error: a lookup by identifier found no record.
#[derive(Clone, Copy, Debug, PartialEq, Eq, Structural)]
pub enum TodoError {
    NotFound,
}

/// True when some record in `s` carries the identifier `id`.
pub open spec fn contains_id(s: Seq<TodoView>, id: u128) -> bool {
    exists|i: int| 0 <= i < s.len() && s[i].id == id
}

/// True when no two records in `s` share an identifier.
pub open spec fn ids_distinct(s: Seq<TodoView>) -> bool {
    forall|i: int, j: int| 0 <= i < j < s.len() ==> s[i].id != s[j].id
}

/// Relies on uuid::Uuid::new_v4, a randomly generated 128-bit identifier:
/// nothing is promised of the value, and callers must check it themselves
/// against the identifiers already in use.
#[verifier::external_body]
fn random_id() -> u128 {
    uuid::Uuid::new_v4().as_u128()
}

/// Uniqueness law: appending a record whose identifier no record of `s`
/// carries keeps the identifiers pairwise distinct.
pub proof fn lemma_fresh_push_keeps_ids_distinct(s: Seq<TodoView>, t: TodoView)
    requires
        ids_distinct(s),
        !contains_id(s, t.id),
    ensures
        ids_distinct(s.push(t)),
{
    assert forall|i: int, j: int| 0 <= i < j < s.push(t).len() implies s.push(t)[i].id != s.push(
        t,
    )[j].id by {
        if j == s.len() {
            assert(s.push(t)[i] == s[i]);
            if s[i].id == t.id {
                assert(contains_id(s, t.id));
            }
        } else {
            assert(s.push(t)[i] == s[i]);
            assert(s.push(t)[j] == s[j]);
        }
    }
}

/// When identifiers are pairwise distinct, the identifier pins the record:
/// two records of `s` carrying the same identifier are the same record.
pub proof fn lemma_id_pins_record(s: Seq<TodoView>, a: TodoView, b: TodoView)
    requires
        ids_distinct(s),
        s.contains(a),
        s.contains(b),
        a.id == b.id,
    ensures
        a == b,
{
    let i = choose|i: int| 0 <= i < s.len() && s[i] == a;
    let j = choose|j: int| 0 <= j < s.len() && s[j] == b;
    if i != j {
        assert(s[i].id != s[j].id);
    }
}

/// Round-trip law: after a record `t` with a fresh identifier is appended
/// to `s`, any record of the result carrying `t`'s identifier is `t`
/// itself — looking the created record up returns it unchanged.
pub proof fn lemma_create_then_get(s: Seq<TodoView>, t: TodoView, u: TodoView)
    requires
        ids_distinct(s),
        !contains_id(s, t.id),
        s.push(t).contains(u),
        u.id == t.id,
    ensures
        u == t,
{
    lemma_fresh_push_keeps_ids_distinct(s, t);
    assert(s.push(t)[s.len() as int] == t);
    assert(s.push(t).contains(t));
    lemma_id_pins_record(s.push(t), u, t);
}

/// Update-overwrite law: when `s1` is `s0` with the record carrying `t.id`
/// overwritten by `t` (as Update leaves the store), any record of `s1`
/// carrying that identifier is `t` itself — a lookup after the update
/// returns exactly the updated record.
pub proof fn lemma_update_then_get(s0: Seq<TodoView>, s1: Seq<TodoView>, t: TodoView, u: TodoView)
    requires
        ids_distinct(s0),
        contains_id(s0, t.id),
        s1.len() == s0.len(),
        forall|i: int|
            0 <= i < s0.len() ==> #[trigger] s1[i] == (if s0[i].id == t.id {
                t
            } else {
                s0[i]
            }),
        s1.contains(u),
        u.id == t.id,
    ensures
        u == t,
{
    assert forall|p: int, q: int| 0 <= p < q < s1.len() implies s1[p].id != s1[q].id by {
        assert(s1[p].id == s0[p].id);
        assert(s1[q].id == s0[q].id);
    }
    let w = choose|w: int| 0 <= w < s0.len() && s0[w].id == t.id;
    assert(s1[w] == t);
    assert(s1.contains(t));
    lemma_id_pins_record(s1, u, t);
}

/// If the `k` distinct identifiers `0`, `1`, ..., `k - 1` all occur in `s`,
/// then `s` holds at least `k` records.
proof fn lemma_ids_give_length(s: Seq<TodoView>, k: nat)
    requires
        k <= u128::MAX,
        forall|j: int| 0 <= j < k ==> #[trigger] contains_id(s, j as u128),
    ensures
        s.len() >= k,
    decreases k,
{
    if k > 0 {
        let last = (k - 1) as u128;
        assert(contains_id(s, last));
        let i = choose|i: int| 0 <= i < s.len() && s[i].id == last;
        let s2 = s.remove(i);
        assert forall|j: int| 0 <= j < k - 1 implies #[trigger] contains_id(s2, j as u128) by {
            assert(contains_id(s, j as u128));
            let w = choose|w: int| 0 <= w < s.len() && s[w].id == j as u128;
            assert(j as u128 != last);
            assert(s[w].id != last);
            if w < i {
                assert(s2[w] == s[w]);
                assert(contains_id(s2, j as u128));
            } else {
                assert(s2[w - 1] == s[w]);
                assert(contains_id(s2, j as u128));
            }
        }
        lemma_ids_give_length(s2, (k - 1) as nat);
    }
}

/// The in-memory collection of todo records, in insertion order.
pub struct TodoStore {
    todos: Vec<Todo>,
}

impl View for TodoStore {
    type V = Seq<TodoView>;

    closed spec fn view(&self) -> Seq<TodoView> {
        views_of(self.todos@)
    }
}

impl TodoStore {
    /// Well-formed: the identifiers of the records are pairwise distinct.
    pub open spec fn wf(&self) -> bool {
        ids_distinct(self@)
    }

    /// An empty store.
    pub fn new() -> (r: TodoStore)
        ensures
            r.wf(),
            r@ == Seq::<TodoView>::empty(),
    {
        let r = TodoStore { todos: Vec::new() };
        proof {
            assert(r@ =~= Seq::<TodoView>::empty());
        }
        r
    }

    /// The position of the first record carrying `id`, if any.
    fn find_index(&self, id: u128) -> (r: Option<usize>)
        ensures
            match r {
                Some(i) => i < self@.len() && self@[i as int].id == id,
                None => !contains_id(self@, id),
            },
    {
        let mut k: usize = 0;
        while k < self.todos.len()
            invariant
                k <= self.todos.len(),
                forall|j: int| 0 <= j < k ==> self@[j].id != id,
            decreases self.todos.len() - k,
        {
            if self.todos[k].id == id {
                return Some(k);
            }
            k += 1;
        }
        None
    }

    /// Whether some record carries `id`.
    pub fn has_id(&self, id: u128) -> (r: bool)
        ensures
            r == contains_id(self@, id),
    {
        match self.find_index(id) {
            Some(i) => {
                proof {
                    assert(0 <= i < self@.len() && self@[i as int].id == id);
                }
                true
            },
            None => false,
        }
    }

    /// An identifier no current record carries. The search tries the
    /// candidates `0`, `1`, ..., up to the number of records: among those
    /// there are more candidates than records, so one must be free.
    fn unused_id(&self) -> (r: u128)
        ensures
            !contains_id(self@, r),
    {
        let n = self.todos.len();
        let mut k: usize = 0;
        while k < n
            invariant
                k <= n,
                n == self@.len(),
                forall|j: int| 0 <= j < k ==> #[trigger] contains_id(self@, j as u128),
            decreases n - k,
        {
            if !self.has_id(k as u128) {
                return k as u128;
            }
            k += 1;
        }
        let last = n as u128;
        if !self.has_id(last) {
            return last;
        }
        proof {
            assert(forall|j: int| 0 <= j < n + 1 ==> #[trigger] contains_id(self@, j as u128));
            lemma_ids_give_length(self@, (n + 1) as nat);
            assert(false);
        }
        0
    }

    /// Create: builds a record with a fresh identifier, `title` and
    /// `completed`, appends it to the collection, and returns it. The
    /// identifier is drawn at random; should the draw collide with an
    /// existing record, a free identifier is searched for instead, so the
    /// returned identifier is always one that no prior record carried.
    pub fn create(&mut self, title: String, completed: bool) -> (r: Todo)
        requires
            old(self).wf(),
        ensures
            final(self).wf(),
            final(self)@ == old(self)@.push(r@),
            r@.title == title@,
            r@.completed == completed,
            !contains_id(old(self)@, r@.id),
    {
        let candidate = random_id();
        let id = if self.has_id(candidate) {
            self.unused_id()
        } else {
            candidate
        };
        let record = Todo { id, title, completed };
        let result = record.clone();
        proof {
            lemma_fresh_push_keeps_ids_distinct(self@, record@);
        }
        let ghost before = self@;
        self.todos.push(record);
        proof {
            assert(self@ =~= before.push(result@));
        }
        result
    }

    /// Get: the record carrying `id`, or NotFound if there is none.
    pub fn get(&self, id: u128) -> (r: Result<Todo, TodoError>)
        requires
            self.wf(),
        ensures
            match r {
                Ok(t) => contains_id(self@, id) && t@.id == id && self@.contains(t@),
                Err(e) => e == TodoError::NotFound && !contains_id(self@, id),
            },
    {
        match self.find_index(id) {
            Some(i) => {
                let t = (&self.todos[i]).clone();
                proof {
                    assert(t@ == self@[i as int]);
                    assert(self@.contains(t@));
                }
                Ok(t)
            },
            None => Err(TodoError::NotFound),
        }
    }

    /// Update: overwrites the title and flag of the record carrying `id`,
    /// keeping its identifier and its place, and returns the updated
    /// record; NotFound if no record carries `id`, leaving the store
    /// unchanged.
    pub fn update(&mut self, id: u128, title: String, completed: bool) -> (r: Result<
        Todo,
        TodoError,
    >)
        requires
            old(self).wf(),
        ensures
            final(self).wf(),
            match r {
                Ok(t) => {
                    &&& contains_id(old(self)@, id)
                    &&& t@.id == id
                    &&& t@.title == title@
                    &&& t@.completed == completed
                    &&& final(self)@.len() == old(self)@.len()
                    &&& forall|i: int|
                        0 <= i < old(self)@.len() ==> #[trigger] final(self)@[i] == (
                        if old(self)@[i].id == id {
                            t@
                        } else {
                            old(self)@[i]
                        })
                },
                Err(e) => {
                    &&& e == TodoError::NotFound
                    &&& !contains_id(old(self)@, id)
                    &&& final(self)@ == old(self)@
                },
            },
    {
        match self.find_index(id) {
            Some(i) => {
                let record = Todo { id, title, completed };
                let result = record.clone();
                let ghost before = self@;
                self.todos.remove(i);
                self.todos.insert(i, record);
                proof {
                    assert(self@ =~= before.update(i as int, result@));
                    assert forall|j: int|
                        0 <= j < before.len() implies #[trigger] self@[j] == (
                    if before[j].id == id {
                        result@
                    } else {
                        before[j]
                    }) by {
                        if j != i && before[j].id == id {
                            assert(before[i as int].id == id);
                        }
                    }
                    assert forall|p: int, q: int|
                        0 <= p < q < self@.len() implies self@[p].id != self@[q].id by {
                        assert(self@[p].id == before[p].id);
                        assert(self@[q].id == before[q].id);
                    }
                }
                Ok(result)
            },
            None => Err(TodoError::NotFound),
        }
    }

    /// Delete: removes the record carrying `id`, keeping the order of the
    /// others, so that no record carries `id` afterwards; NotFound if no
    /// record carries `id`, leaving the store unchanged.
    pub fn delete(&mut self, id: u128) -> (r: Result<(), TodoError>)
        requires
            old(self).wf(),
        ensures
            final(self).wf(),
            match r {
                Ok(_) => {
                    &&& contains_id(old(self)@, id)
                    &&& exists|i: int|
                        0 <= i < old(self)@.len() && #[trigger] old(self)@[i].id == id
                            && final(self)@ == old(self)@.remove(i)
                    &&& !contains_id(final(self)@, id)
                },
                Err(e) => {
                    &&& e == TodoError::NotFound
                    &&& !contains_id(old(self)@, id)
                    &&& final(self)@ == old(self)@
                },
            },
    {
        match self.find_index(id) {
            Some(i) => {
                let ghost before = self@;
                self.todos.remove(i);
                proof {
                    assert(self@ =~= before.remove(i as int));
                    assert forall|p: int, q: int|
                        0 <= p < q < self@.len() implies self@[p].id != self@[q].id by {
                        if q < i {
                        } else if p < i {
                            assert(self@[p] == before[p]);
                            assert(self@[q] == before[q + 1]);
                        } else {
                            assert(self@[p] == before[p + 1]);
                            assert(self@[q] == before[q + 1]);
                        }
                    }
                    assert forall|w: int| 0 <= w < self@.len() implies #[trigger] self@[w].id != id by {
                        if w < i {
                            assert(self@[w] == before[w]);
                            assert(before[i as int].id == id);
                        } else {
                            assert(self@[w] == before[w + 1]);
                            assert(before[i as int].id == id);
                        }
                    }
                    assert(before[i as int].id == id && self@ == before.remove(i as int));
                }
                Ok(())
            },
            None => Err(TodoError::NotFound),
        }
    }

    /// List: a snapshot copy of all records, in insertion order.
    pub fn list(&self) -> (r: Vec<Todo>)
        ensures
            views_of(r@) == self@,
    {
        let mut out: Vec<Todo> = Vec::new();
        let mut k: usize = 0;
        while k < self.todos.len()
            invariant
                k <= self.todos.len(),
                out@.len() == k,
                forall|j: int| 0 <= j < k ==> #[trigger] out@[j]@ == self@[j],
            decreases self.todos.len() - k,
        {
            out.push((&self.todos[k]).clone());
            k += 1;
        }
        proof {
            assert(views_of(out@) =~= self@);
        }
        out
    }
}

} // verus!
