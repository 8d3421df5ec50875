use vstd::prelude::*;

use crate::error::RepositoryError;
use crate::label::{duplicate_labels, labels_view, Label, LabelModel};
use crate::todo::{
    has_id, label_ids, position_of, todos_view, TodoRepository, unique_ids, CreateTodo, TodoEntity, TodoModel, UpdateTodo,
};

verus! {

/// The first label of the catalog with this id.
pub open spec fn first_label(c: Seq<LabelModel>, id: i32) -> Option<LabelModel>
    decreases c.len(),
{
    if c.len() == 0 {
        None
    } else if c[0].id == id {
        Some(c[0])
    } else {
        first_label(c.subrange(1, c.len() as int), id)
    }
}

/// Every id of the list names a label of the catalog.
pub open spec fn resolvable(c: Seq<LabelModel>, ids: Seq<i32>) -> bool {
    forall|i: int| 0 <= i < ids.len() ==> first_label(c, #[trigger] ids[i]).is_some()
}

/// The catalog's labels for a list of ids, in the order of the ids.
pub open spec fn resolved(c: Seq<LabelModel>, ids: Seq<i32>) -> Seq<LabelModel> {
    ids.map_values(|id: i32| first_label(c, id).unwrap())
}

/// The position of the todo with this id.
pub open spec fn index_of(s: Seq<TodoModel>, id: i32) -> int {
    choose|i: int| 0 <= i < s.len() && s[i].id == id
}

/// The todos of a list, keyed by id.
pub open spec fn todo_map(s: Seq<TodoModel>) -> Map<i32, TodoModel> {
    Map::new(|id: i32| has_id(s, id), |id: i32| s[index_of(s, id)])
}

/// The ids of the list increase strictly.
pub open spec fn ascending(s: Seq<TodoModel>) -> bool {
    forall|i: int, j: int| 0 <= i < j < s.len() ==> s[i].id < s[j].id
}

/// What a partial update makes of a todo: each field that the payload holds
/// replaces the todo's, and a list of label ids is resolved in the catalog.
pub open spec fn updated(t: TodoModel, payload: UpdateTodo, c: Seq<LabelModel>) -> TodoModel {
    TodoModel {
        id: t.id,
        text: match payload.text {
            Some(s) => s@,
            None => t.text,
        },
        completed: match payload.completed {
            Some(b) => b,
            None => t.completed,
        },
        labels: match payload.labels {
            Some(ids) => resolved(c, ids@),
            None => t.labels,
        },
    }
}

pub proof fn lemma_first_label_id(c: Seq<LabelModel>, id: i32)
    ensures
        first_label(c, id) matches Some(l) ==> l.id == id,
    decreases c.len(),
{
    if c.len() > 0 && c[0].id != id {
        lemma_first_label_id(c.subrange(1, c.len() as int), id);
    }
}

/// Resolving ids in the catalog keeps the ids.
pub proof fn lemma_resolved_ids(c: Seq<LabelModel>, ids: Seq<i32>)
    requires
        resolvable(c, ids),
    ensures
        label_ids(resolved(c, ids)) == ids,
{
    assert forall|i: int| 0 <= i < ids.len() implies #[trigger] label_ids(resolved(c, ids))[i]
        == ids[i] by {
        lemma_first_label_id(c, ids[i]);
    }
    assert(label_ids(resolved(c, ids)) =~= ids);
}

pub proof fn lemma_todo_map_at(s: Seq<TodoModel>, i: int)
    requires
        unique_ids(s),
        0 <= i < s.len(),
    ensures
        todo_map(s).contains_key(s[i].id),
        todo_map(s)[s[i].id] == s[i],
        index_of(s, s[i].id) == i,
{
    assert(has_id(s, s[i].id));
    let j = index_of(s, s[i].id);
    assert(s[j].id == s[i].id);
}

pub proof fn lemma_ascending_unique(s: Seq<TodoModel>)
    requires
        ascending(s),
    ensures
        unique_ids(s),
{
    assert forall|i: int, j: int| 0 <= i < s.len() && 0 <= j < s.len() && i != j implies s[i].id
        != s[j].id by {
        if i < j {
            assert(s[i].id < s[j].id);
        } else {
            assert(s[j].id < s[i].id);
        }
    }
}

/// A list of label ids that a todo can take: each id names a label of the
/// catalog, and no id comes twice, as a todo holds each label at most once.
pub open spec fn labels_accepted(c: Seq<LabelModel>, ids: Seq<i32>) -> bool {
    resolvable(c, ids) && ids.no_duplicates()
}

/// The payload's label ids, if it has any, can be the todo's labels.
pub open spec fn update_resolvable(payload: UpdateTodo, c: Seq<LabelModel>) -> bool {
    match payload.labels {
        Some(ids) => labels_accepted(c, ids@),
        None => true,
    }
}

pub proof fn lemma_map_push(s: Seq<TodoModel>, t: TodoModel)
    requires
        unique_ids(s),
        !has_id(s, t.id),
    ensures
        unique_ids(s.push(t)),
        todo_map(s.push(t)) == todo_map(s).insert(t.id, t),
{
    let s1 = s.push(t);
    assert(unique_ids(s1)) by {
        assert forall|i: int, j: int| 0 <= i < s1.len() && 0 <= j < s1.len() && i != j implies s1[i].id
            != s1[j].id by {
            if i < s.len() && j < s.len() {
                assert(s1[i] == s[i] && s1[j] == s[j]);
            } else if i < s.len() {
                assert(s1[i] == s[i]);
            } else {
                assert(s1[j] == s[j]);
            }
        }
    }
    assert forall|k: i32| #[trigger] todo_map(s1).contains_key(k) implies todo_map(s).insert(
        t.id,
        t,
    ).contains_key(k) && todo_map(s1)[k] == todo_map(s).insert(t.id, t)[k] by {
        let j = index_of(s1, k);
        lemma_todo_map_at(s1, j);
        if j < s.len() {
            assert(s1[j] == s[j]);
            lemma_todo_map_at(s, j);
        }
    }
    assert forall|k: i32| #[trigger] todo_map(s).insert(t.id, t).contains_key(k) implies todo_map(
        s1,
    ).contains_key(k) by {
        if k == t.id {
            lemma_todo_map_at(s1, s.len() as int);
        } else {
            let j = index_of(s, k);
            assert(s1[j] == s[j]);
        }
    }
    assert(todo_map(s1) =~= todo_map(s).insert(t.id, t));
}

pub proof fn lemma_map_update(s: Seq<TodoModel>, i: int, t: TodoModel)
    requires
        unique_ids(s),
        0 <= i < s.len(),
        t.id == s[i].id,
    ensures
        unique_ids(s.update(i, t)),
        todo_map(s.update(i, t)) == todo_map(s).insert(t.id, t),
{
    let s1 = s.update(i, t);
    assert(unique_ids(s1)) by {
        assert forall|a: int, b: int| 0 <= a < s1.len() && 0 <= b < s1.len() && a != b implies s1[a].id
            != s1[b].id by {
            assert(s1[a].id == s[a].id && s1[b].id == s[b].id);
        }
    }
    assert forall|k: i32| #[trigger] todo_map(s1).contains_key(k) implies todo_map(s).insert(
        t.id,
        t,
    ).contains_key(k) && todo_map(s1)[k] == todo_map(s).insert(t.id, t)[k] by {
        let j = index_of(s1, k);
        lemma_todo_map_at(s1, j);
        if j != i {
            assert(s1[j] == s[j]);
            lemma_todo_map_at(s, j);
        }
    }
    assert forall|k: i32| #[trigger] todo_map(s).insert(t.id, t).contains_key(k) implies todo_map(
        s1,
    ).contains_key(k) by {
        if k == t.id {
            lemma_todo_map_at(s1, i);
        } else {
            let j = index_of(s, k);
            assert(s1[j] == s[j]);
        }
    }
    assert(todo_map(s1) =~= todo_map(s).insert(t.id, t));
}

pub proof fn lemma_map_remove(s: Seq<TodoModel>, i: int)
    requires
        unique_ids(s),
        0 <= i < s.len(),
    ensures
        unique_ids(s.remove(i)),
        todo_map(s.remove(i)) == todo_map(s).remove(s[i].id),
{
    let s1 = s.remove(i);
    let id = s[i].id;
    assert forall|a: int| 0 <= a < s1.len() implies #[trigger] s1[a] == (if a < i {
        s[a]
    } else {
        s[a + 1]
    }) by {}
    assert(unique_ids(s1)) by {
        assert forall|a: int, b: int| 0 <= a < s1.len() && 0 <= b < s1.len() && a != b implies s1[a].id
            != s1[b].id by {
            let a0 = if a < i { a } else { a + 1 };
            let b0 = if b < i { b } else { b + 1 };
            assert(s1[a] == s[a0] && s1[b] == s[b0]);
        }
    }
    assert forall|k: i32| #[trigger] todo_map(s1).contains_key(k) implies todo_map(s).remove(
        id,
    ).contains_key(k) && todo_map(s1)[k] == todo_map(s).remove(id)[k] by {
        let j = index_of(s1, k);
        lemma_todo_map_at(s1, j);
        let j0 = if j < i { j } else { j + 1 };
        assert(s1[j] == s[j0]);
        lemma_todo_map_at(s, j0);
    }
    assert forall|k: i32| #[trigger] todo_map(s).remove(id).contains_key(k) implies todo_map(
        s1,
    ).contains_key(k) by {
        let j = index_of(s, k);
        assert(j != i);
        let j1 = if j < i { j } else { j - 1 };
        assert(s1[j1] == s[j]);
    }
    assert(todo_map(s1) =~= todo_map(s).remove(id));
}

/// What `create` does: on success the todo is new, not completed, holds the
/// payload's text and the catalog's labels for its ids, and takes the next id;
/// it fails with `Unexpected`, changing nothing, exactly when an id names no
/// label, an id comes twice, or the todo ids are used up.
pub open spec fn created(
    s0: TodoRepositoryForMemory,
    s1: TodoRepositoryForMemory,
    payload: CreateTodo,
    r: Result<TodoEntity, RepositoryError>,
) -> bool {
    &&& s1.inv()
    &&& s1.catalog() == s0.catalog()
    &&& match r {
        Ok(t) => {
            &&& labels_accepted(s0.catalog(), payload.labels@)
            &&& s0.next() < i32::MAX
            &&& t@ == (TodoModel {
                id: s0.next(),
                text: payload.text@,
                completed: false,
                labels: resolved(s0.catalog(), payload.labels@),
            })
            &&& !s0.todos().contains_key(t.id)
            &&& s1.todos() == s0.todos().insert(t.id, t@)
            &&& s1.entries() == s0.entries().push(t@)
            &&& s1.next() == s0.next() + 1
        },
        Err(e) => {
            &&& e is Unexpected
            &&& !labels_accepted(s0.catalog(), payload.labels@) || s0.next() == i32::MAX
            &&& s1 == s0
        },
    }
}

/// What `find` returns: the todo with this id, or `NotFound(id)` when there is none.
pub open spec fn found(s: TodoRepositoryForMemory, id: i32, r: Result<TodoEntity, RepositoryError>) -> bool {
    match r {
        Ok(t) => s.todos().contains_key(id) && t@ == s.todos()[id],
        Err(e) => !s.todos().contains_key(id) && e == RepositoryError::NotFound(id),
    }
}

/// What `update` does: `NotFound(id)` when the id is absent; else, when a
/// given label id names no label or comes twice, an `Unexpected` error; else the partial
/// update, stored under the same id. A failure changes nothing.
pub open spec fn update_done(
    s0: TodoRepositoryForMemory,
    s1: TodoRepositoryForMemory,
    id: i32,
    payload: UpdateTodo,
    r: Result<TodoEntity, RepositoryError>,
) -> bool {
    &&& s1.inv()
    &&& s1.catalog() == s0.catalog()
    &&& s1.next() == s0.next()
    &&& match r {
        Ok(t) => {
            &&& s0.todos().contains_key(id)
            &&& update_resolvable(payload, s0.catalog())
            &&& t@ == updated(s0.todos()[id], payload, s0.catalog())
            &&& s1.todos() == s0.todos().insert(id, t@)
        },
        Err(e) => {
            &&& s1 == s0
            &&& if s0.todos().contains_key(id) {
                &&& !update_resolvable(payload, s0.catalog())
                &&& e is Unexpected
            } else {
                e == RepositoryError::NotFound(id)
            }
        },
    }
}

/// What `delete` does: removes the todo with this id, or fails with
/// `NotFound(id)`, changing nothing, when there is none.
pub open spec fn deleted(
    s0: TodoRepositoryForMemory,
    s1: TodoRepositoryForMemory,
    id: i32,
    r: Result<(), RepositoryError>,
) -> bool {
    &&& s1.inv()
    &&& s1.catalog() == s0.catalog()
    &&& s1.next() == s0.next()
    &&& match r {
        Ok(_) => s0.todos().contains_key(id) && s1.todos() == s0.todos().remove(id),
        Err(e) => !s0.todos().contains_key(id) && e == RepositoryError::NotFound(id) && s1 == s0,
    }
}

/// Whether some id comes twice in the list.
pub fn repeats_an_id(ids: &Vec<i32>) -> (r: bool)
    ensures
        r == !ids@.no_duplicates(),
{
    let n = ids.len();
    let mut i: usize = 0;
    while i < n
        invariant
            n == ids@.len(),
            i <= n,
            forall|a: int, b: int| 0 <= a < i && 0 <= b < n && a != b ==> ids@[a] != ids@[b],
        decreases n - i,
    {
        let mut j: usize = 0;
        while j < n
            invariant
                n == ids@.len(),
                i < n,
                j <= n,
                forall|b: int| 0 <= b < j && b != i ==> ids@[i as int] != ids@[b],
            decreases n - j,
        {
            if j != i && ids[i] == ids[j] {
                return true;
            }
            j = j + 1;
        }
        i = i + 1;
    }
    false
}

/// A store that keeps todos in memory, with a fixed catalog of labels.
/// Ids come from a counter that only grows, so an id is never given twice.
pub struct TodoRepositoryForMemory {
    store: Vec<TodoEntity>,
    labels: Vec<Label>,
    next_id: i32,
}

impl TodoRepositoryForMemory {
    /// The todos, in increasing order of id.
    pub closed spec fn entries(&self) -> Seq<TodoModel> {
        todos_view(self.store@)
    }

    /// The label catalog.
    pub closed spec fn catalog(&self) -> Seq<LabelModel> {
        labels_view(self.labels@)
    }

    /// The id that the next todo receives.
    pub closed spec fn next(&self) -> i32 {
        self.next_id
    }

    /// The todos, keyed by id.
    pub open spec fn todos(&self) -> Map<i32, TodoModel> {
        todo_map(self.entries())
    }

    pub closed spec fn inv(&self) -> bool {
        &&& ascending(self.entries())
        &&& 1 <= self.next_id
        &&& forall|i: int| 0 <= i < self.store@.len() ==> self.store@[i].id < self.next_id
    }

    pub fn new(labels: Vec<Label>) -> (r: TodoRepositoryForMemory)
        ensures
            r.inv(),
            r.entries() == Seq::<TodoModel>::empty(),
            r.todos() == Map::<i32, TodoModel>::empty(),
            r.catalog() == labels_view(labels@),
            r.next() == 1,
    {
        let r = TodoRepositoryForMemory { store: Vec::new(), labels, next_id: 1 };
        proof {
            assert(r.todos() =~= Map::<i32, TodoModel>::empty());
        }
        r
    }

    /// The first label of the catalog with this id.
    fn lookup_label(&self, id: i32) -> (r: Option<Label>)
        ensures
            match r {
                Some(l) => first_label(self.catalog(), id) == Some(l@),
                None => first_label(self.catalog(), id).is_none(),
            },
    {
        let ghost c = self.catalog();
        proof {
            assert(c.subrange(0, c.len() as int) =~= c);
        }
        let mut i: usize = 0;
        while i < self.labels.len()
            invariant
                i <= self.labels@.len(),
                c == labels_view(self.labels@),
                first_label(c, id) == first_label(c.subrange(i as int, c.len() as int), id),
            decreases self.labels.len() - i,
        {
            proof {
                let rest = c.subrange(i as int, c.len() as int);
                assert(rest[0] == self.labels@[i as int]@);
                assert(rest.subrange(1, rest.len() as int) =~= c.subrange(i + 1, c.len() as int));
            }
            if self.labels[i].id == id {
                return Some(self.labels[i].duplicate());
            }
            i = i + 1;
        }
        None
    }

    /// The catalog's labels for a list of ids, or `None` when an id names no
    /// label or comes twice.
    fn conversion_label(&self, ids: &Vec<i32>) -> (r: Option<Vec<Label>>)
        ensures
            match r {
                Some(v) => labels_accepted(self.catalog(), ids@) && labels_view(v@) == resolved(
                    self.catalog(),
                    ids@,
                ),
                None => !labels_accepted(self.catalog(), ids@),
            },
    {
        if repeats_an_id(ids) {
            return None;
        }
        let mut out: Vec<Label> = Vec::new();
        let mut k: usize = 0;
        while k < ids.len()
            invariant
                k <= ids@.len(),
                out@.len() == k,
                forall|j: int| 0 <= j < k ==> first_label(self.catalog(), #[trigger] ids@[j]) == Some(
                    out@[j]@,
                ),
            decreases ids.len() - k,
        {
            match self.lookup_label(ids[k]) {
                Some(l) => out.push(l),
                None => {
                    return None;
                },
            }
            k = k + 1;
        }
        proof {
            assert(labels_view(out@) =~= resolved(self.catalog(), ids@));
        }
        Some(out)
    }

    /// Adds a todo that is not completed, with the catalog's labels for the
    /// payload's ids; fails when an id names no label or the ids are used up.
    pub fn create(&mut self, payload: CreateTodo) -> (r: Result<TodoEntity, RepositoryError>)
        requires
            old(self).inv(),
        ensures
            created(*old(self), *final(self), payload, r),
    {
        let labels = match self.conversion_label(&payload.labels) {
            Some(l) => l,
            None => {
                return Err(RepositoryError::Unexpected("a label id names no label".to_owned()));
            },
        };
        if self.next_id == i32::MAX {
            return Err(RepositoryError::Unexpected("todo ids are used up".to_owned()));
        }
        let id = self.next_id;
        let todo = TodoEntity::new(id, payload.text, labels);
        let ghost s0 = self.entries();
        let copy = todo.duplicate();
        self.store.push(copy);
        self.next_id = id + 1;
        proof {
            let s1 = self.entries();
            assert(s1 =~= s0.push(todo@));
            lemma_ascending_unique(s0);
            lemma_ascending_unique(s1);
            assert(!has_id(s0, id));
            lemma_map_push(s0, todo@);
        }
        Ok(todo)
    }

    /// The position of the todo with this id.
    fn position(&self, id: i32) -> (r: Option<usize>)
        requires
            self.inv(),
        ensures
            match r {
                Some(i) => i < self.store@.len() && self.store@[i as int].id == id
                    && self.todos().contains_key(id) && self.todos()[id] == self.entries()[i as int],
                None => !self.todos().contains_key(id),
            },
    {
        proof {
            lemma_ascending_unique(self.entries());
        }
        match position_of(&self.store, id) {
            Some(i) => {
                proof {
                    assert(self.entries()[i as int].id == id);
                    lemma_todo_map_at(self.entries(), i as int);
                }
                Some(i)
            },
            None => {
                proof {
                    assert forall|j: int| 0 <= j < self.entries().len() implies self.entries()[j].id
                        != id by {
                        assert(self.store@[j].id != id);
                    }
                }
                None
            },
        }
    }

    /// The todo with this id, or `NotFound(id)`.
    pub fn find(&self, id: i32) -> (r: Result<TodoEntity, RepositoryError>)
        requires
            self.inv(),
        ensures
            found(*self, id, r),
    {
        match self.position(id) {
            Some(i) => Ok(self.store[i].duplicate()),
            None => Err(RepositoryError::NotFound(id)),
        }
    }

    /// Every todo, the most recent (highest id) first.
    pub fn all(&self) -> (r: Result<Vec<TodoEntity>, RepositoryError>)
        requires
            self.inv(),
        ensures
            match r {
                Ok(v) => todos_view(v@) == self.entries().reverse(),
                Err(_) => false,
            },
    {
        let n = self.store.len();
        let mut out: Vec<TodoEntity> = Vec::new();
        let mut k: usize = 0;
        while k < n
            invariant
                n == self.store@.len(),
                k <= n,
                out@.len() == k,
                forall|j: int| 0 <= j < k ==> (#[trigger] out@[j])@ == self.store@[n - 1 - j]@,
            decreases n - k,
        {
            out.push(self.store[n - 1 - k].duplicate());
            k = k + 1;
        }
        proof {
            assert(todos_view(out@) =~= self.entries().reverse());
        }
        Ok(out)
    }

    /// Applies a partial update to the todo with this id: each field that the
    /// payload holds replaces the stored one, and a list of label ids replaces
    /// the todo's labels whole.
    pub fn update(&mut self, id: i32, payload: UpdateTodo) -> (r: Result<TodoEntity, RepositoryError>)
        requires
            old(self).inv(),
        ensures
            update_done(*old(self), *final(self), id, payload, r),
    {
        let i = match self.position(id) {
            Some(i) => i,
            None => {
                return Err(RepositoryError::NotFound(id));
            },
        };
        let labels = match &payload.labels {
            Some(ids) => match self.conversion_label(ids) {
                Some(l) => l,
                None => {
                    return Err(RepositoryError::Unexpected("a label id names no label".to_owned()));
                },
            },
            None => duplicate_labels(&self.store[i].labels),
        };
        let text = match &payload.text {
            Some(t) => t.clone(),
            None => self.store[i].text.clone(),
        };
        let completed = match payload.completed {
            Some(b) => b,
            None => self.store[i].completed,
        };
        let todo = TodoEntity { id, text, completed, labels };
        let ghost s0 = self.entries();
        self.store.set(i, todo.duplicate());
        proof {
            assert(self.entries() =~= s0.update(i as int, todo@));
            lemma_ascending_unique(s0);
            lemma_map_update(s0, i as int, todo@);
        }
        Ok(todo)
    }

    /// Removes the todo with this id, or fails with `NotFound(id)`.
    pub fn delete(&mut self, id: i32) -> (r: Result<(), RepositoryError>)
        requires
            old(self).inv(),
        ensures
            deleted(*old(self), *final(self), id, r),
    {
        let i = match self.position(id) {
            Some(i) => i,
            None => {
                return Err(RepositoryError::NotFound(id));
            },
        };
        let ghost s0 = self.entries();
        self.store.remove(i);
        proof {
            assert(self.entries() =~= s0.remove(i as int));
            lemma_ascending_unique(s0);
            lemma_map_remove(s0, i as int);
        }
        Ok(())
    }
}

impl TodoRepository for TodoRepositoryForMemory {
    open spec fn inv(&self) -> bool {
        TodoRepositoryForMemory::inv(self)
    }

    open spec fn todos(&self) -> Map<i32, TodoModel> {
        todo_map(self.entries())
    }

    open spec fn label_of(&self, id: i32) -> Option<LabelModel> {
        first_label(self.catalog(), id)
    }

    fn create(&mut self, payload: CreateTodo) -> (r: Result<TodoEntity, RepositoryError>) {
        let ghost ids = payload.labels@;
        let ghost c = self.catalog();
        let r = TodoRepositoryForMemory::create(self, payload);
        proof {
            if r is Ok {
                lemma_resolved_ids(c, ids);
            }
        }
        r
    }

    fn find(&self, id: i32) -> (r: Result<TodoEntity, RepositoryError>) {
        TodoRepositoryForMemory::find(self, id)
    }

    fn all(&self) -> (r: Result<Vec<TodoEntity>, RepositoryError>) {
        let r = TodoRepositoryForMemory::all(self);
        proof {
            let s = self.entries();
            lemma_ascending_unique(s);
            let v = r->Ok_0;
            let n = s.len();
            assert(todos_view(v@) == s.reverse());
            assert(todos_view(v@).len() == v@.len());
            assert(v@.len() == n);
            assert forall|i: int| 0 <= i < v@.len() implies #[trigger] v@[i]@ == s[n - 1 - i] by {
                assert(todos_view(v@)[i] == v@[i]@);
                assert(s.reverse()[i] == s[n - 1 - i]);
            }
            assert forall|i: int| 0 <= i < v@.len() implies self.todos().contains_key(
                #[trigger] v@[i].id,
            ) && self.todos()[v@[i].id] == v@[i]@ by {
                assert(v@[i]@ == s[n - 1 - i]);
                assert(v@[i].id == s[n - 1 - i].id);
                lemma_todo_map_at(s, n - 1 - i);
            }
            assert forall|i: int, j: int| 0 <= i < j < v@.len() implies v@[i].id > v@[j].id by {
                assert(v@[i]@ == s[n - 1 - i]);
                assert(v@[j]@ == s[n - 1 - j]);
                assert(ascending(s));
                assert(s[n - 1 - j].id < s[n - 1 - i].id);
                assert(v@[i].id == s[n - 1 - i].id && v@[j].id == s[n - 1 - j].id);
            }
            assert forall|k: i32| #[trigger] <Self as TodoRepository>::todos(self).contains_key(k)
                implies exists|i: int| 0 <= i < v@.len() && v@[i].id == k by {
                let j = index_of(s, k);
                assert(v@[n - 1 - j]@ == s[j]);
                assert(v@[n - 1 - j].id == k);
            }
        }
        r
    }

    fn update(&mut self, id: i32, payload: UpdateTodo) -> (r: Result<TodoEntity, RepositoryError>) {
        let ghost p = payload;
        let ghost c = self.catalog();
        let r = TodoRepositoryForMemory::update(self, id, payload);
        proof {
            if r is Ok {
                if p.labels is Some {
                    lemma_resolved_ids(c, p.labels->Some_0@);
                }
            }
        }
        r
    }

    fn delete(&mut self, id: i32) -> (r: Result<(), RepositoryError>) {
        TodoRepositoryForMemory::delete(self, id)
    }
}

} // verus!
