use vstd::prelude::*;

use vstd::string::StrSliceExecFns;

use crate::error::RepositoryError;
use crate::label::{duplicate_labels, labels_equal, labels_view, Label, LabelModel};

verus! {

/// The operations that every todo store offers, stated over the todos it
/// holds, keyed by id.
pub trait TodoRepository: Sized {
    /// The store's own consistency condition.
    spec fn inv(&self) -> bool;

    /// The todos that the store holds, keyed by id.
    spec fn todos(&self) -> Map<i32, TodoModel>;

    /// The label that a label id resolves to in the store, if any.
    spec fn label_of(&self, id: i32) -> Option<LabelModel>;

    /// Adds a todo that is not completed, with the payload's text and the
    /// label that each of the payload's label ids resolves to, under an id
    /// not in use. A list of label ids that repeats an id is refused.
    fn create(&mut self, payload: CreateTodo) -> (r: Result<TodoEntity, RepositoryError>)
        requires
            old(self).inv(),
        ensures
            final(self).inv(),
            match r {
                Ok(t) => {
                    &&& !old(self).todos().contains_key(t.id)
                    &&& final(self).todos() == old(self).todos().insert(t.id, t@)
                    &&& !t.completed
                    &&& t.text@ == payload.text@
                    &&& payload.labels@.no_duplicates()
                    &&& label_ids(t@.labels) == payload.labels@
                    &&& forall|i: int| 0 <= i < payload.labels@.len() ==> old(self).label_of(
                        #[trigger] payload.labels@[i],
                    ) == Some(t@.labels[i])
                },
                Err(e) => e is Unexpected && final(self).todos() == old(self).todos(),
            },
    ;

    /// The todo with this id, or `NotFound(id)`.
    fn find(&self, id: i32) -> (r: Result<TodoEntity, RepositoryError>)
        requires
            self.inv(),
        ensures
            match r {
                Ok(t) => self.todos().contains_key(id) && t@ == self.todos()[id],
                Err(e) => !self.todos().contains_key(id) && e == RepositoryError::NotFound(id),
            },
    ;

    /// Every todo, in decreasing order of id.
    fn all(&self) -> (r: Result<Vec<TodoEntity>, RepositoryError>)
        requires
            self.inv(),
        ensures
            match r {
                Ok(v) => {
                    &&& forall|i: int, j: int| 0 <= i < j < v@.len() ==> v@[i].id > v@[j].id
                    &&& forall|i: int| 0 <= i < v@.len() ==> self.todos().contains_key(#[trigger] v@[i].id)
                        && self.todos()[v@[i].id] == v@[i]@
                    &&& forall|k: i32| #[trigger] self.todos().contains_key(k) ==> exists|i: int|
                        0 <= i < v@.len() && v@[i].id == k
                },
                Err(e) => e is Unexpected,
            },
    ;

    /// Applies a partial update to the todo with this id; fails with
    /// `NotFound(id)` when there is none.
    fn update(&mut self, id: i32, payload: UpdateTodo) -> (r: Result<TodoEntity, RepositoryError>)
        requires
            old(self).inv(),
        ensures
            final(self).inv(),
            match r {
                Ok(t) => {
                    &&& old(self).todos().contains_key(id)
                    &&& final(self).todos() == old(self).todos().insert(id, t@)
                    &&& t.id == id
                    &&& t.text@ == match payload.text {
                        Some(s) => s@,
                        None => old(self).todos()[id].text,
                    }
                    &&& t.completed == match payload.completed {
                        Some(b) => b,
                        None => old(self).todos()[id].completed,
                    }
                    &&& label_ids(t@.labels) == match payload.labels {
                        Some(ids) => ids@,
                        None => label_ids(old(self).todos()[id].labels),
                    }
                    &&& payload.labels matches Some(ids) ==> ids@.no_duplicates() && forall|i: int|
                        0 <= i < ids@.len() ==> old(self).label_of(#[trigger] ids@[i]) == Some(
                            t@.labels[i],
                        )
                    &&& payload.labels.is_none() ==> t@.labels == old(self).todos()[id].labels
                },
                Err(e) => {
                    &&& final(self).todos() == old(self).todos()
                    &&& !old(self).todos().contains_key(id) ==> e == RepositoryError::NotFound(id)
                },
            },
    ;

    /// Removes the todo with this id; fails with `NotFound(id)` when there is none.
    fn delete(&mut self, id: i32) -> (r: Result<(), RepositoryError>)
        requires
            old(self).inv(),
        ensures
            final(self).inv(),
            match r {
                Ok(_) => old(self).todos().contains_key(id) && final(self).todos() == old(
                    self,
                ).todos().remove(id),
                Err(e) => {
                    &&& final(self).todos() == old(self).todos()
                    &&& !old(self).todos().contains_key(id) ==> e == RepositoryError::NotFound(id)
                },
            },
    ;
}

/// The ids of a list of labels, in order.
pub open spec fn label_ids(v: Seq<LabelModel>) -> Seq<i32> {
    v.map_values(|l: LabelModel| l.id)
}

/// One row of the outer join of todos with their labels: the label fields are
/// absent for a todo that has no label.
#[derive(Debug, Clone)]
pub struct TodoWithLabelFromRow {
    pub id: i32,
    pub text: String,
    pub completed: bool,
    pub label_id: Option<i32>,
    pub label_name: Option<String>,
}

/// A todo with the labels associated with it.
#[derive(Debug, Clone)]
pub struct TodoEntity {
    pub id: i32,
    pub text: String,
    pub completed: bool,
    pub labels: Vec<Label>,
}

/// The payload that creates a todo.
#[derive(Debug, Clone)]
pub struct CreateTodo {
    pub text: String,
    pub labels: Vec<i32>,
}

/// The payload of a partial update: an absent field is left unchanged.
#[derive(Debug, Clone)]
pub struct UpdateTodo {
    pub text: Option<String>,
    pub completed: Option<bool>,
    pub labels: Option<Vec<i32>>,
}

/// The mathematical value of a joined row.
pub struct RowModel {
    pub id: i32,
    pub text: Seq<char>,
    pub completed: bool,
    pub label: Option<LabelModel>,
}

/// The mathematical value of a todo.
pub struct TodoModel {
    pub id: i32,
    pub text: Seq<char>,
    pub completed: bool,
    pub labels: Seq<LabelModel>,
}

/// A row carries a label when both its label id and its label name are present.
pub open spec fn row_label_model(label_id: Option<i32>, label_name: Option<String>) -> Option<LabelModel> {
    match (label_id, label_name) {
        (Some(id), Some(name)) => Some(LabelModel { id, name: name@ }),
        _ => None,
    }
}

impl View for TodoWithLabelFromRow {
    type V = RowModel;

    open spec fn view(&self) -> RowModel {
        RowModel {
            id: self.id,
            text: self.text@,
            completed: self.completed,
            label: row_label_model(self.label_id, self.label_name),
        }
    }
}

impl View for TodoEntity {
    type V = TodoModel;

    open spec fn view(&self) -> TodoModel {
        TodoModel {
            id: self.id,
            text: self.text@,
            completed: self.completed,
            labels: labels_view(self.labels@),
        }
    }
}

pub open spec fn rows_view(v: Seq<TodoWithLabelFromRow>) -> Seq<RowModel> {
    v.map_values(|r: TodoWithLabelFromRow| r@)
}

pub open spec fn todos_view(v: Seq<TodoEntity>) -> Seq<TodoModel> {
    v.map_values(|t: TodoEntity| t@)
}

/// The ids of a todo list, in order.
pub open spec fn todo_ids(v: Seq<TodoModel>) -> Seq<i32> {
    v.map_values(|t: TodoModel| t.id)
}

/// Whether some todo of the list has this id.
pub open spec fn has_id(acc: Seq<TodoModel>, id: i32) -> bool {
    exists|i: int| 0 <= i < acc.len() && acc[i].id == id
}

/// No two todos of the list share an id.
pub open spec fn unique_ids(acc: Seq<TodoModel>) -> bool {
    forall|i: int, j: int| 0 <= i < acc.len() && 0 <= j < acc.len() && i != j ==> acc[i].id != acc[j].id
}

/// The todo that a row starts when its id has not been seen.
pub open spec fn todo_of_row(row: RowModel) -> TodoModel {
    TodoModel {
        id: row.id,
        text: row.text,
        completed: row.completed,
        labels: match row.label {
            Some(l) => seq![l],
            None => seq![],
        },
    }
}

/// Adds the row's label, if it carries one, to the todo.
pub open spec fn add_row_label(t: TodoModel, row: RowModel) -> TodoModel {
    match row.label {
        Some(l) => TodoModel { id: t.id, text: t.text, completed: t.completed, labels: t.labels.push(l) },
        None => t,
    }
}

/// One step of the fold: the row's label goes to the todo with the row's id,
/// or the row starts a new todo at the end.
pub open spec fn fold_step(acc: Seq<TodoModel>, row: RowModel) -> Seq<TodoModel> {
    if has_id(acc, row.id) {
        let i = choose|i: int| 0 <= i < acc.len() && acc[i].id == row.id;
        acc.update(i, add_row_label(acc[i], row))
    } else {
        acc.push(todo_of_row(row))
    }
}

/// The todos that a sequence of joined rows describes, in first-seen order of their ids.
pub open spec fn fold_rows(rows: Seq<RowModel>) -> Seq<TodoModel>
    decreases rows.len(),
{
    if rows.len() == 0 {
        seq![]
    } else {
        fold_step(fold_rows(rows.drop_last()), rows.last())
    }
}

impl TodoEntity {
    /// A todo that is not completed.
    pub fn new(id: i32, text: String, labels: Vec<Label>) -> (r: TodoEntity)
        ensures
            r@ == (TodoModel { id, text: text@, completed: false, labels: labels_view(labels@) }),
    {
        TodoEntity { id, text, completed: false, labels }
    }

    /// A copy of this todo with equal fields.
    pub fn duplicate(&self) -> (r: TodoEntity)
        ensures
            r@ == self@,
    {
        TodoEntity {
            id: self.id,
            text: self.text.clone(),
            completed: self.completed,
            labels: duplicate_labels(&self.labels),
        }
    }
}

impl PartialEq for TodoEntity {
    fn eq(&self, other: &TodoEntity) -> (r: bool) {
        self.id == other.id && self.text == other.text && self.completed == other.completed
            && labels_equal(&self.labels, &other.labels)
    }
}

impl vstd::std_specs::cmp::PartialEqSpecImpl for TodoEntity {
    open spec fn obeys_eq_spec() -> bool {
        true
    }

    open spec fn eq_spec(&self, other: &TodoEntity) -> bool {
        self@ == other@
    }
}

impl Eq for TodoEntity {
}

/// The longest text, in characters, that a todo may hold.
pub const MAX_TEXT_CHARS: usize = 100;

/// A todo's text holds at least one and at most `MAX_TEXT_CHARS` characters.
pub open spec fn valid_text(text: Seq<char>) -> bool {
    1 <= text.len() <= MAX_TEXT_CHARS
}

/// Whether the text is fit to be a todo's text.
pub fn text_is_valid(text: &str) -> (r: bool)
    ensures
        r == valid_text(text@),
{
    let n = text.unicode_len();
    1 <= n && n <= MAX_TEXT_CHARS
}

impl CreateTodo {
    /// Whether the payload's text is fit to be a todo's text.
    pub fn validate(&self) -> (r: bool)
        ensures
            r == valid_text(self.text@),
    {
        text_is_valid(self.text.as_str())
    }

    pub fn new(text: String, labels: Vec<i32>) -> (r: CreateTodo)
        ensures
            r.text@ == text@,
            r.labels@ == labels@,
    {
        CreateTodo { text, labels }
    }
}

impl UpdateTodo {
    /// Whether the payload's text, if it holds one, is fit to be a todo's text.
    pub fn validate(&self) -> (r: bool)
        ensures
            r == match self.text {
                Some(t) => valid_text(t@),
                None => true,
            },
    {
        match &self.text {
            Some(t) => text_is_valid(t.as_str()),
            None => true,
        }
    }
}

/// The labels that the rows with this id carry, in row order.
pub open spec fn labels_for(rows: Seq<RowModel>, id: i32) -> Seq<LabelModel>
    decreases rows.len(),
{
    if rows.len() == 0 {
        seq![]
    } else {
        let prev = labels_for(rows.drop_last(), id);
        match rows.last().label {
            Some(l) => if rows.last().id == id {
                prev.push(l)
            } else {
                prev
            },
            None => prev,
        }
    }
}

/// The label a row carries, if any.
fn row_label(row: &TodoWithLabelFromRow) -> (r: Option<Label>)
    ensures
        match r {
            Some(l) => row@.label == Some(l@),
            None => row@.label.is_none(),
        },
{
    match row.label_id {
        Some(id) => match &row.label_name {
            Some(name) => Some(Label { id, name: name.clone() }),
            None => None,
        },
        None => None,
    }
}

/// The first position of a todo with this id.
pub(crate) fn position_of(accum: &Vec<TodoEntity>, id: i32) -> (r: Option<usize>)
    ensures
        match r {
            Some(i) => i < accum@.len() && accum@[i as int].id == id,
            None => forall|j: int| 0 <= j < accum@.len() ==> accum@[j].id != id,
        },
{
    let mut i: usize = 0;
    while i < accum.len()
        invariant
            i <= accum@.len(),
            forall|j: int| 0 <= j < i ==> accum@[j].id != id,
        decreases accum.len() - i,
    {
        if accum[i].id == id {
            return Some(i);
        }
        i = i + 1;
    }
    None
}

/// Folds joined rows into todos: one todo per distinct id, in the order in
/// which the ids first appear, each with the labels of its rows in row order.
/// Rows of one todo need not be adjacent, and labels are not deduplicated.
pub fn fold_entities(rows: Vec<TodoWithLabelFromRow>) -> (r: Vec<TodoEntity>)
    ensures
        todos_view(r@) == fold_rows(rows_view(rows@)),
{
    let mut accum: Vec<TodoEntity> = Vec::new();
    let mut k: usize = 0;
    while k < rows.len()
        invariant
            k <= rows@.len(),
            todos_view(accum@) == fold_rows(rows_view(rows@).take(k as int)),
            unique_ids(todos_view(accum@)),
        decreases rows.len() - k,
    {
        let row = &rows[k];
        let ghost acc0 = todos_view(accum@);
        proof {
            assert(rows_view(rows@).take(k + 1).drop_last() =~= rows_view(rows@).take(k as int));
            assert(rows_view(rows@).take(k + 1).last() == row@);
        }
        let label = row_label(row);
        match position_of(&accum, row.id) {
            Some(i) => {
                proof {
                    assert(acc0[i as int].id == row.id);
                    let c = choose|c: int| 0 <= c < acc0.len() && acc0[c].id == row.id;
                    assert(c == i);
                }
                match label {
                    Some(l) => {
                        let ghost before = accum@[i as int];
                        accum[i].labels.push(l);
                        proof {
                            assert(labels_view(accum@[i as int].labels@) =~= labels_view(before.labels@).push(l@));
                            assert(accum@[i as int]@ == add_row_label(acc0[i as int], row@));
                            assert(todos_view(accum@) =~= acc0.update(i as int, add_row_label(acc0[i as int], row@)));
                        }
                    },
                    None => {},
                }
            },
            None => {
                proof {
                    assert(!has_id(acc0, row.id));
                }
                let labels = match label {
                    Some(l) => vec![l],
                    None => Vec::new(),
                };
                proof {
                    assert(labels_view(labels@) =~= todo_of_row(row@).labels);
                }
                accum.push(
                    TodoEntity { id: row.id, text: row.text.clone(), completed: row.completed, labels },
                );
                proof {
                    assert(todos_view(accum@) =~= acc0.push(todo_of_row(row@)));
                }
            },
        }
        k = k + 1;
    }
    proof {
        assert(rows_view(rows@).take(rows@.len() as int) =~= rows_view(rows@));
    }
    accum
}

} // verus!
