use vstd::prelude::*;

use crate::error::RepositoryError;
use crate::label::LabelModel;
use crate::memory::{
    created, deleted, found, labels_accepted, resolved, update_done, TodoRepositoryForMemory,
};
use crate::todo::{
    add_row_label, fold_rows, has_id, labels_for, todo_of_row, unique_ids, CreateTodo, RowModel, TodoEntity,
    TodoModel, UpdateTodo,
};

verus! {

/// A single joined row without a label folds into one todo with no labels.
pub proof fn law_fold_single_row_without_label(row: RowModel)
    requires
        row.label.is_none(),
    ensures
        fold_rows(seq![row]).len() == 1,
        fold_rows(seq![row])[0].id == row.id,
        fold_rows(seq![row])[0].text == row.text,
        fold_rows(seq![row])[0].completed == row.completed,
        fold_rows(seq![row])[0].labels.len() == 0,
{
    assert(seq![row].drop_last() =~= Seq::<RowModel>::empty());
    assert(fold_rows(Seq::<RowModel>::empty()) == Seq::<TodoModel>::empty());
    assert(!has_id(Seq::<TodoModel>::empty(), row.id));
    assert(fold_rows(seq![row]) == seq![todo_of_row(row)]);
}

/// Creating a todo whose label ids all name labels, none twice, then finding it by the
/// id it was given, yields a todo that is not completed, with the payload's
/// text and the catalog's labels for the payload's ids.
pub proof fn law_create_then_find(
    s0: TodoRepositoryForMemory,
    s1: TodoRepositoryForMemory,
    payload: CreateTodo,
    r: Result<TodoEntity, RepositoryError>,
    f: Result<TodoEntity, RepositoryError>,
)
    requires
        s0.inv(),
        labels_accepted(s0.catalog(), payload.labels@),
        s0.next() < i32::MAX,
        created(s0, s1, payload, r),
        found(s1, r->Ok_0.id, f),
    ensures
        r is Ok,
        f is Ok,
        f->Ok_0@ == r->Ok_0@,
        !f->Ok_0.completed,
        f->Ok_0.text@ == payload.text@,
        f->Ok_0@.labels == resolved(s0.catalog(), payload.labels@),
{
    let t = r->Ok_0;
    assert(s1.todos().contains_key(t.id));
}

/// An update that sets only `completed` leaves the todo's text and labels as
/// they were.
pub proof fn law_update_completed_keeps_rest(
    s0: TodoRepositoryForMemory,
    s1: TodoRepositoryForMemory,
    id: i32,
    payload: UpdateTodo,
    r: Result<TodoEntity, RepositoryError>,
)
    requires
        s0.inv(),
        s0.todos().contains_key(id),
        payload.text.is_none(),
        payload.labels.is_none(),
        payload.completed is Some,
        update_done(s0, s1, id, payload, r),
    ensures
        r is Ok,
        s1.todos()[id].completed == payload.completed->Some_0,
        s1.todos()[id].text == s0.todos()[id].text,
        s1.todos()[id].labels == s0.todos()[id].labels,
{
}

/// An update with an empty list of label ids removes every label of the
/// todo: a later find returns no labels.
pub proof fn law_update_empty_labels_clears(
    s0: TodoRepositoryForMemory,
    s1: TodoRepositoryForMemory,
    id: i32,
    payload: UpdateTodo,
    r: Result<TodoEntity, RepositoryError>,
    f: Result<TodoEntity, RepositoryError>,
)
    requires
        s0.inv(),
        s0.todos().contains_key(id),
        payload.labels is Some,
        payload.labels->Some_0@.len() == 0,
        update_done(s0, s1, id, payload, r),
        found(s1, id, f),
    ensures
        r is Ok,
        f is Ok,
        f->Ok_0.labels@.len() == 0,
{
    assert(resolved(s0.catalog(), payload.labels->Some_0@).len() == 0);
}

/// Deleting an existing todo, then finding its id, gives `NotFound(id)`.
pub proof fn law_delete_then_find(
    s0: TodoRepositoryForMemory,
    s1: TodoRepositoryForMemory,
    id: i32,
    r: Result<(), RepositoryError>,
    f: Result<TodoEntity, RepositoryError>,
)
    requires
        s0.inv(),
        s0.todos().contains_key(id),
        deleted(s0, s1, id, r),
        found(s1, id, f),
    ensures
        r is Ok,
        f == Err::<TodoEntity, RepositoryError>(RepositoryError::NotFound(id)),
{
}

/// Updating or deleting an absent id gives `NotFound(id)` and changes nothing.
pub proof fn law_absent_id_not_found(
    s0: TodoRepositoryForMemory,
    s_update: TodoRepositoryForMemory,
    s_delete: TodoRepositoryForMemory,
    id: i32,
    payload: UpdateTodo,
    ru: Result<TodoEntity, RepositoryError>,
    rd: Result<(), RepositoryError>,
)
    requires
        s0.inv(),
        !s0.todos().contains_key(id),
        update_done(s0, s_update, id, payload, ru),
        deleted(s0, s_delete, id, rd),
    ensures
        ru == Err::<TodoEntity, RepositoryError>(RepositoryError::NotFound(id)),
        rd == Err::<(), RepositoryError>(RepositoryError::NotFound(id)),
        s_update == s0,
        s_delete == s0,
{
}

/// Two updates of one todo, each holding a text and a list of distinct
/// label ids of the catalog,
/// take effect one after the other: the stored todo ends with the text and
/// the labels of the same update, the later one, never a mix of the two.
pub proof fn law_updates_do_not_interleave(
    s0: TodoRepositoryForMemory,
    s1: TodoRepositoryForMemory,
    s2: TodoRepositoryForMemory,
    id: i32,
    first: UpdateTodo,
    second: UpdateTodo,
    r1: Result<TodoEntity, RepositoryError>,
    r2: Result<TodoEntity, RepositoryError>,
)
    requires
        s0.inv(),
        s0.todos().contains_key(id),
        first.text is Some,
        first.labels is Some,
        second.text is Some,
        second.labels is Some,
        labels_accepted(s0.catalog(), first.labels->Some_0@),
        labels_accepted(s0.catalog(), second.labels->Some_0@),
        update_done(s0, s1, id, first, r1),
        update_done(s1, s2, id, second, r2),
    ensures
        r1 is Ok,
        r2 is Ok,
        s2.todos()[id].text == second.text->Some_0@,
        s2.todos()[id].labels == resolved(s0.catalog(), second.labels->Some_0@),
{
}

proof fn lemma_labels_for_absent(rows: Seq<RowModel>, id: i32)
    requires
        forall|j: int| 0 <= j < rows.len() ==> rows[j].id != id,
    ensures
        labels_for(rows, id) == Seq::<LabelModel>::empty(),
    decreases rows.len(),
{
    if rows.len() > 0 {
        lemma_labels_for_absent(rows.drop_last(), id);
    }
}

/// Folding joined rows gives one todo per distinct id, whatever the order of
/// the rows: no two todos share an id, every row's id has its todo, and each
/// todo holds exactly the labels of the rows with its id, in row order.
pub proof fn law_fold_collects_labels(rows: Seq<RowModel>)
    ensures
        unique_ids(fold_rows(rows)),
        forall|j: int| 0 <= j < rows.len() ==> has_id(fold_rows(rows), #[trigger] rows[j].id),
        forall|k: int|
            0 <= k < fold_rows(rows).len() ==> (#[trigger] fold_rows(rows)[k]).labels == labels_for(
                rows,
                fold_rows(rows)[k].id,
            ),
    decreases rows.len(),
{
    if rows.len() > 0 {
        let p = rows.drop_last();
        let row = rows.last();
        law_fold_collects_labels(p);
        let f0 = fold_rows(p);
        let f = fold_rows(rows);
        assert(f == crate::todo::fold_step(f0, row));
        if has_id(f0, row.id) {
            let i = choose|i: int| 0 <= i < f0.len() && f0[i].id == row.id;
            assert(f == f0.update(i, add_row_label(f0[i], row)));
            assert(unique_ids(f)) by {
                assert forall|a: int, b: int| 0 <= a < f.len() && 0 <= b < f.len() && a != b implies f[a].id
                    != f[b].id by {
                    assert(f[a].id == f0[a].id && f[b].id == f0[b].id);
                }
            }
            assert forall|j: int| 0 <= j < rows.len() implies has_id(f, #[trigger] rows[j].id) by {
                if j < p.len() {
                    assert(p[j] == rows[j]);
                    let a = choose|a: int| 0 <= a < f0.len() && f0[a].id == p[j].id;
                    assert(f[a].id == f0[a].id);
                } else {
                    assert(f[i].id == row.id);
                }
            }
            assert forall|k: int| 0 <= k < f.len() implies (#[trigger] f[k]).labels == labels_for(
                rows,
                f[k].id,
            ) by {
                assert(f0[k].labels == labels_for(p, f0[k].id));
                if k != i {
                    assert(f0[k].id != row.id);
                }
            }
        } else {
            assert(f == f0.push(todo_of_row(row)));
            assert forall|j: int| 0 <= j < p.len() implies p[j].id != row.id by {
                assert(has_id(f0, p[j].id));
            }
            lemma_labels_for_absent(p, row.id);
            assert(unique_ids(f)) by {
                assert forall|a: int, b: int| 0 <= a < f.len() && 0 <= b < f.len() && a != b implies f[a].id
                    != f[b].id by {
                    if a < f0.len() && b < f0.len() {
                    } else if a < f0.len() {
                        assert(has_id(f0, f[a].id));
                    } else {
                        assert(has_id(f0, f[b].id));
                    }
                }
            }
            assert forall|j: int| 0 <= j < rows.len() implies has_id(f, #[trigger] rows[j].id) by {
                if j < p.len() {
                    assert(p[j] == rows[j]);
                    let a = choose|a: int| 0 <= a < f0.len() && f0[a].id == p[j].id;
                    assert(f[a].id == f0[a].id);
                } else {
                    assert(f[f0.len() as int].id == row.id);
                }
            }
            assert forall|k: int| 0 <= k < f.len() implies (#[trigger] f[k]).labels == labels_for(
                rows,
                f[k].id,
            ) by {
                if k < f0.len() {
                    assert(f0[k].labels == labels_for(p, f0[k].id));
                    assert(f0[k].id != row.id);
                } else {
                    assert(labels_for(p, row.id) == Seq::<LabelModel>::empty());
                    match row.label {
                        Some(l) => {
                            assert(Seq::<LabelModel>::empty().push(l) =~= seq![l]);
                        },
                        None => {},
                    }
                }
            }
        }
    }
}

} // verus!
