use vstd::prelude::*;

use crate::error::RepositoryError;
use crate::todo::{fold_entities, fold_rows, rows_view, TodoEntity, TodoWithLabelFromRow, UpdateTodo};

verus! {

/// sqlx's error type, carried through without looking inside.
#[verifier::external_type_specification]
#[verifier::external_body]
pub struct ExSqlxError(sqlx::Error);

/// Whether a sqlx error is the `RowNotFound` variant.
pub uninterp spec fn row_not_found_of(e: sqlx::Error) -> bool;

/// Relies on sqlx::Error's `RowNotFound` variant, which a query that expected
/// a row reports when none came back: the test depends on the error alone.
#[verifier::external_body]
fn is_row_not_found(e: &sqlx::Error) -> (r: bool)
    ensures
        r == row_not_found_of(*e),
{
    matches!(e, sqlx::Error::RowNotFound)
}

/// The repository error for a storage failure on the todo `id`: a missing row
/// is `NotFound(id)`, and anything else `Unexpected` with its description.
pub fn classify_failure(id: i32, row_not_found: bool, detail: String) -> (r: RepositoryError)
    ensures
        row_not_found ==> r == RepositoryError::NotFound(id),
        !row_not_found ==> r is Unexpected && r->Unexpected_0@ == detail@,
{
    if row_not_found {
        RepositoryError::NotFound(id)
    } else {
        RepositoryError::Unexpected(detail)
    }
}

/// The repository error for a failure that sqlx reported on the record `id`:
/// a missing row is `NotFound(id)`, anything else `Unexpected` with the
/// error's description.
pub fn repository_error(id: i32, e: &sqlx::Error) -> (r: RepositoryError)
    ensures
        row_not_found_of(*e) ==> r == RepositoryError::NotFound(id),
        !row_not_found_of(*e) ==> r is Unexpected && exists|d: String|
            vstd::string::to_string_from_display_ensures::<sqlx::Error>(e, d) && r->Unexpected_0@
                == d@,
{
    let missing = is_row_not_found(e);
    let detail = e.to_string();
    classify_failure(id, missing, detail)
}

/// The todo that the joined rows of a lookup by `id` describe: the first
/// todo that folding them yields, or `NotFound(id)` when there is no row.
pub fn find_from_rows(id: i32, rows: Vec<TodoWithLabelFromRow>) -> (r: Result<TodoEntity, RepositoryError>)
    ensures
        match r {
            Ok(t) => fold_rows(rows_view(rows@)).len() > 0 && t@ == fold_rows(rows_view(rows@))[0],
            Err(e) => fold_rows(rows_view(rows@)).len() == 0 && e == RepositoryError::NotFound(id),
        },
{
    let todos = fold_entities(rows);
    if todos.len() == 0 {
        Err(RepositoryError::NotFound(id))
    } else {
        proof {
            assert(crate::todo::todos_view(todos@)[0] == todos@[0]@);
        }
        Ok(todos[0].duplicate())
    }
}

/// The text and completion flag that a partial update writes to the row of
/// `current`: each field the payload holds, else the stored one.
pub fn merged_fields(current: &TodoEntity, payload: &UpdateTodo) -> (r: (String, bool))
    ensures
        r.0@ == match payload.text {
            Some(t) => t@,
            None => current.text@,
        },
        r.1 == match payload.completed {
            Some(b) => b,
            None => current.completed,
        },
{
    let text = match &payload.text {
        Some(t) => t.clone(),
        None => current.text.clone(),
    };
    let completed = match payload.completed {
        Some(b) => b,
        None => current.completed,
    };
    (text, completed)
}

/// The outcome of deleting the row `id`, given how many rows the statement
/// removed: none means that there was no such record.
pub fn delete_outcome(id: i32, rows_affected: u64) -> (r: Result<(), RepositoryError>)
    ensures
        rows_affected == 0 ==> r == Err::<(), RepositoryError>(RepositoryError::NotFound(id)),
        rows_affected > 0 ==> r is Ok,
{
    if rows_affected == 0 {
        Err(RepositoryError::NotFound(id))
    } else {
        Ok(())
    }
}

} // verus!
