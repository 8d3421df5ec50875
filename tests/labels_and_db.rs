use todo_repository::db::{classify_failure, delete_outcome, find_from_rows, merged_fields, repository_error};
use todo_repository::error::RepositoryError;
use todo_repository::label::{Label, LabelRepositoryForMemory};
use todo_repository::todo::{
    text_is_valid, CreateTodo, TodoEntity, TodoWithLabelFromRow, UpdateTodo,
};

#[test]
fn label_store_create_all_delete() {
    let mut store = LabelRepositoryForMemory::new();
    let a = store.create(String::from("urgent")).unwrap();
    let b = store.create(String::from("later")).unwrap();
    assert_eq!(a, Label::new(1, String::from("urgent")));
    assert_eq!(b.id, 2);
    assert_eq!(store.all(), vec![a.clone(), b.clone()]);
    assert_eq!(store.delete(1), Ok(()));
    assert_eq!(store.all(), vec![b]);
    assert_eq!(store.delete(1), Err(RepositoryError::NotFound(1)));
}

#[test]
fn text_validation_bounds() {
    assert!(!text_is_valid(""));
    assert!(text_is_valid("a"));
    assert!(text_is_valid(&"x".repeat(100)));
    assert!(!text_is_valid(&"x".repeat(101)));
    assert!(text_is_valid(&"é".repeat(100)));
    assert!(!CreateTodo::new(String::new(), vec![]).validate());
    let u = UpdateTodo {
        text: None,
        completed: Some(true),
        labels: None,
    };
    assert!(u.validate());
}

#[test]
fn classify_failure_maps_missing_row_to_not_found() {
    assert_eq!(
        classify_failure(3, true, String::from("none")),
        RepositoryError::NotFound(3)
    );
    assert_eq!(
        classify_failure(3, false, String::from("boom")),
        RepositoryError::Unexpected(String::from("boom"))
    );
}

#[test]
fn sqlx_errors_map_to_repository_errors() {
    assert_eq!(
        repository_error(8, &sqlx::Error::RowNotFound),
        RepositoryError::NotFound(8)
    );
    let e = repository_error(8, &sqlx::Error::PoolTimedOut);
    assert_eq!(
        e,
        RepositoryError::Unexpected(sqlx::Error::PoolTimedOut.to_string())
    );
}

#[test]
fn find_from_rows_takes_first_todo_or_not_found() {
    assert_eq!(find_from_rows(4, vec![]), Err(RepositoryError::NotFound(4)));
    let rows = vec![TodoWithLabelFromRow {
        id: 4,
        text: String::from("t"),
        completed: false,
        label_id: Some(1),
        label_name: Some(String::from("l")),
    }];
    assert_eq!(
        find_from_rows(4, rows),
        Ok(TodoEntity::new(4, String::from("t"), vec![Label::new(1, String::from("l"))]))
    );
}

#[test]
fn merged_fields_prefers_payload() {
    let current = TodoEntity::new(1, String::from("old"), vec![]);
    let keep = UpdateTodo {
        text: None,
        completed: None,
        labels: None,
    };
    assert_eq!(merged_fields(&current, &keep), (String::from("old"), false));
    let change = UpdateTodo {
        text: Some(String::from("new")),
        completed: Some(true),
        labels: None,
    };
    assert_eq!(merged_fields(&current, &change), (String::from("new"), true));
}

#[test]
fn delete_outcome_without_rows_is_not_found() {
    assert_eq!(delete_outcome(5, 0), Err(RepositoryError::NotFound(5)));
    assert_eq!(delete_outcome(5, 1), Ok(()));
}
