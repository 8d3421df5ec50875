use todo_repository::error::RepositoryError;
use todo_repository::label::Label;
use todo_repository::memory::{repeats_an_id, TodoRepositoryForMemory};
use todo_repository::todo::{CreateTodo, TodoEntity, TodoRepository, UpdateTodo};

fn catalog() -> Vec<Label> {
    vec![
        Label::new(1, String::from("home")),
        Label::new(2, String::from("work")),
    ]
}

#[test]
fn todo_crud_scenario() {
    let text = "todo text".to_string();
    let id = 1;
    let label = Label {
        id: 1,
        name: String::from("test label1"),
    };
    let labels = vec![label.clone()];
    let expected = TodoEntity::new(id, text.clone(), labels.clone());

    // create
    let mut repository = TodoRepositoryForMemory::new(labels);
    let todo = repository
        .create(CreateTodo {
            text,
            labels: vec![label.id],
        })
        .expect("failed create todo");
    assert_eq!(expected, todo);

    // find
    let todo = repository.find(todo.id).unwrap();
    assert_eq!(expected, todo);

    let todo = repository.all().expect("failed get all todo");
    assert_eq!(vec![expected], todo);

    let text = "update todo text".to_string();
    let todo = repository
        .update(
            1,
            UpdateTodo {
                text: Some(text.clone()),
                completed: Some(true),
                labels: Some(vec![]),
            },
        )
        .expect("failed update todo.");
    assert_eq!(
        TodoEntity {
            id,
            text,
            completed: true,
            labels: vec![],
        },
        todo
    );

    // delete
    let res = repository.delete(id);
    assert!(res.is_ok());
}

#[test]
fn create_then_find_round_trip() {
    let mut repo = TodoRepositoryForMemory::new(catalog());
    let created = repo
        .create(CreateTodo::new(String::from("buy milk"), vec![1]))
        .unwrap();
    let found = repo.find(created.id).unwrap();
    assert!(!found.completed);
    assert_eq!(found.text, "buy milk");
    assert_eq!(found.labels, vec![Label::new(1, String::from("home"))]);
    assert_eq!(found, created);
}

#[test]
fn create_with_unknown_label_is_rejected() {
    let mut repo = TodoRepositoryForMemory::new(catalog());
    let res = repo.create(CreateTodo::new(String::from("x"), vec![1, 9]));
    assert!(matches!(res, Err(RepositoryError::Unexpected(_))));
    assert_eq!(repo.all().unwrap(), vec![]);
}

#[test]
fn create_resolves_labels_in_payload_order() {
    let mut repo = TodoRepositoryForMemory::new(catalog());
    let t = repo
        .create(CreateTodo::new(String::from("x"), vec![2, 1]))
        .unwrap();
    assert_eq!(
        t.labels,
        vec![
            Label::new(2, String::from("work")),
            Label::new(1, String::from("home"))
        ]
    );
}

#[test]
fn update_only_completed_keeps_text_and_labels() {
    let mut repo = TodoRepositoryForMemory::new(catalog());
    let t = repo
        .create(CreateTodo::new(String::from("write report"), vec![2]))
        .unwrap();
    let u = repo
        .update(
            t.id,
            UpdateTodo {
                text: None,
                completed: Some(true),
                labels: None,
            },
        )
        .unwrap();
    assert!(u.completed);
    assert_eq!(u.text, "write report");
    assert_eq!(u.labels, t.labels);
    assert_eq!(repo.find(t.id).unwrap(), u);
}

#[test]
fn update_with_empty_labels_clears_them() {
    let mut repo = TodoRepositoryForMemory::new(catalog());
    let t = repo
        .create(CreateTodo::new(String::from("x"), vec![1, 2]))
        .unwrap();
    repo.update(
        t.id,
        UpdateTodo {
            text: None,
            completed: None,
            labels: Some(vec![]),
        },
    )
    .unwrap();
    assert!(repo.find(t.id).unwrap().labels.is_empty());
}

#[test]
fn update_with_unknown_label_changes_nothing() {
    let mut repo = TodoRepositoryForMemory::new(catalog());
    let t = repo
        .create(CreateTodo::new(String::from("x"), vec![1]))
        .unwrap();
    let res = repo.update(
        t.id,
        UpdateTodo {
            text: Some(String::from("y")),
            completed: None,
            labels: Some(vec![3]),
        },
    );
    assert!(matches!(res, Err(RepositoryError::Unexpected(_))));
    assert_eq!(repo.find(t.id).unwrap(), t);
}

#[test]
fn delete_then_find_is_not_found() {
    let mut repo = TodoRepositoryForMemory::new(catalog());
    let t = repo
        .create(CreateTodo::new(String::from("x"), vec![]))
        .unwrap();
    assert_eq!(repo.delete(t.id), Ok(()));
    assert_eq!(repo.find(t.id), Err(RepositoryError::NotFound(t.id)));
}

#[test]
fn update_and_delete_of_missing_id_are_not_found() {
    let mut repo = TodoRepositoryForMemory::new(catalog());
    let t = repo
        .create(CreateTodo::new(String::from("x"), vec![1]))
        .unwrap();
    let res = repo.update(
        42,
        UpdateTodo {
            text: Some(String::from("y")),
            completed: Some(true),
            labels: None,
        },
    );
    assert_eq!(res, Err(RepositoryError::NotFound(42)));
    assert_eq!(repo.delete(42), Err(RepositoryError::NotFound(42)));
    assert_eq!(repo.all().unwrap(), vec![t]);
}

#[test]
fn second_update_wins_for_text_and_labels_together() {
    let mut repo = TodoRepositoryForMemory::new(catalog());
    let t = repo
        .create(CreateTodo::new(String::from("x"), vec![]))
        .unwrap();
    repo.update(
        t.id,
        UpdateTodo {
            text: Some(String::from("first")),
            completed: None,
            labels: Some(vec![1]),
        },
    )
    .unwrap();
    repo.update(
        t.id,
        UpdateTodo {
            text: Some(String::from("second")),
            completed: None,
            labels: Some(vec![2]),
        },
    )
    .unwrap();
    let f = repo.find(t.id).unwrap();
    assert_eq!(f.text, "second");
    assert_eq!(f.labels, vec![Label::new(2, String::from("work"))]);
}

#[test]
fn all_lists_most_recent_first() {
    let mut repo = TodoRepositoryForMemory::new(catalog());
    for text in ["a", "b", "c"] {
        repo.create(CreateTodo::new(String::from(text), vec![]))
            .unwrap();
    }
    let ids: Vec<i32> = repo.all().unwrap().iter().map(|t| t.id).collect();
    assert_eq!(ids, vec![3, 2, 1]);
}

#[test]
fn ids_are_not_reused_after_delete() {
    let mut repo = TodoRepositoryForMemory::new(catalog());
    let a = repo.create(CreateTodo::new(String::from("a"), vec![])).unwrap();
    let b = repo.create(CreateTodo::new(String::from("b"), vec![])).unwrap();
    repo.delete(a.id).unwrap();
    let c = repo.create(CreateTodo::new(String::from("c"), vec![])).unwrap();
    assert_eq!(c.id, 3);
    assert_eq!(repo.find(b.id).unwrap().text, "b");
}

fn create_through_contract<R: TodoRepository>(repo: &mut R, text: &str) -> TodoEntity {
    TodoRepository::create(repo, CreateTodo::new(String::from(text), vec![1])).unwrap()
}

#[test]
fn store_works_through_the_repository_trait() {
    let mut repo = TodoRepositoryForMemory::new(catalog());
    let t = create_through_contract(&mut repo, "via trait");
    assert_eq!(TodoRepository::find(&repo, t.id).unwrap(), t);
    assert_eq!(TodoRepository::all(&repo).unwrap(), vec![t.clone()]);
    assert_eq!(TodoRepository::delete(&mut repo, t.id), Ok(()));
    assert_eq!(
        TodoRepository::delete(&mut repo, t.id),
        Err(RepositoryError::NotFound(t.id))
    );
}

#[test]
fn create_with_repeated_label_id_is_rejected() {
    let mut repo = TodoRepositoryForMemory::new(catalog());
    let res = repo.create(CreateTodo::new(String::from("x"), vec![1, 1]));
    assert!(matches!(res, Err(RepositoryError::Unexpected(_))));
    assert_eq!(repo.all().unwrap(), vec![]);
}

#[test]
fn update_with_repeated_label_id_changes_nothing() {
    let mut repo = TodoRepositoryForMemory::new(catalog());
    let t = repo
        .create(CreateTodo::new(String::from("x"), vec![1]))
        .unwrap();
    let res = repo.update(
        t.id,
        UpdateTodo {
            text: None,
            completed: None,
            labels: Some(vec![2, 1, 2]),
        },
    );
    assert!(matches!(res, Err(RepositoryError::Unexpected(_))));
    assert_eq!(repo.find(t.id).unwrap(), t);
}

#[test]
fn repeated_ids_are_detected() {
    assert!(!repeats_an_id(&vec![]));
    assert!(!repeats_an_id(&vec![3, 1, 2]));
    assert!(repeats_an_id(&vec![3, 1, 3]));
}
