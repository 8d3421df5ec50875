use todo_repository::label::Label;
use todo_repository::todo::{fold_entities, TodoEntity, TodoWithLabelFromRow};

fn row(id: i32, text: &str, label: Option<&Label>) -> TodoWithLabelFromRow {
    TodoWithLabelFromRow {
        id,
        text: String::from(text),
        completed: false,
        label_id: label.map(|l| l.id),
        label_name: label.map(|l| l.name.clone()),
    }
}

#[test]
fn fold_entities_test() {
    let label_1 = Label {
        id: 1,
        name: String::from("label 1"),
    };
    let label_2 = Label {
        id: 2,
        name: String::from("label 2"),
    };

    let rows = vec![
        TodoWithLabelFromRow {
            id: 1,
            text: String::from("todo 1"),
            completed: false,
            label_id: Some(label_1.id),
            label_name: Some(label_1.name.clone()),
        },
        TodoWithLabelFromRow {
            id: 1,
            text: String::from("todo 1"),
            completed: false,
            label_id: Some(label_2.id),
            label_name: Some(label_2.name.clone()),
        },
        TodoWithLabelFromRow {
            id: 2,
            text: String::from("todo 2"),
            completed: false,
            label_id: Some(label_1.id),
            label_name: Some(label_1.name.clone()),
        },
    ];
    let res = fold_entities(rows);
    assert_eq!(
        res,
        vec![
            TodoEntity {
                id: 1,
                text: String::from("todo 1"),
                completed: false,
                labels: vec![label_1.clone(), label_2.clone(),],
            },
            TodoEntity {
                id: 2,
                text: String::from("todo 2"),
                completed: false,
                labels: vec![label_1.clone(),]
            },
        ]
    );
}

#[test]
fn fold_row_without_label_gives_empty_labels() {
    let rows = vec![TodoWithLabelFromRow {
        id: 7,
        text: String::from("lonely"),
        completed: true,
        label_id: None,
        label_name: None,
    }];
    let res = fold_entities(rows);
    assert_eq!(
        res,
        vec![TodoEntity {
            id: 7,
            text: String::from("lonely"),
            completed: true,
            labels: vec![],
        }]
    );
}

#[test]
fn fold_empty_input_gives_no_todos() {
    assert_eq!(fold_entities(vec![]), Vec::<TodoEntity>::new());
}

#[test]
fn fold_groups_rows_that_are_not_adjacent() {
    let a = Label::new(1, String::from("a"));
    let b = Label::new(2, String::from("b"));
    let rows = vec![
        row(5, "five", Some(&a)),
        row(3, "three", None),
        row(5, "five", Some(&b)),
    ];
    let res = fold_entities(rows);
    assert_eq!(res.len(), 2);
    assert_eq!(res[0].id, 5);
    assert_eq!(res[0].labels, vec![a.clone(), b.clone()]);
    assert_eq!(res[1].id, 3);
    assert!(res[1].labels.is_empty());
}

#[test]
fn fold_keeps_duplicate_labels() {
    let a = Label::new(1, String::from("a"));
    let res = fold_entities(vec![row(1, "t", Some(&a)), row(1, "t", Some(&a))]);
    assert_eq!(res.len(), 1);
    assert_eq!(res[0].labels, vec![a.clone(), a.clone()]);
}

#[test]
fn fold_row_with_id_but_no_name_carries_no_label() {
    let mut r = row(1, "t", None);
    r.label_id = Some(4);
    let res = fold_entities(vec![r]);
    assert!(res[0].labels.is_empty());
}
