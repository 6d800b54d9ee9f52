use taskboard::app::tasks::make_tasks_board;
use taskboard::model::tasks::{TaskCategoryDescription, TaskDescription};

fn task(task_id: &str, label: &str, description: &str, category_id: &str) -> TaskDescription {
    TaskDescription {
        task_id: task_id.to_string(),
        label: label.to_string(),
        description: description.to_string(),
        category_id: category_id.to_string(),
    }
}

fn category(category_id: &str, label: &str) -> TaskCategoryDescription {
    TaskCategoryDescription {
        category_id: category_id.to_string(),
        label: label.to_string(),
    }
}

#[test]
fn board_single_category_single_task() {
    let tasks = [task("t1", "label", "desc", "c1")];
    let categories = [category("c1", "ToDo")];

    let board = make_tasks_board(&tasks, &categories).unwrap();

    assert_eq!(board.ordered_categories.len(), 1);
    let slot = &board.ordered_categories[0];
    assert_eq!(slot.category_id, "c1");
    assert_eq!(slot.label, "ToDo");
    assert_eq!(slot.ordered_tasks.len(), 1);
    assert_eq!(slot.ordered_tasks[0].task_id, "t1");
    assert_eq!(slot.ordered_tasks[0].label, "label");
    assert_eq!(slot.ordered_tasks[0].description, "desc");
}

#[test]
fn board_missing_category_fails() {
    let tasks = [task("t1", "label", "desc", "missing")];
    let categories = [category("c1", "ToDo")];

    let err = make_tasks_board(&tasks, &categories).unwrap_err();

    assert_eq!(err.task_id, "t1");
    assert_eq!(err.category_id, "missing");
}

#[test]
fn board_keeps_category_and_task_order() {
    let tasks = [
        task("t1", "a", "", "c2"),
        task("t2", "b", "", "c1"),
        task("t3", "c", "", "c2"),
    ];
    let categories = [category("c1", "ToDo"), category("c2", "In progress")];

    let board = make_tasks_board(&tasks, &categories).unwrap();

    assert_eq!(board.ordered_categories.len(), 2);
    assert_eq!(board.ordered_categories[0].category_id, "c1");
    assert_eq!(board.ordered_categories[0].ordered_tasks.len(), 1);
    assert_eq!(board.ordered_categories[0].ordered_tasks[0].task_id, "t2");
    assert_eq!(board.ordered_categories[1].category_id, "c2");
    assert_eq!(board.ordered_categories[1].ordered_tasks.len(), 2);
    assert_eq!(board.ordered_categories[1].ordered_tasks[0].task_id, "t1");
    assert_eq!(board.ordered_categories[1].ordered_tasks[1].task_id, "t3");
}

#[test]
fn board_empty_inputs() {
    let tasks: [TaskDescription; 0] = [];
    let categories: [TaskCategoryDescription; 0] = [];

    let board = make_tasks_board(&tasks, &categories).unwrap();

    assert_eq!(board.ordered_categories.len(), 0);
}

#[test]
fn board_duplicate_category_id_last_wins() {
    let tasks = [task("t1", "a", "", "c1")];
    let categories = [category("c1", "first"), category("c1", "second")];

    let board = make_tasks_board(&tasks, &categories).unwrap();

    assert_eq!(board.ordered_categories.len(), 2);
    assert_eq!(board.ordered_categories[0].ordered_tasks.len(), 0);
    assert_eq!(board.ordered_categories[1].ordered_tasks.len(), 1);
    assert_eq!(board.ordered_categories[1].ordered_tasks[0].task_id, "t1");
}
