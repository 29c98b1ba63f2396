use things_sak::display::{action_line, name_report, non_empty, project_line, project_report, status_symbol, todo_line, todo_report};
use things_sak::types::{ActionResult, BuiltinList, ProjectItem, StatusFilter, TodoItem};

fn todo() -> TodoItem {
    TodoItem {
        id: "id1".to_string(),
        name: "Buy milk".to_string(),
        status: "open".to_string(),
        notes: None,
        deadline: Some("2026-07-10".to_string()),
        tags: Some("errand, , home".to_string()),
        project: Some("Groceries".to_string()),
        area: Some("Life".to_string()),
        list: Some("Today".to_string()),
    }
}

#[test]
fn todo_line_shows_every_part() {
    assert_eq!(todo_line(&todo()), "○ Buy milk · Groceries · due 2026-07-10 #errand #home [Today]");
    let mut t = todo();
    t.project = None;
    t.deadline = None;
    t.tags = None;
    t.list = None;
    t.status = "completed".to_string();
    assert_eq!(todo_line(&t), "✓ Buy milk · Life");
    t.area = None;
    t.status = "canceled".to_string();
    assert_eq!(todo_line(&t), "✕ Buy milk");
}

#[test]
fn status_symbols() {
    assert_eq!(status_symbol("completed"), "✓");
    assert_eq!(status_symbol("canceled"), "✕");
    assert_eq!(status_symbol("open"), "○");
    assert_eq!(status_symbol(""), "○");
}

#[test]
fn project_and_action_lines() {
    let p = ProjectItem {
        id: "p".to_string(),
        name: "Home".to_string(),
        status: "open".to_string(),
        notes: None,
        area: Some("Life".to_string()),
    };
    assert_eq!(project_line(&p), "○ Home · Life");
    let r = ActionResult { message: "Done".to_string(), id: Some("x".to_string()) };
    assert_eq!(action_line(&r), "Done (id: x)");
    let r = ActionResult { message: "Done".to_string(), id: None };
    assert_eq!(action_line(&r), "Done");
}

#[test]
fn reports_show_notice_when_empty() {
    assert_eq!(todo_report(&[]), vec!["No todos found."]);
    assert_eq!(project_report(&[]), vec!["No projects found."]);
    assert_eq!(name_report(&[]), vec!["None found."]);
    assert_eq!(name_report(&["a".to_string(), "b".to_string()]), vec!["a", "b"]);
    assert_eq!(todo_report(&[todo()]).len(), 1);
}

#[test]
fn non_empty_drops_empty_lists() {
    assert_eq!(non_empty(vec![]), None);
    assert_eq!(non_empty(vec!["x".to_string()]), Some(vec!["x".to_string()]));
}

#[test]
fn builtin_list_names_and_default_status() {
    assert_eq!(BuiltinList::Inbox.as_things_name(), "Inbox");
    assert_eq!(BuiltinList::Upcoming.as_things_name(), "Upcoming");
    assert_eq!(BuiltinList::Trash.as_things_name(), "Trash");
    assert_eq!(StatusFilter::default(), StatusFilter::Open);
    assert!(StatusFilter::Canceled.matches("canceled"));
    assert!(!StatusFilter::Completed.matches("Completed"));
}
