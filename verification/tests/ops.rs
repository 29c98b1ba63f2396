use things_sak::applescript::{FIELD_SEP, RECORD_SEP, SEP_PREAMBLE};
use things_sak::ops::{
    complete_label, complete_todo_update, create_project_url, create_todo_url, detach_project_script,
    detach_todo_script, inbox_move_script, list_names_script, list_projects_script, list_todos_script,
    move_project_url, names_from_output, none_clears, plan_move_todo, project_todos_script,
    projects_from_output, resolve_project_id, resolve_todo_id, search_todos_script, show_url,
    todo_created, todo_from_fields, todo_not_found, todo_updated, todos_from_output, update_todo_url,
    prepare_project_move, prepare_update, CreateProject, CreateTodo, IdLookup, MovePlan, NewIdPoll, OpsError,
    PollStep, UpdateRefusal, UpdateTodo,
    NEW_ID_ATTEMPTS, TODO_RECORD,
};
use things_sak::types::{BuiltinList, StatusFilter};

#[test]
fn none_clears_maps_none_keyword_to_empty() {
    assert_eq!(none_clears("none"), "");
    assert_eq!(none_clears("NONE"), "");
    assert_eq!(none_clears("2026-07-10"), "2026-07-10");
}

#[test]
fn todo_from_fields_maps_columns() {
    let fields: Vec<String> = [
        "id1",
        "Buy milk",
        "open",
        "",
        "2026-07-10",
        "errand",
        "Groceries",
        "",
    ]
    .iter()
    .map(|s| s.to_string())
    .collect();
    let todo = todo_from_fields(&fields).unwrap();
    assert_eq!(todo.id, "id1");
    assert_eq!(todo.notes, None);
    assert_eq!(todo.deadline.as_deref(), Some("2026-07-10"));
    assert_eq!(todo.project.as_deref(), Some("Groceries"));
    assert_eq!(todo.area, None);
    assert_eq!(todo.list, None);
}

#[test]
fn todo_from_fields_rejects_short_records() {
    assert!(
        todo_from_fields(&[
            "only".to_string(),
            "three".to_string(),
            "fields".to_string()
        ])
        .is_none()
    );
}

#[test]
fn status_filter_matches() {
    assert!(StatusFilter::Open.matches("open"));
    assert!(!StatusFilter::Open.matches("completed"));
    assert!(StatusFilter::All.matches("canceled"));
}

fn record(fields: &[&str]) -> String {
    let mut s = fields.join(&FIELD_SEP.to_string());
    s.push(RECORD_SEP);
    s
}

#[test]
fn todo_from_fields_reads_ninth_field_as_list() {
    let fields: Vec<String> =
        ["i", "n", "open", "notes", "", "", "", "Area", "Today"].iter().map(|s| s.to_string()).collect();
    let t = todo_from_fields(&fields).unwrap();
    assert_eq!(t.notes.as_deref(), Some("notes"));
    assert_eq!(t.area.as_deref(), Some("Area"));
    assert_eq!(t.list.as_deref(), Some("Today"));
}

#[test]
fn todos_from_output_filters_by_status_and_skips_short_records() {
    let out = record(&["1", "a", "open", "", "", "", "", ""])
        + &record(&["2", "b", "completed", "", "", "", "", ""])
        + &record(&["short"])
        + &record(&["3", "c", "canceled", "", "", "", "", ""]);
    let open = todos_from_output(&out, StatusFilter::Open);
    assert_eq!(open.len(), 1);
    assert_eq!(open[0].id, "1");
    let done = todos_from_output(&out, StatusFilter::Completed);
    assert_eq!(done.len(), 1);
    assert_eq!(done[0].name, "b");
    let all = todos_from_output(&out, StatusFilter::All);
    assert_eq!(all.iter().map(|t| t.id.as_str()).collect::<Vec<_>>(), vec!["1", "2", "3"]);
}

#[test]
fn projects_from_output_needs_five_fields() {
    let out = record(&["p1", "Home", "open", "", "Life"]) + &record(&["p2", "x", "open", ""]);
    let ps = projects_from_output(&out);
    assert_eq!(ps.len(), 1);
    assert_eq!(ps[0].id, "p1");
    assert_eq!(ps[0].notes, None);
    assert_eq!(ps[0].area.as_deref(), Some("Life"));
}

#[test]
fn names_from_output_drops_empty_names() {
    let out = format!("errand{f}{f}home{f}", f = FIELD_SEP);
    assert_eq!(names_from_output(&out), vec!["errand", "home"]);
    assert!(names_from_output("").is_empty());
}

#[test]
fn list_todos_script_text() {
    let expected_body = format!(
        "{SEP_PREAMBLE}\nset theTodos to to dos of list \"Today\"\nif (count of theTodos) > 20 then set theTodos to items 1 thru 20 of theTodos\nset out to \"\"\nrepeat with t in theTodos\n{TODO_RECORD} & rs\nend repeat\nreturn out"
    );
    let expected = format!("tell application \"Things3\"\n{expected_body}\nend tell");
    assert_eq!(list_todos_script(BuiltinList::Today, Some(20)), expected);
    let no_limit = list_todos_script(BuiltinList::Logbook, None);
    assert!(no_limit.contains("to dos of list \"Logbook\"\n\nset out"));
    assert!(list_todos_script(BuiltinList::Inbox, Some(0)).contains("> 0 then set theTodos to items 1 thru 0 of"));
}

#[test]
fn search_and_project_scripts_quote_their_input() {
    let s = search_todos_script("say \"hi\"");
    assert!(s.contains("whose name contains \"say \\\"hi\\\"\")\n    repeat with t in matches\n"));
    assert!(s.contains(" & fs & (contents of listName) & rs\n"));
    let p = project_todos_script("Home");
    assert!(p.contains("set theTodos to to dos of project \"Home\"\n"));
}

#[test]
fn list_projects_and_names_scripts() {
    assert!(list_projects_script(Some("Work")).contains("set theProjects to projects of area \"Work\"\n"));
    assert!(list_projects_script(None).contains("set theProjects to projects\n"));
    assert_eq!(
        list_names_script("tag"),
        "tell application \"Things3\"\nset fs to character id 31\nset AppleScript's text item delimiters to fs\nreturn (name of every tag) as string\nend tell"
    );
}

#[test]
fn id_resolution_prefers_id_then_name() {
    match resolve_todo_id(Some("abc"), Some("x")).unwrap() {
        IdLookup::Known(id) => assert_eq!(id, "abc"),
        other => panic!("unexpected {other:?}"),
    }
    match resolve_todo_id(None, Some("Buy \"milk\"")).unwrap() {
        IdLookup::Query(s) => assert_eq!(
            s,
            "tell application \"Things3\"\nreturn id of to do named \"Buy \\\"milk\\\"\"\nend tell"
        ),
        other => panic!("unexpected {other:?}"),
    }
    match resolve_project_id(None, Some("P")).unwrap() {
        IdLookup::Query(s) => assert!(s.contains("return id of project named \"P\"")),
        other => panic!("unexpected {other:?}"),
    }
    assert_eq!(resolve_todo_id(None, None).unwrap_err(), OpsError::IdOrNameRequired);
    assert_eq!(OpsError::IdOrNameRequired.message(), "either an id or a name is required");
    assert_eq!(todo_not_found("x", "boom"), "could not find todo named \"x\": boom");
}

#[test]
fn new_id_poll_asks_at_most_the_budget() {
    let mut poll = NewIdPoll::new();
    let mut queries = 0;
    loop {
        match poll.step(None) {
            PollStep::WaitAndQuery => queries += 1,
            PollStep::GiveUp => break,
            PollStep::Found(_) => panic!("no answer was given"),
        }
    }
    assert_eq!(queries, NEW_ID_ATTEMPTS);
    let mut poll = NewIdPoll::new();
    assert!(matches!(poll.step(None), PollStep::WaitAndQuery));
    match poll.step(Some("id9".to_string())) {
        PollStep::Found(id) => assert_eq!(id, "id9"),
        other => panic!("unexpected {other:?}"),
    }
}

#[test]
fn create_todo_url_skips_empty_lists() {
    let args = CreateTodo {
        title: "Buy milk".to_string(),
        when: Some("today".to_string()),
        tags: Some(vec!["a".to_string(), "b c".to_string()]),
        checklist_items: Some(vec![]),
        heading: Some("H".to_string()),
        ..Default::default()
    };
    assert_eq!(
        create_todo_url(&args),
        "things:///add?title=Buy%20milk&when=today&tags=a%2Cb%20c&heading=H"
    );
    let args = CreateTodo {
        title: "T".to_string(),
        checklist_items: Some(vec!["x".to_string(), "y".to_string()]),
        ..Default::default()
    };
    assert_eq!(create_todo_url(&args), "things:///add?title=T&checklist-items=x%0Ay");
    let r = todo_created("T", None);
    assert_eq!(r.message, "Created todo: T");
    assert_eq!(r.id, None);
}

#[test]
fn update_todo_url_orders_fields_and_clears_none() {
    let args = UpdateTodo {
        title: Some("New".to_string()),
        when: Some("None".to_string()),
        deadline: Some("2026-07-10".to_string()),
        tags: Some(vec![]),
        add_tags: Some(vec![]),
        completed: Some(false),
        ..Default::default()
    };
    assert_eq!(
        update_todo_url(&args, "id1", "tok").unwrap(),
        "things:///update?id=id1&auth-token=tok&title=New&when=&deadline=2026%2D07%2D10&tags=&completed=false"
    );
}

#[test]
fn update_with_nothing_to_change_is_refused() {
    assert_eq!(update_todo_url(&UpdateTodo::default(), "id", "tok"), Err(OpsError::NoUpdates));
    let only_empty_add_tags = UpdateTodo { add_tags: Some(vec![]), ..Default::default() };
    assert_eq!(update_todo_url(&only_empty_add_tags, "id", "tok"), Err(OpsError::NoUpdates));
    assert_eq!(OpsError::NoUpdates.message(), "no updates specified");
}

#[test]
fn completing_is_an_update() {
    let label = complete_label(&Some("id1".to_string()), &None);
    assert_eq!(label, "id1");
    assert_eq!(complete_label(&None, &None), "");
    assert_eq!(complete_label(&Some("i".to_string()), &Some("n".to_string())), "n");
    let args = complete_todo_update(Some("id1".to_string()), None);
    assert_eq!(
        update_todo_url(&args, "id1", "t").unwrap(),
        "things:///update?id=id1&auth-token=t&completed=true"
    );
    let r = todo_updated(None, "id1".to_string());
    assert_eq!(r.message, "Updated todo: id1");
    let r = todo_updated(Some("Milk"), "id1".to_string());
    assert_eq!(r.message, "Updated todo: Milk");
    assert_eq!(r.id.as_deref(), Some("id1"));
}

#[test]
fn move_plan_follows_destination() {
    match plan_move_todo(None, Some("n".to_string()), "InBox") {
        MovePlan::ToInbox { id, name } => {
            assert_eq!(id, None);
            assert_eq!(name.as_deref(), Some("n"));
        }
        other => panic!("unexpected {other:?}"),
    }
    match plan_move_todo(Some("i".to_string()), None, "TOMORROW") {
        MovePlan::Update { args, message } => {
            assert_eq!(args.when.as_deref(), Some("tomorrow"));
            assert_eq!(args.list, None);
            assert_eq!(message, "Moved todo to tomorrow");
        }
        other => panic!("unexpected {other:?}"),
    }
    match plan_move_todo(Some("i".to_string()), None, "Groceries") {
        MovePlan::Update { args, message } => {
            assert_eq!(args.list.as_deref(), Some("Groceries"));
            assert_eq!(args.when, None);
            assert_eq!(message, "Moved todo to \"Groceries\"");
        }
        other => panic!("unexpected {other:?}"),
    }
    // The Kelvin sign lowercases to an ASCII `k`, so this is no keyword either way.
    match plan_move_todo(None, None, "\u{212A}oday") {
        MovePlan::Update { args, .. } => assert_eq!(args.list.as_deref(), Some("\u{212A}oday")),
        other => panic!("unexpected {other:?}"),
    }
}

#[test]
fn applescript_writes_quote_the_id() {
    assert_eq!(
        inbox_move_script("a\"b"),
        "tell application \"Things3\"\nmove to do id \"a\\\"b\" to list \"Inbox\"\nend tell"
    );
    assert_eq!(
        detach_todo_script("x"),
        "tell application \"Things3\"\ndelete project of to do id \"x\"\nend tell"
    );
    assert_eq!(
        detach_project_script("p"),
        "tell application \"Things3\"\ndelete area of project id \"p\"\nend tell"
    );
}

#[test]
fn project_urls() {
    let args = CreateProject {
        title: "Trip".to_string(),
        area: Some("Life".to_string()),
        todos: Some(vec!["Pack".to_string(), "Go".to_string()]),
        tags: Some(vec![]),
        ..Default::default()
    };
    assert_eq!(
        create_project_url(&args),
        "things:///add-project?title=Trip&area=Life&to-dos=Pack%0AGo"
    );
    assert_eq!(
        move_project_url("p1", "tok", "Work & Play"),
        "things:///update-project?id=p1&auth-token=tok&area=Work%20%26%20Play"
    );
}

#[test]
fn show_url_uses_id_for_builtin_lists() {
    assert_eq!(show_url("Today"), "things:///show?id=Today");
    assert_eq!(show_url("LOGBOOK"), "things:///show?id=LOGBOOK");
    // The Kelvin sign lowercases to `k`, so this names the Logbook.
    assert_eq!(show_url("logboo\u{212A}"), "things:///show?id=logboo%E2%84%AA");
    assert_eq!(show_url("milk"), "things:///show?query=milk");
}

#[test]
fn update_checks_token_before_id_and_changes_after() {
    let blank = UpdateTodo::default();
    assert_eq!(prepare_update(&blank, None, None).unwrap_err(), UpdateRefusal::MissingAuthToken);
    assert_eq!(prepare_update(&blank, None, Some("")).unwrap_err(), UpdateRefusal::MissingAuthToken);
    assert_eq!(prepare_update(&blank, Some("t"), None).unwrap_err(), UpdateRefusal::IdOrNameRequired);
    assert_eq!(UpdateRefusal::IdOrNameRequired.message(), "either an id or a name is required");
    let named = UpdateTodo { name: Some("Milk".to_string()), ..Default::default() };
    let (tok, lookup) = prepare_update(&named, None, Some("env")).unwrap();
    assert_eq!(tok, "env");
    match lookup {
        IdLookup::Query(q) => assert!(q.contains("return id of to do named \"Milk\"")),
        other => panic!("unexpected {other:?}"),
    }
    // A blank update with an id passes the first steps; it is refused once the id is known.
    let with_id = UpdateTodo { id: Some("i".to_string()), ..Default::default() };
    let (tok, lookup) = prepare_update(&with_id, Some("f"), Some("env")).unwrap();
    assert_eq!(tok, "f");
    assert!(matches!(lookup, IdLookup::Known(ref k) if k == "i"));
    assert_eq!(update_todo_url(&with_id, "i", &tok), Err(OpsError::NoUpdates));
    assert!(prepare_project_move("P", None, None).is_err());
    let (tok, script) = prepare_project_move("P", Some("t"), None).unwrap();
    assert_eq!(tok, "t");
    assert!(script.contains("return id of project named \"P\""));
}

#[test]
fn things_names_lowercase_to_keywords() {
    let all = [
        (BuiltinList::Inbox, "inbox"),
        (BuiltinList::Today, "today"),
        (BuiltinList::Anytime, "anytime"),
        (BuiltinList::Upcoming, "upcoming"),
        (BuiltinList::Someday, "someday"),
        (BuiltinList::Logbook, "logbook"),
        (BuiltinList::Trash, "trash"),
    ];
    for (i, (l, k)) in all.iter().enumerate() {
        let n = l.as_things_name();
        assert_eq!(n.to_ascii_lowercase(), *k);
        assert!(n.chars().next().unwrap().is_ascii_uppercase());
        for (l2, _) in all.iter().skip(i + 1) {
            assert_ne!(n, l2.as_things_name());
        }
    }
}
