//! High-level Things operations shared by the CLI and the MCP server.
//!
//! Reads go through read-only AppleScript queries; writes go through the
//! official `things:///` URL scheme. The only AppleScript writes are the few
//! operations the URL scheme cannot express (move to Inbox, detach from
//! project/area). This module builds every script and URL and interprets every
//! answer; running osascript and `open` is left to the caller.

use vstd::prelude::*;
use crate::applescript::{
    opt, parse_records, parsed_records, quote, quoted, record_views, tell_things, told, FIELD_SEP,
    SEP_PREAMBLE,
};
use crate::text::{
    chars_of, decimal, eq_ignore_ascii_case, lowercase_equals, lowercase_equals_spec, lowers_to, eq_ignore_ascii_case_spec, join, join_with, owned, push_decimal, push_str, split_chars, split_on, views,
};
use crate::url_scheme::{build_url, param_views, things_url};
use crate::types::{
    ActionResult, opt_view, status_matches, things_name, BuiltinList, ProjectItem, ProjectView, StatusFilter,
    TodoItem, TodoView,
};

verus! {

broadcast use vstd::string::group_string_axioms;

// ── Records ────────────────────────────────────────────────────────

/// AppleScript snippet appending one todo record (8 fields) to `out`.
/// Expects `fs`/`rs` from SEP_PREAMBLE and the todo bound to `t`.
pub const TODO_RECORD: &'static str = r#"
set dl to due date of t
if dl is missing value then
  set dlStr to ""
else
  set dlStr to (year of dl as string) & "-" & (text -2 thru -1 of ("0" & ((month of dl as integer) as string))) & "-" & (text -2 thru -1 of ("0" & ((day of dl) as string)))
end if
set projName to ""
try
  set projName to name of project of t
end try
set areaName to ""
try
  set areaName to name of area of t
end try
set out to out & (id of t) & fs & (name of t) & fs & ((status of t) as string) & fs & (notes of t) & fs & dlStr & fs & (tag names of t) & fs & projName & fs & areaName"#;

/// An optional field: empty text means the field is absent.
pub open spec fn optional_field(s: Seq<char>) -> Option<Seq<char>> {
    if s.len() == 0 {
        None
    } else {
        Some(s)
    }
}

/// The todo that a record of fields describes: id, name, status, notes, deadline,
/// tags, project, area and, when present, the list it was found in. Records of fewer
/// than eight fields describe none.
pub open spec fn todo_of_fields(f: Seq<Seq<char>>) -> Option<TodoView> {
    if f.len() < 8 {
        None
    } else {
        Some(
            TodoView {
                id: f[0],
                name: f[1],
                status: f[2],
                notes: optional_field(f[3]),
                deadline: optional_field(f[4]),
                tags: optional_field(f[5]),
                project: optional_field(f[6]),
                area: optional_field(f[7]),
                list: if f.len() > 8 {
                    optional_field(f[8])
                } else {
                    None
                },
            },
        )
    }
}

/// The view of an optional todo.
pub open spec fn opt_todo_view(t: Option<TodoItem>) -> Option<TodoView> {
    match t {
        Some(t) => Some(t@),
        None => None,
    }
}

/// The todo described by a record of fields.
pub fn todo_from_fields(fields: &[String]) -> (res: Option<TodoItem>)
    ensures
        opt_todo_view(res) == todo_of_fields(views(fields@)),
{
    if fields.len() < 8 {
        return None;
    }
    let list = if fields.len() > 8 {
        opt(fields[8].as_str())
    } else {
        None
    };
    let t = TodoItem {
        id: owned(fields[0].as_str()),
        name: owned(fields[1].as_str()),
        status: owned(fields[2].as_str()),
        notes: opt(fields[3].as_str()),
        deadline: opt(fields[4].as_str()),
        tags: opt(fields[5].as_str()),
        project: opt(fields[6].as_str()),
        area: opt(fields[7].as_str()),
        list,
    };
    proof {
        let f = views(fields@);
        assert(opt_view(t.notes) == optional_field(f[3]));
        assert(opt_view(t.deadline) == optional_field(f[4]));
        assert(opt_view(t.tags) == optional_field(f[5]));
        assert(opt_view(t.project) == optional_field(f[6]));
        assert(opt_view(t.area) == optional_field(f[7]));
        assert(opt_view(t.list) == (if f.len() > 8 { optional_field(f[8]) } else { None }));
    }
    Some(t)
}

/// The views of a list of todos.
pub open spec fn todo_views(ts: Seq<TodoItem>) -> Seq<TodoView> {
    ts.map_values(|t: TodoItem| t@)
}

/// The todos in osascript output: one per record of at least eight fields, kept when
/// `status` matches.
pub open spec fn todos_in_output(out: Seq<char>, status: StatusFilter) -> Seq<TodoView> {
    parsed_records(out).filter_map(|f: Seq<Seq<char>>| todo_of_fields(f)).filter(
        |t: TodoView| status_matches(status, t.status),
    )
}

/// The todos in the output of a todo query, filtered by status.
pub fn todos_from_output(output: &str, status: StatusFilter) -> (res: Vec<TodoItem>)
    ensures
        todo_views(res@) == todos_in_output(output@, status),
{
    let records = parse_records(output);
    let ghost rv = record_views(records@);
    let ghost keep = |t: TodoView| status_matches(status, t.status);
    let ghost conv = |f: Seq<Seq<char>>| todo_of_fields(f);
    let mut res: Vec<TodoItem> = Vec::new();
    let mut i: usize = 0;
    while i < records.len()
        invariant
            i <= records.len(),
            rv == record_views(records@),
            rv == parsed_records(output@),
            keep == (|t: TodoView| status_matches(status, t.status)),
            conv == (|f: Seq<Seq<char>>| todo_of_fields(f)),
            todo_views(res@) == rv.take(i as int).filter_map(conv).filter(keep),
        decreases records.len() - i,
    {
        let ghost prev = rv.take(i as int).filter_map(conv);
        proof {
            assert(rv.take(i + 1).drop_last() =~= rv.take(i as int));
            assert(rv[i as int] == views(records@[i as int]@));
            reveal_with_fuel(Seq::<_>::filter, 1);
        }
        let found = todo_from_fields(records[i].as_slice());
        match found {
            Some(t) => {
                assert(rv.take(i + 1).filter_map(conv) == prev.push(t@));
                if status.matches(t.status.as_str()) {
                    let ghost before = res@;
                    res.push(t);
                    assert(todo_views(res@) =~= todo_views(before).push(t@));
                    assert(keep(t@));
                    assert(prev.push(t@).drop_last() =~= prev);
                    assert(prev.push(t@).filter(keep) == prev.filter(keep).push(t@));
                } else {
                    assert(!keep(t@));
                    assert(prev.push(t@).drop_last() =~= prev);
                    assert(prev.push(t@).filter(keep) == prev.filter(keep));
                }
            },
            None => {
                assert(rv.take(i + 1).filter_map(conv) == prev);
            },
        }
        i = i + 1;
    }
    assert(rv.take(records.len() as int) =~= rv);
    res
}

/// The project that a record of fields describes: id, name, status, notes and area.
/// Records of fewer than five fields describe none.
pub open spec fn project_of_fields(f: Seq<Seq<char>>) -> Option<ProjectView> {
    if f.len() < 5 {
        None
    } else {
        Some(
            ProjectView {
                id: f[0],
                name: f[1],
                status: f[2],
                notes: optional_field(f[3]),
                area: optional_field(f[4]),
            },
        )
    }
}

/// The views of a list of projects.
pub open spec fn project_views(ps: Seq<ProjectItem>) -> Seq<ProjectView> {
    ps.map_values(|p: ProjectItem| p@)
}

/// The projects in osascript output: one per record of at least five fields.
pub open spec fn projects_in_output(out: Seq<char>) -> Seq<ProjectView> {
    parsed_records(out).filter_map(|f: Seq<Seq<char>>| project_of_fields(f))
}

/// The projects in the output of a project query.
pub fn projects_from_output(output: &str) -> (res: Vec<ProjectItem>)
    ensures
        project_views(res@) == projects_in_output(output@),
{
    let records = parse_records(output);
    let ghost rv = record_views(records@);
    let ghost conv = |f: Seq<Seq<char>>| project_of_fields(f);
    let mut res: Vec<ProjectItem> = Vec::new();
    let mut i: usize = 0;
    while i < records.len()
        invariant
            i <= records.len(),
            rv == record_views(records@),
            rv == parsed_records(output@),
            conv == (|f: Seq<Seq<char>>| project_of_fields(f)),
            project_views(res@) == rv.take(i as int).filter_map(conv),
        decreases records.len() - i,
    {
        proof {
            assert(rv.take(i + 1).drop_last() =~= rv.take(i as int));
        }
        let f = &records[i];
        let ghost fv = views(f@);
        assert(rv[i as int] == fv);
        if f.len() >= 5 {
            let p = ProjectItem {
                id: owned(f[0].as_str()),
                name: owned(f[1].as_str()),
                status: owned(f[2].as_str()),
                notes: opt(f[3].as_str()),
                area: opt(f[4].as_str()),
            };
            proof {
                assert(opt_view(p.notes) == optional_field(fv[3]));
                assert(opt_view(p.area) == optional_field(fv[4]));
            }
            let ghost before = res@;
            res.push(p);
            assert(project_views(res@) =~= project_views(before).push(p@));
        }
        i = i + 1;
    }
    assert(rv.take(records.len() as int) =~= rv);
    res
}

/// The names in the output of a name query: the pieces between field separators,
/// empty ones dropped.
pub open spec fn names_in_output(out: Seq<char>) -> Seq<Seq<char>> {
    split_on(out, seq![FIELD_SEP]).filter(|s: Seq<char>| s.len() > 0)
}

/// The names in the output of a tag or area query.
pub fn names_from_output(output: &str) -> (res: Vec<String>)
    ensures
        views(res@) == names_in_output(output@),
{
    let chars = chars_of(output);
    let sep = vec![FIELD_SEP];
    assert(sep@ =~= seq![FIELD_SEP]);
    let pieces = split_chars(&chars, &sep);
    let ghost pv = split_on(output@, seq![FIELD_SEP]);
    let ghost keep = |s: Seq<char>| s.len() > 0;
    let mut res: Vec<String> = Vec::new();
    let mut i: usize = 0;
    while i < pieces.len()
        invariant
            i <= pieces.len(),
            pv == split_on(output@, seq![FIELD_SEP]),
            pv == crate::text::char_vecs(pieces@),
            keep == (|s: Seq<char>| s.len() > 0),
            views(res@) == pv.take(i as int).filter(keep),
        decreases pieces.len() - i,
    {
        proof {
            assert(pv.take(i + 1).drop_last() =~= pv.take(i as int));
            reveal_with_fuel(Seq::<_>::filter, 1);
        }
        let p = &pieces[i];
        if p.len() > 0 {
            let s = crate::text::string_of_range(p, 0, p.len());
            assert(p@.subrange(0, p@.len() as int) =~= p@);
            let ghost before = res@;
            res.push(s);
            assert(views(res@) =~= views(before).push(s@));
        }
        i = i + 1;
    }
    assert(pv.take(pieces.len() as int) =~= pv);
    res
}

// ── Read scripts ───────────────────────────────────────────────────

/// The clause that caps a todo query at `n` items.
pub open spec fn limit_clause(limit: Option<usize>) -> Seq<char> {
    match limit {
        Some(n) => "if (count of theTodos) > "@ + decimal(n as nat) + " then set theTodos to items 1 thru "@
            + decimal(n as nat) + " of theTodos"@,
        None => Seq::empty(),
    }
}

/// The script body that lists the todos of a built-in list, `limit` at most.
pub open spec fn list_todos_body(list: BuiltinList, limit: Option<usize>) -> Seq<char> {
    SEP_PREAMBLE@ + "\nset theTodos to "@ + "to dos of list "@ + quoted(things_name(list)) + "\n"@
        + limit_clause(limit) + "\nset out to \"\"\nrepeat with t in theTodos\n"@ + TODO_RECORD@
        + " & rs\nend repeat\nreturn out"@
}

/// The script that lists the todos of a built-in list, the first `limit` of them when given.
pub fn list_todos_script(list: BuiltinList, limit: Option<usize>) -> (res: String)
    ensures
        res@ == told(list_todos_body(list, limit)),
{
    let mut b = owned(SEP_PREAMBLE);
    push_str(&mut b, "\nset theTodos to ");
    push_str(&mut b, "to dos of list ");
    let name = quote(list.as_things_name());
    push_str(&mut b, name.as_str());
    push_str(&mut b, "\n");
    let ghost before_limit = b@;
    match limit {
        Some(n) => {
            push_str(&mut b, "if (count of theTodos) > ");
            push_decimal(&mut b, n);
            push_str(&mut b, " then set theTodos to items 1 thru ");
            push_decimal(&mut b, n);
            push_str(&mut b, " of theTodos");
        },
        None => {},
    }
    assert(b@ =~= before_limit + limit_clause(limit));
    push_str(&mut b, "\nset out to \"\"\nrepeat with t in theTodos\n");
    push_str(&mut b, TODO_RECORD);
    push_str(&mut b, " & rs\nend repeat\nreturn out");
    assert(b@ =~= list_todos_body(list, limit));
    tell_things(b.as_str())
}

/// The built-in lists a search looks in, in order: the open ones.
pub open spec fn searched_lists() -> Seq<BuiltinList> {
    seq![BuiltinList::Inbox, BuiltinList::Today, BuiltinList::Anytime, BuiltinList::Upcoming, BuiltinList::Someday]
}

/// The Things names of the lists a search looks in.
pub open spec fn searched_names() -> Seq<Seq<char>> {
    searched_lists().map_values(|l: BuiltinList| things_name(l))
}

/// An AppleScript list literal whose items are the strings `items`.
pub open spec fn applescript_list(items: Seq<Seq<char>>) -> Seq<char> {
    "{"@ + join_with(items.map_values(|n: Seq<char>| quoted(n)), ", "@) + "}"@
}

/// The script body that searches the open lists for todos whose name contains `query`.
pub open spec fn search_todos_body(query: Seq<char>) -> Seq<char> {
    SEP_PREAMBLE@ + "\nset out to \"\"\nrepeat with listName in "@ + applescript_list(searched_names())
        + "\n  try\n    set matches to (to dos of list (contents of listName) whose name contains "@
        + quoted(query) + ")\n    repeat with t in matches\n"@ + TODO_RECORD@
        + " & fs & (contents of listName) & rs\n    end repeat\n  end try\nend repeat\nreturn out"@
}

/// Appends the AppleScript list literal of the Things names of `lists`.
fn push_list_names(out: &mut String, lists: &[BuiltinList])
    ensures
        final(out)@ == old(out)@ + applescript_list(lists@.map_values(|l: BuiltinList| things_name(l))),
{
    let ghost start = out@;
    let ghost items = lists@.map_values(|l: BuiltinList| things_name(l)).map_values(|n: Seq<char>| quoted(n));
    push_str(out, "{");
    let mut i: usize = 0;
    while i < lists.len()
        invariant
            i <= lists.len(),
            items == lists@.map_values(|l: BuiltinList| things_name(l)).map_values(|n: Seq<char>| quoted(n)),
            out@ == start + "{"@ + join_with(items.take(i as int), ", "@),
        decreases lists.len() - i,
    {
        if i > 0 {
            push_str(out, ", ");
        }
        let q = quote(lists[i].as_things_name());
        push_str(out, q.as_str());
        i = i + 1;
        proof {
            let prefix = items.take(i as int);
            assert(prefix.drop_last() =~= items.take(i - 1));
            assert(prefix.last() == q@);
            if i == 1 {
                assert(join_with(prefix, ", "@) == prefix[0]);
                assert(join_with(items.take(0), ", "@) =~= Seq::<char>::empty());
            } else {
                assert(join_with(prefix, ", "@) == join_with(prefix.drop_last(), ", "@) + ", "@ + prefix.last());
            }
            assert(out@ =~= start + "{"@ + join_with(prefix, ", "@));
        }
    }
    assert(items.take(lists.len() as int) =~= items);
    push_str(out, "}");
}

/// The lists a search looks in are exactly the open ones (Inbox, Today, Anytime,
/// Upcoming, Someday, not Logbook or Trash), and the list literal the search script
/// iterates over holds the quoted Things name of each of them.
pub proof fn law_search_covers_open_lists(l: BuiltinList)
    ensures
        searched_lists().contains(l) == (l != BuiltinList::Logbook && l != BuiltinList::Trash),
        searched_lists().contains(l) ==> searched_names().map_values(|n: Seq<char>| quoted(n)).contains(
            quoted(things_name(l)),
        ),
{
    let ls = searched_lists();
    if l != BuiltinList::Logbook && l != BuiltinList::Trash {
        let i: int = match l {
            BuiltinList::Inbox => 0,
            BuiltinList::Today => 1,
            BuiltinList::Anytime => 2,
            BuiltinList::Upcoming => 3,
            _ => 4,
        };
        assert(ls[i] == l);
        assert(searched_names().map_values(|n: Seq<char>| quoted(n))[i] == quoted(things_name(l)));
    }
    if ls.contains(l) {
        let i = choose|i: int| 0 <= i < ls.len() && ls[i] == l;
        assert(l == ls[i]);
        if l == BuiltinList::Logbook || l == BuiltinList::Trash {
            assert(false);
        }
    }
}

/// The script that searches Inbox, Today, Anytime, Upcoming and Someday for todos
/// whose name contains `query`; each record ends with the list it was found in.
pub fn search_todos_script(query: &str) -> (res: String)
    ensures
        res@ == told(search_todos_body(query@)),
{
    let mut b = owned(SEP_PREAMBLE);
    push_str(&mut b, "\nset out to \"\"\nrepeat with listName in ");
    let lists = [BuiltinList::Inbox, BuiltinList::Today, BuiltinList::Anytime, BuiltinList::Upcoming, BuiltinList::Someday];
    assert(lists@ =~= searched_lists());
    push_list_names(&mut b, &lists);
    push_str(&mut b, "\n  try\n    set matches to (to dos of list (contents of listName) whose name contains ");
    let q = quote(query);
    push_str(&mut b, q.as_str());
    push_str(&mut b, ")\n    repeat with t in matches\n");
    push_str(&mut b, TODO_RECORD);
    push_str(&mut b, " & fs & (contents of listName) & rs\n    end repeat\n  end try\nend repeat\nreturn out");
    assert(b@ =~= search_todos_body(query@));
    tell_things(b.as_str())
}

/// The script body that lists the todos of the project named `project`.
pub open spec fn project_todos_body(project: Seq<char>) -> Seq<char> {
    SEP_PREAMBLE@ + "\nset theTodos to to dos of project "@ + quoted(project)
        + "\nset out to \"\"\nrepeat with t in theTodos\n"@ + TODO_RECORD@ + " & rs\nend repeat\nreturn out"@
}

/// The script that lists the todos of the project named `project`.
pub fn project_todos_script(project: &str) -> (res: String)
    ensures
        res@ == told(project_todos_body(project@)),
{
    let mut b = owned(SEP_PREAMBLE);
    push_str(&mut b, "\nset theTodos to to dos of project ");
    let q = quote(project);
    push_str(&mut b, q.as_str());
    push_str(&mut b, "\nset out to \"\"\nrepeat with t in theTodos\n");
    push_str(&mut b, TODO_RECORD);
    push_str(&mut b, " & rs\nend repeat\nreturn out");
    assert(b@ =~= project_todos_body(project@));
    tell_things(b.as_str())
}

/// Which projects a project query reads: those of one area, or all.
pub open spec fn project_source(area: Option<Seq<char>>) -> Seq<char> {
    match area {
        Some(a) => "projects of area "@ + quoted(a),
        None => "projects"@,
    }
}

/// The script body that lists projects (5 fields each).
pub open spec fn list_projects_body(area: Option<Seq<char>>) -> Seq<char> {
    SEP_PREAMBLE@ + "\nset theProjects to "@ + project_source(area)
        + "\nset out to \"\"\nrepeat with p in theProjects\n  set areaName to \"\"\n  try\n    set areaName to name of area of p\n  end try\n  set out to out & (id of p) & fs & (name of p) & fs & ((status of p) as string) & fs & (notes of p) & fs & areaName & rs\nend repeat\nreturn out"@
}

/// The view of an optional borrowed string.
pub open spec fn opt_str_view(o: Option<&str>) -> Option<Seq<char>> {
    match o {
        Some(s) => Some(s@),
        None => None,
    }
}

/// The script that lists all projects, or those of the area named `area`.
pub fn list_projects_script(area: Option<&str>) -> (res: String)
    ensures
        res@ == told(list_projects_body(opt_str_view(area))),
{
    let mut b = owned(SEP_PREAMBLE);
    push_str(&mut b, "\nset theProjects to ");
    let ghost before = b@;
    match area {
        Some(a) => {
            push_str(&mut b, "projects of area ");
            let q = quote(a);
            push_str(&mut b, q.as_str());
        },
        None => {
            push_str(&mut b, "projects");
        },
    }
    assert(b@ =~= before + project_source(opt_str_view(area)));
    push_str(
        &mut b,
        "\nset out to \"\"\nrepeat with p in theProjects\n  set areaName to \"\"\n  try\n    set areaName to name of area of p\n  end try\n  set out to out & (id of p) & fs & (name of p) & fs & ((status of p) as string) & fs & (notes of p) & fs & areaName & rs\nend repeat\nreturn out",
    );
    assert(b@ =~= list_projects_body(opt_str_view(area)));
    tell_things(b.as_str())
}

/// The script body that returns the names of every `kind` (tag or area), joined by
/// the field separator.
pub open spec fn list_names_body(kind: Seq<char>) -> Seq<char> {
    "set fs to character id 31\nset AppleScript's text item delimiters to fs\nreturn (name of every "@
        + kind + ") as string"@
}

/// The script that returns the names of every `kind`.
pub fn list_names_script(kind: &str) -> (res: String)
    ensures
        res@ == told(list_names_body(kind@)),
{
    let mut b = owned("set fs to character id 31\nset AppleScript's text item delimiters to fs\nreturn (name of every ");
    push_str(&mut b, kind);
    push_str(&mut b, ") as string");
    assert(b@ =~= list_names_body(kind@));
    tell_things(b.as_str())
}

/// The script that lists all tag names.
pub fn list_tags_script() -> (res: String)
    ensures
        res@ == told(list_names_body("tag"@)),
{
    list_names_script("tag")
}

/// The script that lists all area names.
pub fn list_areas_script() -> (res: String)
    ensures
        res@ == told(list_names_body("area"@)),
{
    list_names_script("area")
}

// ── Errors ─────────────────────────────────────────────────────────

/// Why an operation was refused before anything was sent to Things.
#[derive(Debug, Clone, Copy, PartialEq, Eq, Structural)]
pub enum OpsError {
    /// Neither an id nor a name identifies the item.
    IdOrNameRequired,
    /// An update names no field to change.
    NoUpdates,
}

/// The message for each refusal.
pub open spec fn ops_error_message(e: OpsError) -> Seq<char> {
    match e {
        OpsError::IdOrNameRequired => "either an id or a name is required"@,
        OpsError::NoUpdates => "no updates specified"@,
    }
}

impl OpsError {
    /// The message shown to the user.
    pub fn message(&self) -> (res: String)
        ensures
            res@ == ops_error_message(*self),
    {
        match self {
            OpsError::IdOrNameRequired => owned("either an id or a name is required"),
            OpsError::NoUpdates => owned("no updates specified"),
        }
    }
}

// ── ID resolution ──────────────────────────────────────────────────

/// How to learn the id of an item: it is already known, or a script returns it.
#[derive(Debug)]
pub enum IdLookup {
    Known(String),
    Query(String),
}

/// The script body that returns the id of the `kind` named `name`.
pub open spec fn id_query_body(kind: Seq<char>, name: Seq<char>) -> Seq<char> {
    "return id of "@ + kind + " named "@ + quoted(name)
}

/// The script that returns the id of the `kind` (to do or project) named `name`.
pub fn id_query_script(kind: &str, name: &str) -> (res: String)
    ensures
        res@ == told(id_query_body(kind@, name@)),
{
    let mut b = owned("return id of ");
    push_str(&mut b, kind);
    push_str(&mut b, " named ");
    let q = quote(name);
    push_str(&mut b, q.as_str());
    assert(b@ =~= id_query_body(kind@, name@));
    tell_things(b.as_str())
}

/// How an id is found for `kind` from an optional id and an optional name: a given id
/// is used as it is, else a query by name, else there is nothing to go on.
pub open spec fn id_lookup_ok(kind: Seq<char>, id: Option<&str>, name: Option<&str>, res: Result<IdLookup, OpsError>) -> bool {
    match id {
        Some(i) => res matches Ok(IdLookup::Known(k)) && k@ == i@,
        None => match name {
            Some(n) => res matches Ok(IdLookup::Query(q)) && q@ == told(id_query_body(kind, n@)),
            None => res == Err::<IdLookup, OpsError>(OpsError::IdOrNameRequired),
        },
    }
}

fn id_lookup(kind: &str, id: Option<&str>, name: Option<&str>) -> (res: Result<IdLookup, OpsError>)
    ensures
        id_lookup_ok(kind@, id, name, res),
{
    if let Some(id) = id {
        return Ok(IdLookup::Known(owned(id)));
    }
    match name {
        Some(name) => Ok(IdLookup::Query(id_query_script(kind, name))),
        None => Err(OpsError::IdOrNameRequired),
    }
}

/// How to find the id of a todo given by id or by name.
pub fn resolve_todo_id(id: Option<&str>, name: Option<&str>) -> (res: Result<IdLookup, OpsError>)
    ensures
        id_lookup_ok("to do"@, id, name, res),
{
    id_lookup("to do", id, name)
}

/// How to find the id of a project given by id or by name.
pub fn resolve_project_id(id: Option<&str>, name: Option<&str>) -> (res: Result<IdLookup, OpsError>)
    ensures
        id_lookup_ok("project"@, id, name, res),
{
    id_lookup("project", id, name)
}

/// The message when no `item` (todo or project) named `name` was found; `detail` is
/// what osascript reported.
pub open spec fn not_found_message(item: Seq<char>, name: Seq<char>, detail: Seq<char>) -> Seq<char> {
    "could not find "@ + item + " named \""@ + name + "\": "@ + detail
}

/// The message when no todo named `name` was found.
pub fn todo_not_found(name: &str, detail: &str) -> (res: String)
    ensures
        res@ == not_found_message("todo"@, name@, detail@),
{
    let mut m = owned("could not find ");
    push_str(&mut m, "todo");
    push_str(&mut m, " named \"");
    push_str(&mut m, name);
    push_str(&mut m, "\": ");
    push_str(&mut m, detail);
    assert(m@ =~= not_found_message("todo"@, name@, detail@));
    m
}

/// The message when no project named `name` was found.
pub fn project_not_found(name: &str, detail: &str) -> (res: String)
    ensures
        res@ == not_found_message("project"@, name@, detail@),
{
    let mut m = owned("could not find ");
    push_str(&mut m, "project");
    push_str(&mut m, " named \"");
    push_str(&mut m, name);
    push_str(&mut m, "\": ");
    push_str(&mut m, detail);
    assert(m@ =~= not_found_message("project"@, name@, detail@));
    m
}

// ── Finding the id of a new item ───────────────────────────────────

/// How many times the id of a just-created item is looked up before giving up.
pub const NEW_ID_ATTEMPTS: u32 = 25;

/// Milliseconds to wait before each lookup.
pub const NEW_ID_DELAY_MS: u64 = 200;

/// What to do next while looking for the id of a just-created item.
#[derive(Debug)]
pub enum PollStep {
    /// Wait `NEW_ID_DELAY_MS`, then run the lookup script once more.
    WaitAndQuery,
    /// The lookup answered with this id.
    Found(String),
    /// Every attempt failed.
    GiveUp,
}

/// Best-effort lookup of a just-created item's id. Opening a URL returns before
/// Things processes it, so the caller polls briefly.
pub struct NewIdPoll {
    attempts: u32,
}

impl NewIdPoll {
    #[verifier::type_invariant]
    spec fn within_budget(self) -> bool {
        self.attempts <= NEW_ID_ATTEMPTS
    }

    /// How many lookups have been asked for so far.
    pub closed spec fn queries(self) -> nat {
        self.attempts as nat
    }

    /// A poll that has asked for no lookup yet.
    pub fn new() -> (p: Self)
        ensures
            p.queries() == 0,
    {
        NewIdPoll { attempts: 0 }
    }

    /// The next step after the answer of the last lookup (`None` before the first,
    /// and when a lookup failed). An answer ends the poll; otherwise another lookup is
    /// asked for while fewer than `NEW_ID_ATTEMPTS` have been made.
    pub fn step(&mut self, answer: Option<String>) -> (s: PollStep)
        ensures
            final(self).queries() <= NEW_ID_ATTEMPTS,
            match answer {
                Some(id) => s matches PollStep::Found(f) && f@ == id@ && final(self).queries() == old(self).queries(),
                None => if old(self).queries() < NEW_ID_ATTEMPTS {
                    s is WaitAndQuery && final(self).queries() == old(self).queries() + 1
                } else {
                    s is GiveUp && final(self).queries() == old(self).queries()
                },
            },
    {
        proof {
            use_type_invariant(&*self);
        }
        match answer {
            Some(id) => PollStep::Found(id),
            None => {
                if self.attempts < NEW_ID_ATTEMPTS {
                    self.attempts = self.attempts + 1;
                    PollStep::WaitAndQuery
                } else {
                    PollStep::GiveUp
                }
            },
        }
    }
}

/// The script that returns the id of the todo named `name`, once it exists.
pub fn new_todo_id_script(name: &str) -> (res: String)
    ensures
        res@ == told(id_query_body("to do"@, name@)),
{
    id_query_script("to do", name)
}

/// The script that returns the id of the project named `name`, once it exists.
pub fn new_project_id_script(name: &str) -> (res: String)
    ensures
        res@ == told(id_query_body("project"@, name@)),
{
    id_query_script("project", name)
}

// ── URL parameters ─────────────────────────────────────────────────

/// The views of URL parameters with owned values.
pub open spec fn owned_param_views(ps: Seq<(&'static str, String)>) -> Seq<(Seq<char>, Seq<char>)> {
    ps.map_values(|p: (&'static str, String)| (p.0@, p.1@))
}

/// The views of an optional list of strings.
pub open spec fn opt_views(o: Option<Vec<String>>) -> Option<Seq<Seq<char>>> {
    match o {
        Some(v) => Some(views(v@)),
        None => None,
    }
}

/// A parameter for an optional value: present when the value is.
pub open spec fn opt_param(key: Seq<char>, v: Option<Seq<char>>) -> Seq<(Seq<char>, Seq<char>)> {
    match v {
        Some(x) => seq![(key, x)],
        None => Seq::empty(),
    }
}

/// A parameter for an optional list, its items joined by `sep`: present when the list
/// is, and, with `skip_empty`, only when it is not empty.
pub open spec fn list_param(
    key: Seq<char>,
    v: Option<Seq<Seq<char>>>,
    sep: Seq<char>,
    skip_empty: bool,
) -> Seq<(Seq<char>, Seq<char>)> {
    match v {
        Some(items) => if skip_empty && items.len() == 0 {
            Seq::empty()
        } else {
            seq![(key, join_with(items, sep))]
        },
        None => Seq::empty(),
    }
}

/// A parameter for an optional flag, written `true` or `false`.
pub open spec fn flag_param(key: Seq<char>, v: Option<bool>) -> Seq<(Seq<char>, Seq<char>)> {
    match v {
        Some(b) => seq![(key, if b { "true"@ } else { "false"@ })],
        None => Seq::empty(),
    }
}

fn push_param(params: &mut Vec<(&'static str, String)>, key: &'static str, value: String)
    ensures
        owned_param_views(final(params)@) == owned_param_views(old(params)@) + seq![(key@, value@)],
{
    params.push((key, value));
    assert(owned_param_views(final(params)@) =~= owned_param_views(old(params)@) + seq![(key@, value@)]);
}

fn push_opt_param(params: &mut Vec<(&'static str, String)>, key: &'static str, v: &Option<String>)
    ensures
        owned_param_views(final(params)@) == owned_param_views(old(params)@) + opt_param(key@, opt_view(*v)),
{
    match v {
        Some(x) => push_param(params, key, owned(x.as_str())),
        None => {
            assert(owned_param_views(final(params)@) =~= owned_param_views(old(params)@) + opt_param(key@, opt_view(*v)));
        },
    }
}

fn push_list_param(
    params: &mut Vec<(&'static str, String)>,
    key: &'static str,
    v: &Option<Vec<String>>,
    sep: &str,
    skip_empty: bool,
)
    ensures
        owned_param_views(final(params)@) == owned_param_views(old(params)@) + list_param(key@, opt_views(*v), sep@, skip_empty),
{
    match v {
        Some(items) => {
            if skip_empty && items.len() == 0 {
                assert(owned_param_views(final(params)@) =~= owned_param_views(old(params)@)
                    + list_param(key@, opt_views(*v), sep@, skip_empty));
            } else {
                push_param(params, key, join(items, sep));
            }
        },
        None => {
            assert(owned_param_views(final(params)@) =~= owned_param_views(old(params)@)
                + list_param(key@, opt_views(*v), sep@, skip_empty));
        },
    }
}

fn push_flag_param(params: &mut Vec<(&'static str, String)>, key: &'static str, v: Option<bool>)
    ensures
        owned_param_views(final(params)@) == owned_param_views(old(params)@) + flag_param(key@, v),
{
    match v {
        Some(b) => push_param(params, key, owned(if b { "true" } else { "false" })),
        None => {
            assert(owned_param_views(final(params)@) =~= owned_param_views(old(params)@) + flag_param(key@, v));
        },
    }
}

/// The URL for `command` with owned parameters.
fn url_with(command: &str, params: &Vec<(&'static str, String)>) -> (res: String)
    ensures
        res@ == things_url(command@, owned_param_views(params@)),
{
    let mut borrowed: Vec<(&str, &str)> = Vec::new();
    let mut i: usize = 0;
    while i < params.len()
        invariant
            i <= params.len(),
            param_views(borrowed@) == owned_param_views(params@).take(i as int),
        decreases params.len() - i,
    {
        let key: &'static str = params[i].0;
        let value: &str = params[i].1.as_str();
        let ghost before = borrowed@;
        borrowed.push((key, value));
        assert(borrowed@ == before.push((key, value)));
        assert(param_views(borrowed@) =~= param_views(before).push((key@, value@)));
        assert(owned_param_views(params@).take(i + 1) =~= owned_param_views(params@).take(i as int).push(
            (params@[i as int].0@, params@[i as int].1@),
        ));
        i = i + 1;
        assert(param_views(borrowed@) =~= owned_param_views(params@).take(i as int));
    }
    assert(owned_param_views(params@).take(params.len() as int) =~= owned_param_views(params@));
    build_url(command, borrowed.as_slice())
}

/// Whether every parameter of `seg` has the key `key`.
pub open spec fn keyed(seg: Seq<(Seq<char>, Seq<char>)>, key: Seq<char>) -> bool {
    forall|i: int| 0 <= i < seg.len() ==> (#[trigger] seg[i]).0 == key
}

/// Parameter lists joined in order.
pub open spec fn flatten_params(segs: Seq<Seq<(Seq<char>, Seq<char>)>>) -> Seq<(Seq<char>, Seq<char>)>
    decreases segs.len(),
{
    if segs.len() == 0 {
        Seq::empty()
    } else {
        flatten_params(segs.drop_last()) + segs.last()
    }
}

proof fn lemma_concat_contains(a: Seq<(Seq<char>, Seq<char>)>, b: Seq<(Seq<char>, Seq<char>)>, e: (Seq<char>, Seq<char>))
    ensures
        (a + b).contains(e) == (a.contains(e) || b.contains(e)),
{
    if (a + b).contains(e) {
        let i = choose|i: int| 0 <= i < (a + b).len() && (a + b)[i] == e;
        if i < a.len() {
            assert(a[i] == e);
        } else {
            assert(b[i - a.len()] == e);
        }
    }
    if a.contains(e) {
        let i = choose|i: int| 0 <= i < a.len() && a[i] == e;
        assert((a + b)[i] == e);
    }
    if b.contains(e) {
        let i = choose|i: int| 0 <= i < b.len() && b[i] == e;
        assert((a + b)[i + a.len()] == e);
    }
}

proof fn lemma_keyed_excludes(seg: Seq<(Seq<char>, Seq<char>)>, key: Seq<char>, other: Seq<char>, v: Seq<char>)
    requires
        keyed(seg, key),
        key != other,
    ensures
        !seg.contains((other, v)),
{
    if seg.contains((other, v)) {
        let i = choose|i: int| 0 <= i < seg.len() && seg[i] == (other, v);
        assert(seg[i].0 == key);
    }
}

/// In parameter lists whose keys are pairwise different, a pair with the `j`-th key is
/// found exactly in the `j`-th list.
proof fn lemma_flatten_keyed(
    segs: Seq<Seq<(Seq<char>, Seq<char>)>>,
    keys: Seq<Seq<char>>,
    j: int,
    v: Seq<char>,
)
    requires
        segs.len() == keys.len(),
        0 <= j < segs.len(),
        forall|i: int| 0 <= i < segs.len() ==> keyed(#[trigger] segs[i], keys[i]),
        forall|i: int| 0 <= i < keys.len() && i != j ==> #[trigger] keys[i] != keys[j],
    ensures
        flatten_params(segs).contains((keys[j], v)) == segs[j].contains((keys[j], v)),
    decreases segs.len(),
{
    let init = segs.drop_last();
    let last = segs.len() - 1;
    lemma_concat_contains(flatten_params(init), segs.last(), (keys[j], v));
    if j == last {
        lemma_flatten_excludes(init, keys.drop_last(), keys[j], v);
    } else {
        assert(keyed(segs[last], keys[last]));
        assert(keys[last] != keys[j]);
        lemma_keyed_excludes(segs.last(), keys[last], keys[j], v);
        assert forall|i: int| 0 <= i < init.len() implies keyed(#[trigger] init[i], keys.drop_last()[i]) by {
            assert(init[i] == segs[i]);
            assert(keyed(segs[i], keys[i]));
        }
        assert forall|i: int| 0 <= i < keys.drop_last().len() && i != j implies #[trigger] keys.drop_last()[i]
            != keys.drop_last()[j] by {
            assert(keys[i] != keys[j]);
        }
        lemma_flatten_keyed(init, keys.drop_last(), j, v);
    }
}

proof fn lemma_flatten_excludes(segs: Seq<Seq<(Seq<char>, Seq<char>)>>, keys: Seq<Seq<char>>, other: Seq<char>, v: Seq<char>)
    requires
        segs.len() == keys.len(),
        forall|i: int| 0 <= i < segs.len() ==> keyed(#[trigger] segs[i], keys[i]),
        forall|i: int| 0 <= i < keys.len() ==> #[trigger] keys[i] != other,
    ensures
        !flatten_params(segs).contains((other, v)),
    decreases segs.len(),
{
    if segs.len() > 0 {
        let init = segs.drop_last();
        let last = segs.len() - 1;
        assert(keyed(segs[last], keys[last]));
        assert(keys[last] != other);
        lemma_keyed_excludes(segs.last(), keys[last], other, v);
        assert forall|i: int| 0 <= i < init.len() implies keyed(#[trigger] init[i], keys.drop_last()[i]) by {
            assert(init[i] == segs[i]);
            assert(keyed(segs[i], keys[i]));
        }
        assert forall|i: int| 0 <= i < keys.drop_last().len() implies #[trigger] keys.drop_last()[i] != other by {
            assert(keys[i] != other);
        }
        lemma_flatten_excludes(init, keys.drop_last(), other, v);
        lemma_concat_contains(flatten_params(init), segs.last(), (other, v));
    }
}

proof fn lemma_opt_param(key: Seq<char>, o: Option<Seq<char>>, v: Seq<char>)
    ensures
        keyed(opt_param(key, o), key),
        opt_param(key, o).contains((key, v)) == (o == Some(v)),
{
    if o is Some {
        assert(opt_param(key, o)[0] == (key, o->0));
    }
}

proof fn lemma_list_param(key: Seq<char>, o: Option<Seq<Seq<char>>>, sep: Seq<char>, skip_empty: bool, v: Seq<char>)
    ensures
        keyed(list_param(key, o, sep, skip_empty), key),
        list_param(key, o, sep, skip_empty).contains((key, v)) == (o matches Some(items) && !(skip_empty
            && items.len() == 0) && v == join_with(items, sep)),
{
    let p = list_param(key, o, sep, skip_empty);
    if p.len() > 0 {
        assert(p[0].0 == key);
        assert(p[0].1 == join_with(o->0, sep));
    }
}

proof fn lemma_cleared_param(key: Seq<char>, o: Option<Seq<char>>, v: Seq<char>)
    ensures
        keyed(cleared_param(key, o), key),
        cleared_param(key, o).contains((key, v)) == (o matches Some(x) && v == none_cleared(x)),
{
    let p = cleared_param(key, o);
    if p.len() > 0 {
        assert(p[0] == (key, none_cleared(o->0)));
    }
}

proof fn lemma_flag_param(key: Seq<char>, o: Option<bool>, v: Seq<char>)
    ensures
        keyed(flag_param(key, o), key),
        flag_param(key, o).contains((key, v)) == (o matches Some(b) && v == (if b { "true"@ } else { "false"@ })),
{
    let p = flag_param(key, o);
    if p.len() > 0 {
        assert(p[0] == (key, if o->0 { "true"@ } else { "false"@ }));
    }
}

// ── Creating todos ─────────────────────────────────────────────────

/// A new todo.
#[derive(Debug, Clone)]
pub struct CreateTodo {
    /// Title of the new todo.
    pub title: String,
    /// Notes body (max 10,000 characters).
    pub notes: Option<String>,
    /// Schedule: today, tomorrow, evening, anytime, someday, or a date like 2026-07-10.
    pub when: Option<String>,
    /// Deadline date (YYYY-MM-DD).
    pub deadline: Option<String>,
    /// Tag titles to apply (tags must already exist in Things).
    pub tags: Option<Vec<String>>,
    /// Title of a project or area to add the todo to.
    pub list: Option<String>,
    /// Heading within the target project.
    pub heading: Option<String>,
    /// Checklist items to add (max 100).
    pub checklist_items: Option<Vec<String>>,
}

impl Default for CreateTodo {
    fn default() -> (r: Self)
        ensures
            r.title@ == Seq::<char>::empty(),
            r.notes is None,
            r.when is None,
            r.deadline is None,
            r.tags is None,
            r.list is None,
            r.heading is None,
            r.checklist_items is None,
    {
        CreateTodo {
            title: String::new(),
            notes: None,
            when: None,
            deadline: None,
            tags: None,
            list: None,
            heading: None,
            checklist_items: None,
        }
    }
}

/// The parameters of `things:///add` for a new todo: the title, then each given field;
/// tags joined by commas and checklist items by newlines, each only when not empty.
pub open spec fn create_todo_params(a: CreateTodo) -> Seq<(Seq<char>, Seq<char>)> {
    seq![("title"@, a.title@)] + opt_param("notes"@, opt_view(a.notes)) + opt_param("when"@, opt_view(a.when))
        + opt_param("deadline"@, opt_view(a.deadline)) + list_param("tags"@, opt_views(a.tags), ","@, true)
        + opt_param("list"@, opt_view(a.list)) + opt_param("heading"@, opt_view(a.heading))
        + list_param("checklist-items"@, opt_views(a.checklist_items), "\n"@, true)
}

/// The URL that creates a todo.
pub fn create_todo_url(args: &CreateTodo) -> (res: String)
    ensures
        res@ == things_url("add"@, create_todo_params(*args)),
{
    let mut params: Vec<(&'static str, String)> = Vec::new();
    push_param(&mut params, "title", owned(args.title.as_str()));
    push_opt_param(&mut params, "notes", &args.notes);
    push_opt_param(&mut params, "when", &args.when);
    push_opt_param(&mut params, "deadline", &args.deadline);
    push_list_param(&mut params, "tags", &args.tags, ",", true);
    push_opt_param(&mut params, "list", &args.list);
    push_opt_param(&mut params, "heading", &args.heading);
    push_list_param(&mut params, "checklist-items", &args.checklist_items, "\n", true);
    assert(owned_param_views(params@) =~= create_todo_params(*args));
    url_with("add", &params)
}

/// The keys of `things:///add`, in the order they are sent.
pub open spec fn create_todo_keys() -> Seq<Seq<char>> {
    seq!["title"@, "notes"@, "when"@, "deadline"@, "tags"@, "list"@, "heading"@, "checklist-items"@]
}

proof fn lemma_create_todo_keys_distinct()
    ensures
        forall|i: int, j: int|
            0 <= i < 8 && 0 <= j < 8 && i != j ==> #[trigger] create_todo_keys()[i] != #[trigger] create_todo_keys()[j],
{
    reveal_strlit("title");
    reveal_strlit("notes");
    reveal_strlit("when");
    reveal_strlit("deadline");
    reveal_strlit("tags");
    reveal_strlit("list");
    reveal_strlit("heading");
    reveal_strlit("checklist-items");
    let k = create_todo_keys();
    assert forall|i: int, j: int| 0 <= i < 8 && 0 <= j < 8 && i != j implies #[trigger] k[i] != #[trigger] k[j] by {
        assert(k[i].len() != k[j].len() || k[i][0] != k[j][0]);
    }
}

/// Every field given to a new todo reaches the `things:///add` URL under its own key,
/// and no field is sent that was not given: the title always; notes, schedule,
/// deadline, list and heading exactly when given, with the given text; tags and
/// checklist items exactly when a non-empty list is given, joined by commas and by
/// newlines.
pub proof fn law_create_todo_sends_given_fields(a: CreateTodo, v: Seq<char>)
    ensures
        create_todo_params(a).contains(("title"@, v)) == (v == a.title@),
        create_todo_params(a).contains(("notes"@, v)) == (opt_view(a.notes) == Some(v)),
        create_todo_params(a).contains(("when"@, v)) == (opt_view(a.when) == Some(v)),
        create_todo_params(a).contains(("deadline"@, v)) == (opt_view(a.deadline) == Some(v)),
        create_todo_params(a).contains(("list"@, v)) == (opt_view(a.list) == Some(v)),
        create_todo_params(a).contains(("heading"@, v)) == (opt_view(a.heading) == Some(v)),
        create_todo_params(a).contains(("tags"@, v)) == (opt_views(a.tags) matches Some(items)
            && items.len() > 0 && v == join_with(items, ","@)),
        create_todo_params(a).contains(("checklist-items"@, v)) == (opt_views(a.checklist_items) matches Some(
            items,
        ) && items.len() > 0 && v == join_with(items, "\n"@)),
{
    let keys = create_todo_keys();
    let segs = seq![
        seq![("title"@, a.title@)],
        opt_param("notes"@, opt_view(a.notes)),
        opt_param("when"@, opt_view(a.when)),
        opt_param("deadline"@, opt_view(a.deadline)),
        list_param("tags"@, opt_views(a.tags), ","@, true),
        opt_param("list"@, opt_view(a.list)),
        opt_param("heading"@, opt_view(a.heading)),
        list_param("checklist-items"@, opt_views(a.checklist_items), "\n"@, true),
    ];
    reveal_with_fuel(flatten_params, 9);
    assert(flatten_params(segs) =~= create_todo_params(a));
    lemma_opt_param("notes"@, opt_view(a.notes), v);
    lemma_opt_param("when"@, opt_view(a.when), v);
    lemma_opt_param("deadline"@, opt_view(a.deadline), v);
    lemma_opt_param("list"@, opt_view(a.list), v);
    lemma_opt_param("heading"@, opt_view(a.heading), v);
    lemma_list_param("tags"@, opt_views(a.tags), ","@, true, v);
    lemma_list_param("checklist-items"@, opt_views(a.checklist_items), "\n"@, true, v);
    lemma_opt_param("title"@, Some(a.title@), v);
    assert(seq![("title"@, a.title@)] =~= opt_param("title"@, Some(a.title@)));
    assert forall|i: int| 0 <= i < segs.len() implies keyed(#[trigger] segs[i], keys[i]) by {
        if i == 0 {
            assert(segs[0] =~= opt_param("title"@, Some(a.title@)));
        }
    }
    lemma_create_todo_keys_distinct();
    assert forall|j: int| 0 <= j < 8 implies flatten_params(segs).contains((#[trigger] keys[j], v))
        == segs[j].contains((keys[j], v)) by {
        lemma_flatten_keyed(segs, keys, j, v);
    }
    assert(keys[0] == "title"@ && keys[1] == "notes"@ && keys[2] == "when"@ && keys[3] == "deadline"@);
    assert(keys[4] == "tags"@ && keys[5] == "list"@ && keys[6] == "heading"@ && keys[7] == "checklist-items"@);
}

/// The result of creating a todo titled `title`, with its id when it was found.
pub fn todo_created(title: &str, id: Option<String>) -> (res: ActionResult)
    ensures
        res.message@ == "Created todo: "@ + title@,
        opt_view(res.id) == opt_view(id),
{
    let mut m = owned("Created todo: ");
    push_str(&mut m, title);
    ActionResult { message: m, id }
}

// ── Updating todos ─────────────────────────────────────────────────

/// Changes to an existing todo.
#[derive(Debug, Clone)]
pub struct UpdateTodo {
    /// Todo id (preferred). If omitted, `name` is used to find the todo.
    pub id: Option<String>,
    /// Current todo name, used to look up the id when `id` is omitted.
    pub name: Option<String>,
    /// New title.
    pub title: Option<String>,
    /// Replacement notes body.
    pub notes: Option<String>,
    /// Text to append to the existing notes.
    pub append_notes: Option<String>,
    /// New schedule: today, tomorrow, evening, anytime, someday, a date, or "none" to clear.
    pub when: Option<String>,
    /// New deadline (YYYY-MM-DD), or "none" to clear.
    pub deadline: Option<String>,
    /// Replacement tag titles (replaces all existing tags).
    pub tags: Option<Vec<String>>,
    /// Tag titles to add to the existing ones.
    pub add_tags: Option<Vec<String>>,
    /// Title of a project or area to move the todo into.
    pub list: Option<String>,
    /// Mark completed (true) or back to open (false).
    pub completed: Option<bool>,
    /// Mark canceled (true) or back to open (false).
    pub canceled: Option<bool>,
}

/// Whether an update changes nothing but names the todo.
pub open spec fn update_is_blank(a: UpdateTodo) -> bool {
    &&& a.title is None
    &&& a.notes is None
    &&& a.append_notes is None
    &&& a.when is None
    &&& a.deadline is None
    &&& a.tags is None
    &&& a.add_tags is None
    &&& a.list is None
    &&& a.completed is None
    &&& a.canceled is None
}

impl Default for UpdateTodo {
    fn default() -> (r: Self)
        ensures
            r.id is None,
            r.name is None,
            update_is_blank(r),
    {
        UpdateTodo {
            id: None,
            name: None,
            title: None,
            notes: None,
            append_notes: None,
            when: None,
            deadline: None,
            tags: None,
            add_tags: None,
            list: None,
            completed: None,
            canceled: None,
        }
    }
}

/// A schedule or deadline as sent to Things: the keyword `none`, in any ASCII case,
/// clears the field and is sent as empty text.
pub open spec fn none_cleared(value: Seq<char>) -> Seq<char> {
    if eq_ignore_ascii_case_spec(value, "none"@) {
        Seq::empty()
    } else {
        value
    }
}

/// Maps the keyword `none` (any ASCII case) to the empty text that clears a field.
pub fn none_clears(value: &str) -> (r: &str)
    ensures
        r@ == none_cleared(value@),
{
    if eq_ignore_ascii_case(value, "none") {
        proof {
            reveal_strlit("");
        }
        ""
    } else {
        value
    }
}

/// The keyword `none`, in any ASCII case (`none`, `NONE`, `None`, ...), clears a
/// schedule or deadline; any other text, a date among them, is sent unchanged.
pub proof fn law_none_clears(value: Seq<char>)
    ensures
        value.len() == 4 && (value[0] == 'n' || value[0] == 'N') && (value[1] == 'o' || value[1] == 'O')
            && (value[2] == 'n' || value[2] == 'N') && (value[3] == 'e' || value[3] == 'E')
            ==> none_cleared(value).len() == 0,
        !eq_ignore_ascii_case_spec(value, "none"@) ==> none_cleared(value) == value,
        value.len() != 4 ==> none_cleared(value) == value,
{
    reveal_strlit("none");
    if value.len() == 4 && (value[0] == 'n' || value[0] == 'N') && (value[1] == 'o' || value[1] == 'O')
        && (value[2] == 'n' || value[2] == 'N') && (value[3] == 'e' || value[3] == 'E') {
        assert forall|i: int| 0 <= i < 4 implies crate::text::ascii_lower(#[trigger] value[i])
            == crate::text::ascii_lower("none"@[i]) by {}
        assert(eq_ignore_ascii_case_spec(value, "none"@));
    }
}

/// A parameter for an optional schedule or deadline, `none` clearing it.
pub open spec fn cleared_param(key: Seq<char>, v: Option<Seq<char>>) -> Seq<(Seq<char>, Seq<char>)> {
    match v {
        Some(x) => seq![(key, none_cleared(x))],
        None => Seq::empty(),
    }
}

/// The changes an update sends, in order: title, notes, appended notes, schedule,
/// deadline, replacement tags (even an empty list, which clears them), added tags
/// (when not empty), project or area, completion and cancellation.
pub open spec fn update_changes(a: UpdateTodo) -> Seq<(Seq<char>, Seq<char>)> {
    update_text_changes(a) + update_placement_changes(a)
}

/// The first part of an update's changes: title, notes, appended notes, schedule, deadline.
pub open spec fn update_text_changes(a: UpdateTodo) -> Seq<(Seq<char>, Seq<char>)> {
    opt_param("title"@, opt_view(a.title)) + opt_param("notes"@, opt_view(a.notes))
        + opt_param("append-notes"@, opt_view(a.append_notes)) + cleared_param("when"@, opt_view(a.when))
        + cleared_param("deadline"@, opt_view(a.deadline))
}

/// The second part of an update's changes: tags, added tags, list, completion, cancellation.
pub open spec fn update_placement_changes(a: UpdateTodo) -> Seq<(Seq<char>, Seq<char>)> {
    list_param("tags"@, opt_views(a.tags), ","@, false) + list_param("add-tags"@, opt_views(a.add_tags), ","@, true)
        + opt_param("list"@, opt_view(a.list)) + flag_param("completed"@, a.completed)
        + flag_param("canceled"@, a.canceled)
}

fn push_text_changes(params: &mut Vec<(&'static str, String)>, args: &UpdateTodo)
    ensures
        owned_param_views(final(params)@) == owned_param_views(old(params)@) + update_text_changes(*args),
{
    push_opt_param(params, "title", &args.title);
    push_opt_param(params, "notes", &args.notes);
    push_opt_param(params, "append-notes", &args.append_notes);
    push_cleared_param(params, "when", &args.when);
    push_cleared_param(params, "deadline", &args.deadline);
    assert(owned_param_views(final(params)@) =~= owned_param_views(old(params)@) + update_text_changes(*args));
}

fn push_placement_changes(params: &mut Vec<(&'static str, String)>, args: &UpdateTodo)
    ensures
        owned_param_views(final(params)@) == owned_param_views(old(params)@) + update_placement_changes(*args),
{
    push_list_param(params, "tags", &args.tags, ",", false);
    push_list_param(params, "add-tags", &args.add_tags, ",", true);
    push_opt_param(params, "list", &args.list);
    push_flag_param(params, "completed", args.completed);
    push_flag_param(params, "canceled", args.canceled);
    assert(owned_param_views(final(params)@) =~= owned_param_views(old(params)@) + update_placement_changes(*args));
}

fn push_cleared_param(params: &mut Vec<(&'static str, String)>, key: &'static str, v: &Option<String>)
    ensures
        owned_param_views(final(params)@) == owned_param_views(old(params)@) + cleared_param(key@, opt_view(*v)),
{
    match v {
        Some(x) => push_param(params, key, owned(none_clears(x.as_str()))),
        None => {
            assert(owned_param_views(final(params)@) =~= owned_param_views(old(params)@) + cleared_param(key@, opt_view(*v)));
        },
    }
}

/// The URL that applies an update to the todo `id`, or `NoUpdates` when the update
/// changes nothing.
pub fn update_todo_url(args: &UpdateTodo, id: &str, auth_token: &str) -> (res: Result<String, OpsError>)
    ensures
        update_changes(*args).len() == 0 ==> res == Err::<String, OpsError>(OpsError::NoUpdates),
        update_changes(*args).len() > 0 ==> (res matches Ok(u) && u@ == things_url(
            "update"@,
            seq![("id"@, id@), ("auth-token"@, auth_token@)] + update_changes(*args),
        )),
{
    let mut params: Vec<(&'static str, String)> = Vec::new();
    push_param(&mut params, "id", owned(id));
    push_param(&mut params, "auth-token", owned(auth_token));
    let ghost head = owned_param_views(params@);
    assert(head =~= seq![("id"@, id@), ("auth-token"@, auth_token@)]);
    push_text_changes(&mut params, args);
    push_placement_changes(&mut params, args);
    assert(owned_param_views(params@) =~= head + update_changes(*args));
    assert(owned_param_views(params@).len() == params@.len());
    if params.len() == 2 {
        return Err(OpsError::NoUpdates);
    }
    Ok(url_with("update", &params))
}

/// Whether an update sets nothing: every field absent, except that an empty list of
/// tags to add also adds nothing.
pub open spec fn update_sets_nothing(a: UpdateTodo) -> bool {
    &&& a.title is None
    &&& a.notes is None
    &&& a.append_notes is None
    &&& a.when is None
    &&& a.deadline is None
    &&& a.tags is None
    &&& (a.add_tags is None || opt_views(a.add_tags)->0.len() == 0)
    &&& a.list is None
    &&& a.completed is None
    &&& a.canceled is None
}

/// An update is refused as sending no changes exactly when it sets nothing: every
/// other field, once given, sends a parameter (an empty tag list clears the tags, and
/// `none` clears a schedule or deadline). So completing a todo, or moving it to a
/// schedule, project or area, is never refused.
pub proof fn law_no_updates_iff_sets_nothing(a: UpdateTodo)
    ensures
        (update_changes(a).len() == 0) == update_sets_nothing(a),
{
    assert(update_changes(a).len() == update_text_changes(a).len() + update_placement_changes(a).len());
}

/// The auth token that `url_scheme::auth_token` picks: the flag's, else a non-empty
/// environment value, else none.
pub open spec fn chosen_token(flag: Option<&str>, env_value: Option<&str>) -> Option<Seq<char>> {
    match flag {
        Some(t) => Some(t@),
        None => match env_value {
            Some(e) => if e@.len() > 0 {
                Some(e@)
            } else {
                None
            },
            None => None,
        },
    }
}

/// Why an update of an existing item was refused before anything was looked up or sent.
#[derive(Debug, Clone, Copy, PartialEq, Eq, Structural)]
pub enum UpdateRefusal {
    /// No auth token was given and none is set in the environment.
    MissingAuthToken,
    /// Neither an id nor a name identifies the todo.
    IdOrNameRequired,
}

impl UpdateRefusal {
    /// The message shown to the user.
    pub fn message(&self) -> (res: String)
        ensures
            *self == UpdateRefusal::IdOrNameRequired ==> res@ == ops_error_message(OpsError::IdOrNameRequired),
            *self == UpdateRefusal::MissingAuthToken ==> res@ == "updating existing items requires the Things auth token. Find it in Things → Settings → General → Enable Things URLs → Manage, then set THINGS_SAK_AUTH_TOKEN or pass --auth-token."@,
    {
        match self {
            UpdateRefusal::MissingAuthToken => crate::url_scheme::MissingAuthToken.message(),
            UpdateRefusal::IdOrNameRequired => OpsError::IdOrNameRequired.message(),
        }
    }
}

fn opt_as_str(o: &Option<String>) -> (r: Option<&str>)
    ensures
        opt_str_view(r) == opt_view(*o),
{
    match o {
        Some(s) => Some(s.as_str()),
        None => None,
    }
}

/// The first steps of updating a todo, in order: the auth token is required before
/// anything else, then an id or a name; the result is the token and how to find the
/// todo's id. Whether the update changes anything is decided only once the id is
/// known (`update_todo_url`).
pub fn prepare_update(args: &UpdateTodo, flag: Option<&str>, env_value: Option<&str>) -> (res: Result<
    (String, IdLookup),
    UpdateRefusal,
>)
    ensures
        chosen_token(flag, env_value) is None ==> res == Err::<(String, IdLookup), UpdateRefusal>(
            UpdateRefusal::MissingAuthToken,
        ),
        chosen_token(flag, env_value) is Some ==> match opt_view(args.id) {
            Some(i) => res matches Ok((tok, IdLookup::Known(k))) && Some(tok@) == chosen_token(flag, env_value)
                && k@ == i,
            None => match opt_view(args.name) {
                Some(n) => res matches Ok((tok, IdLookup::Query(q))) && Some(tok@) == chosen_token(flag, env_value)
                    && q@ == told(id_query_body("to do"@, n)),
                None => res == Err::<(String, IdLookup), UpdateRefusal>(UpdateRefusal::IdOrNameRequired),
            },
        },
{
    let token = match crate::url_scheme::auth_token(flag, env_value) {
        Ok(t) => t,
        Err(_) => return Err(UpdateRefusal::MissingAuthToken),
    };
    match resolve_todo_id(opt_as_str(&args.id), opt_as_str(&args.name)) {
        Ok(lookup) => Ok((token, lookup)),
        Err(_) => Err(UpdateRefusal::IdOrNameRequired),
    }
}

/// The first steps of moving the project titled `project` into an area, in order: the
/// auth token is required first; the result is the token and the script that looks
/// up the project's id.
pub fn prepare_project_move(project: &str, flag: Option<&str>, env_value: Option<&str>) -> (res: Result<
    (String, String),
    crate::url_scheme::MissingAuthToken,
>)
    ensures
        chosen_token(flag, env_value) is None ==> res is Err,
        chosen_token(flag, env_value) is Some ==> (res matches Ok((tok, q)) && Some(tok@) == chosen_token(
            flag,
            env_value,
        ) && q@ == told(id_query_body("project"@, project@))),
{
    let token = crate::url_scheme::auth_token(flag, env_value)?;
    Ok((token, id_query_script("project", project)))
}

/// The parameters an update sends after the id and the auth token, field by field.
pub open spec fn update_segments(a: UpdateTodo) -> Seq<Seq<(Seq<char>, Seq<char>)>> {
    seq![
        opt_param("title"@, opt_view(a.title)),
        opt_param("notes"@, opt_view(a.notes)),
        opt_param("append-notes"@, opt_view(a.append_notes)),
        cleared_param("when"@, opt_view(a.when)),
        cleared_param("deadline"@, opt_view(a.deadline)),
        list_param("tags"@, opt_views(a.tags), ","@, false),
        list_param("add-tags"@, opt_views(a.add_tags), ","@, true),
        opt_param("list"@, opt_view(a.list)),
        flag_param("completed"@, a.completed),
        flag_param("canceled"@, a.canceled),
    ]
}

proof fn lemma_update_segments(a: UpdateTodo, v: Seq<char>)
    ensures
        forall|i: int| 0 <= i < 10 ==> keyed(#[trigger] update_segments(a)[i], update_keys()[i]),
        update_segments(a)[0].contains(("title"@, v)) == (opt_view(a.title) == Some(v)),
        update_segments(a)[1].contains(("notes"@, v)) == (opt_view(a.notes) == Some(v)),
        update_segments(a)[2].contains(("append-notes"@, v)) == (opt_view(a.append_notes) == Some(v)),
        update_segments(a)[3].contains(("when"@, v)) == (opt_view(a.when) matches Some(x) && v == none_cleared(x)),
        update_segments(a)[4].contains(("deadline"@, v)) == (opt_view(a.deadline) matches Some(x) && v
            == none_cleared(x)),
        update_segments(a)[5].contains(("tags"@, v)) == (opt_views(a.tags) matches Some(items) && v == join_with(
            items,
            ","@,
        )),
        update_segments(a)[6].contains(("add-tags"@, v)) == (opt_views(a.add_tags) matches Some(items)
            && items.len() > 0 && v == join_with(items, ","@)),
        update_segments(a)[7].contains(("list"@, v)) == (opt_view(a.list) == Some(v)),
        update_segments(a)[8].contains(("completed"@, v)) == (a.completed matches Some(b) && v == (if b {
            "true"@
        } else {
            "false"@
        })),
        update_segments(a)[9].contains(("canceled"@, v)) == (a.canceled matches Some(b) && v == (if b {
            "true"@
        } else {
            "false"@
        })),
{
    lemma_opt_param("title"@, opt_view(a.title), v);
    lemma_opt_param("notes"@, opt_view(a.notes), v);
    lemma_opt_param("append-notes"@, opt_view(a.append_notes), v);
    lemma_cleared_param("when"@, opt_view(a.when), v);
    lemma_cleared_param("deadline"@, opt_view(a.deadline), v);
    lemma_list_param("tags"@, opt_views(a.tags), ","@, false, v);
    lemma_list_param("add-tags"@, opt_views(a.add_tags), ","@, true, v);
    lemma_opt_param("list"@, opt_view(a.list), v);
    lemma_flag_param("completed"@, a.completed, v);
    lemma_flag_param("canceled"@, a.canceled, v);
}

proof fn lemma_flatten_step(segs: Seq<Seq<(Seq<char>, Seq<char>)>>, k: int)
    requires
        0 <= k < segs.len(),
    ensures
        flatten_params(segs.take(k + 1)) == flatten_params(segs.take(k)) + segs[k],
{
    assert(segs.take(k + 1).drop_last() =~= segs.take(k));
}

proof fn lemma_flatten_ten(
    s0: Seq<(Seq<char>, Seq<char>)>, s1: Seq<(Seq<char>, Seq<char>)>, s2: Seq<(Seq<char>, Seq<char>)>, s3: Seq<(Seq<char>, Seq<char>)>, s4: Seq<(Seq<char>, Seq<char>)>,
    s5: Seq<(Seq<char>, Seq<char>)>, s6: Seq<(Seq<char>, Seq<char>)>, s7: Seq<(Seq<char>, Seq<char>)>, s8: Seq<(Seq<char>, Seq<char>)>, s9: Seq<(Seq<char>, Seq<char>)>,
)
    ensures
        flatten_params(seq![s0, s1, s2, s3, s4, s5, s6, s7, s8, s9])
            == (s0 + s1 + s2 + s3 + s4) + (s5 + s6 + s7 + s8 + s9),
{
    let g = seq![s0, s1, s2, s3, s4, s5, s6, s7, s8, s9];
    assert(flatten_params(g.take(0)) =~= Seq::<(Seq<char>, Seq<char>)>::empty());
    lemma_flatten_step(g, 0);
    lemma_flatten_step(g, 1);
    lemma_flatten_step(g, 2);
    lemma_flatten_step(g, 3);
    lemma_flatten_step(g, 4);
    lemma_flatten_step(g, 5);
    lemma_flatten_step(g, 6);
    lemma_flatten_step(g, 7);
    lemma_flatten_step(g, 8);
    lemma_flatten_step(g, 9);
    assert(flatten_params(g.take(1)) =~= s0);
    assert(g.take(10) =~= g);
    assert(flatten_params(g) =~= (s0 + s1 + s2 + s3 + s4) + (s5 + s6 + s7 + s8 + s9));
}

proof fn lemma_update_segments_flatten(a: UpdateTodo)
    ensures
        flatten_params(update_segments(a)) == update_changes(a),
{
    lemma_flatten_ten(
        opt_param("title"@, opt_view(a.title)),
        opt_param("notes"@, opt_view(a.notes)),
        opt_param("append-notes"@, opt_view(a.append_notes)),
        cleared_param("when"@, opt_view(a.when)),
        cleared_param("deadline"@, opt_view(a.deadline)),
        list_param("tags"@, opt_views(a.tags), ","@, false),
        list_param("add-tags"@, opt_views(a.add_tags), ","@, true),
        opt_param("list"@, opt_view(a.list)),
        flag_param("completed"@, a.completed),
        flag_param("canceled"@, a.canceled),
    );
}

/// The keys that an update may send after the id and the auth token, in order.
pub open spec fn update_keys() -> Seq<Seq<char>> {
    seq![
        "title"@,
        "notes"@,
        "append-notes"@,
        "when"@,
        "deadline"@,
        "tags"@,
        "add-tags"@,
        "list"@,
        "completed"@,
        "canceled"@,
    ]
}

proof fn lemma_update_keys_distinct()
    ensures
        forall|i: int, j: int|
            0 <= i < 10 && 0 <= j < 10 && i != j ==> #[trigger] update_keys()[i] != #[trigger] update_keys()[j],
{
    reveal_strlit("title");
    reveal_strlit("notes");
    reveal_strlit("append-notes");
    reveal_strlit("when");
    reveal_strlit("deadline");
    reveal_strlit("tags");
    reveal_strlit("add-tags");
    reveal_strlit("list");
    reveal_strlit("completed");
    reveal_strlit("canceled");
    let k = update_keys();
    assert forall|i: int, j: int| 0 <= i < 10 && 0 <= j < 10 && i != j implies #[trigger] k[i] != #[trigger] k[j] by {
        assert(k[i].len() != k[j].len() || k[i][0] != k[j][0]);
    }
}

/// Every field of an update is sent under its own key, exactly when it is given: a
/// new title, a replacement notes body (`notes`) and text to append to the notes
/// (`append-notes`) with the given text; schedule and deadline with `none` cleared;
/// replacement tags even when empty, added tags only when not empty; the project or
/// area; completion and cancellation as `true` or `false`.
pub proof fn law_update_sends_given_fields(a: UpdateTodo, v: Seq<char>)
    ensures
        update_changes(a).contains(("title"@, v)) == (opt_view(a.title) == Some(v)),
        update_changes(a).contains(("notes"@, v)) == (opt_view(a.notes) == Some(v)),
        update_changes(a).contains(("append-notes"@, v)) == (opt_view(a.append_notes) == Some(v)),
        update_changes(a).contains(("when"@, v)) == (opt_view(a.when) matches Some(x) && v == none_cleared(x)),
        update_changes(a).contains(("deadline"@, v)) == (opt_view(a.deadline) matches Some(x) && v
            == none_cleared(x)),
        update_changes(a).contains(("tags"@, v)) == (opt_views(a.tags) matches Some(items) && v == join_with(
            items,
            ","@,
        )),
        update_changes(a).contains(("add-tags"@, v)) == (opt_views(a.add_tags) matches Some(items) && items.len()
            > 0 && v == join_with(items, ","@)),
        update_changes(a).contains(("list"@, v)) == (opt_view(a.list) == Some(v)),
        update_changes(a).contains(("completed"@, v)) == (a.completed matches Some(b) && v == (if b {
            "true"@
        } else {
            "false"@
        })),
        update_changes(a).contains(("canceled"@, v)) == (a.canceled matches Some(b) && v == (if b {
            "true"@
        } else {
            "false"@
        })),
{
    let keys = update_keys();
    let segs = update_segments(a);
    lemma_update_segments(a, v);
    lemma_update_segments_flatten(a);
    lemma_update_keys_distinct();
    assert forall|j: int| 0 <= j < 10 implies flatten_params(segs).contains((#[trigger] keys[j], v))
        == segs[j].contains((keys[j], v)) by {
        lemma_flatten_keyed(segs, keys, j, v);
    }
    assert(keys[0] == "title"@ && keys[1] == "notes"@ && keys[2] == "append-notes"@ && keys[3] == "when"@);
    assert(keys[4] == "deadline"@ && keys[5] == "tags"@ && keys[6] == "add-tags"@ && keys[7] == "list"@);
    assert(keys[8] == "completed"@ && keys[9] == "canceled"@);
}

/// The result of updating a todo: named by its given name, else by its id.
pub fn todo_updated(name: Option<&str>, id: String) -> (res: ActionResult)
    ensures
        res.message@ == "Updated todo: "@ + (match name {
            Some(n) => n@,
            None => id@,
        }),
        opt_view(res.id) == Some(id@),
{
    let mut m = owned("Updated todo: ");
    match name {
        Some(n) => push_str(&mut m, n),
        None => push_str(&mut m, id.as_str()),
    }
    ActionResult { message: m, id: Some(id) }
}

/// The update that marks a todo completed.
pub fn complete_todo_update(id: Option<String>, name: Option<String>) -> (res: UpdateTodo)
    ensures
        opt_view(res.id) == opt_view(id),
        opt_view(res.name) == opt_view(name),
        res.completed == Some(true),
        res.title is None && res.notes is None && res.append_notes is None && res.when is None,
        res.deadline is None && res.tags is None && res.add_tags is None && res.list is None,
        res.canceled is None,
{
    UpdateTodo { id, name, completed: Some(true), ..Default::default() }
}

/// The label of a todo being completed: its name, else its id, else nothing.
pub fn complete_label(id: &Option<String>, name: &Option<String>) -> (res: String)
    ensures
        res@ == (match opt_view(*name) {
            Some(n) => n,
            None => match opt_view(*id) {
                Some(i) => i,
                None => Seq::empty(),
            },
        }),
{
    match name {
        Some(n) => owned(n.as_str()),
        None => match id {
            Some(i) => owned(i.as_str()),
            None => String::new(),
        },
    }
}

/// The result of completing the todo labelled `label`.
pub fn todo_completed(label: &str, id: Option<String>) -> (res: ActionResult)
    ensures
        res.message@ == "Completed todo: "@ + label@,
        opt_view(res.id) == opt_view(id),
{
    let mut m = owned("Completed todo: ");
    push_str(&mut m, label);
    ActionResult { message: m, id }
}

// ── Moving and detaching todos ─────────────────────────────────────

/// How a todo is moved.
#[derive(Debug)]
pub enum MovePlan {
    /// To the Inbox, which the URL scheme cannot express: find the todo's id, then run
    /// the AppleScript `move` command.
    ToInbox { id: Option<String>, name: Option<String> },
    /// Through an update of the todo, then reporting `message`.
    Update { args: UpdateTodo, message: String },
}

/// The schedules a todo can be moved to, as keywords of the `when` field.
pub open spec fn schedule_keyword(destination: Seq<char>) -> Option<Seq<char>> {
    if lowercase_equals_spec(destination, "today"@) {
        Some("today"@)
    } else if lowercase_equals_spec(destination, "tomorrow"@) {
        Some("tomorrow"@)
    } else if lowercase_equals_spec(destination, "evening"@) {
        Some("evening"@)
    } else if lowercase_equals_spec(destination, "anytime"@) {
        Some("anytime"@)
    } else if lowercase_equals_spec(destination, "someday"@) {
        Some("someday"@)
    } else {
        None
    }
}

proof fn lemma_first_letters_differ(d: Seq<char>, k1: Seq<char>, k2: Seq<char>)
    requires
        k1.len() > 0,
        k2.len() > 0,
        'a' <= k1[0] <= 'z',
        'a' <= k2[0] <= 'z',
        k1[0] != k2[0] || k1.len() != k2.len(),
    ensures
        !(lowercase_equals_spec(d, k1) && lowercase_equals_spec(d, k2)),
{
    if lowercase_equals_spec(d, k1) && lowercase_equals_spec(d, k2) {
        assert(lowers_to(d[0], k1[0]));
        assert(lowers_to(d[0], k2[0]));
    }
}

/// Each of the five schedule words, in any case, is a schedule keyword: a move to it
/// sets the todo's schedule to that word (never its project or area), and `inbox` is
/// none of them.
pub proof fn law_schedule_words(d: Seq<char>)
    ensures
        lowercase_equals_spec(d, "today"@) ==> schedule_keyword(d) == Some("today"@),
        lowercase_equals_spec(d, "tomorrow"@) ==> schedule_keyword(d) == Some("tomorrow"@),
        lowercase_equals_spec(d, "evening"@) ==> schedule_keyword(d) == Some("evening"@),
        lowercase_equals_spec(d, "anytime"@) ==> schedule_keyword(d) == Some("anytime"@),
        lowercase_equals_spec(d, "someday"@) ==> schedule_keyword(d) == Some("someday"@),
        lowercase_equals_spec(d, "inbox"@) ==> schedule_keyword(d) is None,
{
    reveal_strlit("today");
    reveal_strlit("tomorrow");
    reveal_strlit("evening");
    reveal_strlit("anytime");
    reveal_strlit("someday");
    reveal_strlit("inbox");
    let w = seq!["today"@, "tomorrow"@, "evening"@, "anytime"@, "someday"@, "inbox"@];
    assert forall|i: int, j: int| 0 <= i < 6 && 0 <= j < 6 && i != j implies !(lowercase_equals_spec(d, w[i])
        && lowercase_equals_spec(d, w[j])) by {
        lemma_first_letters_differ(d, w[i], w[j]);
    }
    assert(w[0] == "today"@ && w[1] == "tomorrow"@ && w[2] == "evening"@);
    assert(w[3] == "anytime"@ && w[4] == "someday"@ && w[5] == "inbox"@);
}

/// Whether an update names the todo by `id` and `name`.
pub open spec fn names_todo(a: UpdateTodo, id: Option<String>, name: Option<String>) -> bool {
    opt_view(a.id) == opt_view(id) && opt_view(a.name) == opt_view(name)
}

/// Which schedule keyword, if any, `destination` lowercases to.
fn find_schedule_keyword(destination: &str) -> (r: Option<&'static str>)
    ensures
        match r {
            Some(k) => schedule_keyword(destination@) == Some(k@),
            None => schedule_keyword(destination@) is None,
        },
{
    if lowercase_equals(destination, "today") {
        Some("today")
    } else if lowercase_equals(destination, "tomorrow") {
        Some("tomorrow")
    } else if lowercase_equals(destination, "evening") {
        Some("evening")
    } else if lowercase_equals(destination, "anytime") {
        Some("anytime")
    } else if lowercase_equals(destination, "someday") {
        Some("someday")
    } else {
        None
    }
}

/// How to move a todo to `destination`: the Inbox; a schedule (today, tomorrow,
/// evening, anytime, someday), set through the `when` field; or else a project or
/// area with that title, set through the `list` field. Keywords are recognised in any
/// case, as `to_lowercase` sees them.
pub fn plan_move_todo(id: Option<String>, name: Option<String>, destination: &str) -> (res: MovePlan)
    ensures
        lowercase_equals_spec(destination@, "inbox"@) ==> (res matches MovePlan::ToInbox { id: i, name: n }
            && opt_view(i) == opt_view(id) && opt_view(n) == opt_view(name)),
        !lowercase_equals_spec(destination@, "inbox"@) ==> (res matches MovePlan::Update { args, message }
            && names_todo(args, id, name) && args.title is None && args.notes is None
            && args.append_notes is None && args.deadline is None && args.tags is None
            && args.add_tags is None && args.completed is None && args.canceled is None
            && match schedule_keyword(destination@) {
                Some(k) => opt_view(args.when) == Some(k) && args.list is None
                    && message@ == "Moved todo to "@ + k,
                None => args.when is None && opt_view(args.list) == Some(destination@)
                    && message@ == "Moved todo to \""@ + destination@ + "\""@,
            }),
{
    if lowercase_equals(destination, "inbox") {
        return MovePlan::ToInbox { id, name };
    }
    match find_schedule_keyword(destination) {
        Some(k) => {
            let mut message = owned("Moved todo to ");
            push_str(&mut message, k);
            let args = UpdateTodo { id, name, when: Some(owned(k)), ..Default::default() };
            MovePlan::Update { args, message }
        },
        None => {
            let mut message = owned("Moved todo to \"");
            push_str(&mut message, destination);
            push_str(&mut message, "\"");
            let args = UpdateTodo { id, name, list: Some(owned(destination)), ..Default::default() };
            MovePlan::Update { args, message }
        },
    }
}

/// The script body that moves the todo `id` to the Inbox.
pub open spec fn inbox_move_body(id: Seq<char>) -> Seq<char> {
    "move to do id "@ + quoted(id) + " to list \"Inbox\""@
}

/// The script that moves the todo `todo_id` to the Inbox.
pub fn inbox_move_script(todo_id: &str) -> (res: String)
    ensures
        res@ == told(inbox_move_body(todo_id@)),
{
    let mut b = owned("move to do id ");
    let q = quote(todo_id);
    push_str(&mut b, q.as_str());
    push_str(&mut b, " to list \"Inbox\"");
    assert(b@ =~= inbox_move_body(todo_id@));
    tell_things(b.as_str())
}

/// The result of moving the todo `todo_id` to the Inbox.
pub fn moved_to_inbox(todo_id: String) -> (res: ActionResult)
    ensures
        res.message@ == "Moved todo to Inbox"@,
        opt_view(res.id) == Some(todo_id@),
{
    ActionResult { message: owned("Moved todo to Inbox"), id: Some(todo_id) }
}

/// The script body that detaches the todo `id` from its project.
pub open spec fn detach_todo_body(id: Seq<char>) -> Seq<char> {
    "delete project of to do id "@ + quoted(id)
}

/// The script that detaches the todo `todo_id` from its project (the todo is kept).
pub fn detach_todo_script(todo_id: &str) -> (res: String)
    ensures
        res@ == told(detach_todo_body(todo_id@)),
{
    let mut b = owned("delete project of to do id ");
    let q = quote(todo_id);
    push_str(&mut b, q.as_str());
    assert(b@ =~= detach_todo_body(todo_id@));
    tell_things(b.as_str())
}

/// The result of detaching the todo `todo_id` from its project.
pub fn todo_detached(todo_id: String) -> (res: ActionResult)
    ensures
        res.message@ == "Removed todo from its project"@,
        opt_view(res.id) == Some(todo_id@),
{
    ActionResult { message: owned("Removed todo from its project"), id: Some(todo_id) }
}

// ── Projects ───────────────────────────────────────────────────────

/// A new project.
#[derive(Debug, Clone)]
pub struct CreateProject {
    /// Title of the new project.
    pub title: String,
    /// Notes body.
    pub notes: Option<String>,
    /// Title of the area to create the project in.
    pub area: Option<String>,
    /// Schedule: today, tomorrow, evening, anytime, someday, or a date.
    pub when: Option<String>,
    /// Deadline date (YYYY-MM-DD).
    pub deadline: Option<String>,
    /// Tag titles to apply.
    pub tags: Option<Vec<String>>,
    /// Initial todo titles to create inside the project.
    pub todos: Option<Vec<String>>,
}

impl Default for CreateProject {
    fn default() -> (r: Self)
        ensures
            r.title@ == Seq::<char>::empty(),
            r.notes is None,
            r.area is None,
            r.when is None,
            r.deadline is None,
            r.tags is None,
            r.todos is None,
    {
        CreateProject {
            title: String::new(),
            notes: None,
            area: None,
            when: None,
            deadline: None,
            tags: None,
            todos: None,
        }
    }
}

/// The parameters of `things:///add-project`: the title, then each given field; tags
/// joined by commas and initial todos by newlines, each only when not empty.
pub open spec fn create_project_params(a: CreateProject) -> Seq<(Seq<char>, Seq<char>)> {
    seq![("title"@, a.title@)] + opt_param("notes"@, opt_view(a.notes)) + opt_param("area"@, opt_view(a.area))
        + opt_param("when"@, opt_view(a.when)) + opt_param("deadline"@, opt_view(a.deadline))
        + list_param("tags"@, opt_views(a.tags), ","@, true) + list_param("to-dos"@, opt_views(a.todos), "\n"@, true)
}

/// The URL that creates a project.
pub fn create_project_url(args: &CreateProject) -> (res: String)
    ensures
        res@ == things_url("add-project"@, create_project_params(*args)),
{
    let mut params: Vec<(&'static str, String)> = Vec::new();
    push_param(&mut params, "title", owned(args.title.as_str()));
    push_opt_param(&mut params, "notes", &args.notes);
    push_opt_param(&mut params, "area", &args.area);
    push_opt_param(&mut params, "when", &args.when);
    push_opt_param(&mut params, "deadline", &args.deadline);
    push_list_param(&mut params, "tags", &args.tags, ",", true);
    push_list_param(&mut params, "to-dos", &args.todos, "\n", true);
    assert(owned_param_views(params@) =~= create_project_params(*args));
    url_with("add-project", &params)
}

/// The result of creating a project titled `title`, with its id when it was found.
pub fn project_created(title: &str, id: Option<String>) -> (res: ActionResult)
    ensures
        res.message@ == "Created project: "@ + title@,
        opt_view(res.id) == opt_view(id),
{
    let mut m = owned("Created project: ");
    push_str(&mut m, title);
    ActionResult { message: m, id }
}

/// The URL that moves the project `id` into the area titled `area`.
pub fn move_project_url(id: &str, auth_token: &str, area: &str) -> (res: String)
    ensures
        res@ == things_url(
            "update-project"@,
            seq![("id"@, id@), ("auth-token"@, auth_token@), ("area"@, area@)],
        ),
{
    let params: [(&str, &str); 3] = [("id", id), ("auth-token", auth_token), ("area", area)];
    let res = build_url("update-project", &params);
    assert(param_views(params@) =~= seq![("id"@, id@), ("auth-token"@, auth_token@), ("area"@, area@)]);
    res
}

/// The result of moving the project titled `project` into `area`.
pub fn project_moved(project: &str, area: &str, id: String) -> (res: ActionResult)
    ensures
        res.message@ == "Moved project \""@ + project@ + "\" to area \""@ + area@ + "\""@,
        opt_view(res.id) == Some(id@),
{
    let mut m = owned("Moved project \"");
    push_str(&mut m, project);
    push_str(&mut m, "\" to area \"");
    push_str(&mut m, area);
    push_str(&mut m, "\"");
    ActionResult { message: m, id: Some(id) }
}

/// The script body that detaches the project `id` from its area.
pub open spec fn detach_project_body(id: Seq<char>) -> Seq<char> {
    "delete area of project id "@ + quoted(id)
}

/// The script that detaches the project `project_id` from its area (the project is kept).
pub fn detach_project_script(project_id: &str) -> (res: String)
    ensures
        res@ == told(detach_project_body(project_id@)),
{
    let mut b = owned("delete area of project id ");
    let q = quote(project_id);
    push_str(&mut b, q.as_str());
    assert(b@ =~= detach_project_body(project_id@));
    tell_things(b.as_str())
}

/// The result of detaching the project titled `project` from its area.
pub fn project_detached(project: &str, id: String) -> (res: ActionResult)
    ensures
        res.message@ == "Removed project \""@ + project@ + "\" from its area"@,
        opt_view(res.id) == Some(id@),
{
    let mut m = owned("Removed project \"");
    push_str(&mut m, project);
    push_str(&mut m, "\" from its area");
    ActionResult { message: m, id: Some(id) }
}

// ── Navigation ─────────────────────────────────────────────────────

/// Whether `target` names a list that `things:///show` opens by id.
pub open spec fn is_builtin_target(target: Seq<char>) -> bool {
    ||| lowercase_equals_spec(target, "inbox"@)
    ||| lowercase_equals_spec(target, "today"@)
    ||| lowercase_equals_spec(target, "anytime"@)
    ||| lowercase_equals_spec(target, "upcoming"@)
    ||| lowercase_equals_spec(target, "someday"@)
    ||| lowercase_equals_spec(target, "logbook"@)
    ||| lowercase_equals_spec(target, "tomorrow"@)
    ||| lowercase_equals_spec(target, "deadlines"@)
}

/// The URL that opens Things at a built-in list (by id), or else searches for `target`.
pub fn show_url(target: &str) -> (res: String)
    ensures
        res@ == things_url(
            "show"@,
            seq![(if is_builtin_target(target@) { "id"@ } else { "query"@ }, target@)],
        ),
{
    let builtin = lowercase_equals(target, "inbox") || lowercase_equals(target, "today")
        || lowercase_equals(target, "anytime") || lowercase_equals(target, "upcoming")
        || lowercase_equals(target, "someday") || lowercase_equals(target, "logbook")
        || lowercase_equals(target, "tomorrow") || lowercase_equals(target, "deadlines");
    let key = if builtin { "id" } else { "query" };
    let params: [(&str, &str); 1] = [(key, target)];
    let res = build_url("show", &params);
    assert(param_views(params@) =~= seq![(key@, target@)]);
    res
}

/// The result of opening Things at `target`.
pub fn shown(target: &str) -> (res: ActionResult)
    ensures
        res.message@ == "Opened Things at: "@ + target@,
        res.id is None,
{
    let mut m = owned("Opened Things at: ");
    push_str(&mut m, target);
    ActionResult { message: m, id: None }
}

} // verus!
