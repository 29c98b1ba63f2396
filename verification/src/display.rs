//! Plain-text output of the command-line interface.

use vstd::prelude::*;
use crate::text::{char_vecs, chars_of, owned, push_str, split_chars, split_on, str_equals, string_of_range};
use crate::types::{opt_view, ActionResult, ProjectItem, TodoItem};

verus! {

broadcast use vstd::string::group_string_axioms;

/// The symbol shown for a status: a check mark for completed, a cross for canceled,
/// a circle otherwise.
pub open spec fn status_symbol_spec(status: Seq<char>) -> Seq<char> {
    if status == "completed"@ {
        "✓"@
    } else if status == "canceled"@ {
        "✕"@
    } else {
        "○"@
    }
}

/// The symbol shown for a status.
pub fn status_symbol(status: &str) -> (r: &'static str)
    ensures
        r@ == status_symbol_spec(status@),
{
    if str_equals(status, "completed") {
        "✓"
    } else if str_equals(status, "canceled") {
        "✕"
    } else {
        "○"
    }
}

/// `" #tag"` for each tag.
pub open spec fn tag_suffix(tags: Seq<Seq<char>>) -> Seq<char>
    decreases tags.len(),
{
    if tags.len() == 0 {
        Seq::empty()
    } else {
        tag_suffix(tags.drop_last()) + " #"@ + tags.last()
    }
}

/// The tags of a todo: its tag text split at `", "`, empty pieces dropped.
pub open spec fn tag_list(tags: Seq<char>) -> Seq<Seq<char>> {
    split_on(tags, ", "@).filter(|t: Seq<char>| t.len() > 0)
}

/// The line that shows a todo: status symbol and name; then its project, else its
/// area; its deadline; its tags; and the list it was found in.
pub open spec fn todo_line_spec(
    status: Seq<char>,
    name: Seq<char>,
    project: Option<Seq<char>>,
    area: Option<Seq<char>>,
    deadline: Option<Seq<char>>,
    tags: Option<Seq<char>>,
    list: Option<Seq<char>>,
) -> Seq<char> {
    status_symbol_spec(status) + " "@ + name + (match project {
        Some(p) => " · "@ + p,
        None => match area {
            Some(a) => " · "@ + a,
            None => Seq::empty(),
        },
    }) + (match deadline {
        Some(d) => " · due "@ + d,
        None => Seq::empty(),
    }) + (match tags {
        Some(t) => tag_suffix(tag_list(t)),
        None => Seq::empty(),
    }) + (match list {
        Some(l) => " ["@ + l + "]"@,
        None => Seq::empty(),
    })
}

/// `todo_line_spec` of a todo.
pub open spec fn todo_line_of(t: TodoItem) -> Seq<char> {
    todo_line_spec(
        t.status@,
        t.name@,
        opt_view(t.project),
        opt_view(t.area),
        opt_view(t.deadline),
        opt_view(t.tags),
        opt_view(t.list),
    )
}

fn push_tags(line: &mut String, tags: &str)
    ensures
        final(line)@ == old(line)@ + tag_suffix(tag_list(tags@)),
{
    let chars = chars_of(tags);
    let sep = chars_of(", ");
    proof {
        reveal_strlit(", ");
    }
    let pieces = split_chars(&chars, &sep);
    let ghost pv = char_vecs(pieces@);
    let ghost keep = |t: Seq<char>| t.len() > 0;
    let ghost start = line@;
    let mut i: usize = 0;
    while i < pieces.len()
        invariant
            i <= pieces.len(),
            pv == char_vecs(pieces@),
            pv == split_on(tags@, ", "@),
            keep == (|t: Seq<char>| t.len() > 0),
            line@ == start + tag_suffix(pv.take(i as int).filter(keep)),
        decreases pieces.len() - i,
    {
        proof {
            assert(pv.take(i + 1).drop_last() =~= pv.take(i as int));
            reveal_with_fuel(Seq::<_>::filter, 1);
        }
        let p = &pieces[i];
        let ghost prev = pv.take(i as int).filter(keep);
        if p.len() > 0 {
            let tag = string_of_range(p, 0, p.len());
            assert(p@.subrange(0, p@.len() as int) =~= p@);
            push_str(line, " #");
            push_str(line, tag.as_str());
            proof {
                assert(pv.take(i + 1).filter(keep) == prev.push(p@));
                assert(prev.push(p@).drop_last() =~= prev);
                assert(line@ =~= start + tag_suffix(prev.push(p@)));
            }
        }
        i = i + 1;
    }
    assert(pv.take(pieces.len() as int) =~= pv);
}

/// The line that shows a todo.
pub fn todo_line(t: &TodoItem) -> (res: String)
    ensures
        res@ == todo_line_of(*t),
{
    let mut line = owned(status_symbol(t.status.as_str()));
    push_str(&mut line, " ");
    push_str(&mut line, t.name.as_str());
    let ghost l0 = line@;
    match &t.project {
        Some(p) => {
            push_str(&mut line, " · ");
            push_str(&mut line, p.as_str());
        },
        None => match &t.area {
            Some(a) => {
                push_str(&mut line, " · ");
                push_str(&mut line, a.as_str());
            },
            None => {},
        },
    }
    let ghost l1 = line@;
    match &t.deadline {
        Some(d) => {
            push_str(&mut line, " · due ");
            push_str(&mut line, d.as_str());
        },
        None => {},
    }
    let ghost l2 = line@;
    match &t.tags {
        Some(tags) => push_tags(&mut line, tags.as_str()),
        None => {},
    }
    let ghost l3 = line@;
    match &t.list {
        Some(l) => {
            push_str(&mut line, " [");
            push_str(&mut line, l.as_str());
            push_str(&mut line, "]");
        },
        None => {},
    }
    proof {
        let project_part = match opt_view(t.project) {
            Some(p) => " · "@ + p,
            None => match opt_view(t.area) {
                Some(a) => " · "@ + a,
                None => Seq::empty(),
            },
        };
        assert(l1 =~= l0 + project_part);
        assert(line@ =~= todo_line_of(*t));
    }
    line
}

/// The line that shows a project: status symbol, name, and area when it has one.
pub open spec fn project_line_of(p: ProjectItem) -> Seq<char> {
    status_symbol_spec(p.status@) + " "@ + p.name@ + (match opt_view(p.area) {
        Some(a) => " · "@ + a,
        None => Seq::empty(),
    })
}

/// The line that shows a project.
pub fn project_line(p: &ProjectItem) -> (res: String)
    ensures
        res@ == project_line_of(*p),
{
    let mut line = owned(status_symbol(p.status.as_str()));
    push_str(&mut line, " ");
    push_str(&mut line, p.name.as_str());
    match &p.area {
        Some(a) => {
            push_str(&mut line, " · ");
            push_str(&mut line, a.as_str());
        },
        None => {},
    }
    assert(line@ =~= project_line_of(*p));
    line
}

/// The line that reports an action: its message, and the id when known.
pub open spec fn action_line_of(r: ActionResult) -> Seq<char> {
    match opt_view(r.id) {
        Some(id) => r.message@ + " (id: "@ + id + ")"@,
        None => r.message@,
    }
}

/// The line that reports an action.
pub fn action_line(r: &ActionResult) -> (res: String)
    ensures
        res@ == action_line_of(*r),
{
    let mut line = owned(r.message.as_str());
    match &r.id {
        Some(id) => {
            push_str(&mut line, " (id: ");
            push_str(&mut line, id.as_str());
            push_str(&mut line, ")");
        },
        None => {},
    }
    assert(line@ =~= action_line_of(*r));
    line
}

/// The lines that show a list of todos, or a notice when there is none.
pub fn todo_report(todos: &[TodoItem]) -> (res: Vec<String>)
    ensures
        todos@.len() == 0 ==> res@.len() == 1 && res@[0]@ == "No todos found."@,
        todos@.len() > 0 ==> res@.len() == todos@.len() && forall|i: int|
            0 <= i < todos@.len() ==> (#[trigger] res@[i])@ == todo_line_of(todos@[i]),
{
    let mut res: Vec<String> = Vec::new();
    if todos.len() == 0 {
        res.push(owned("No todos found."));
        return res;
    }
    let mut i: usize = 0;
    while i < todos.len()
        invariant
            i <= todos.len(),
            res@.len() == i,
            forall|j: int| 0 <= j < i ==> (#[trigger] res@[j])@ == todo_line_of(todos@[j]),
        decreases todos.len() - i,
    {
        res.push(todo_line(&todos[i]));
        i = i + 1;
    }
    res
}

/// The lines that show a list of projects, or a notice when there is none.
pub fn project_report(projects: &[ProjectItem]) -> (res: Vec<String>)
    ensures
        projects@.len() == 0 ==> res@.len() == 1 && res@[0]@ == "No projects found."@,
        projects@.len() > 0 ==> res@.len() == projects@.len() && forall|i: int|
            0 <= i < projects@.len() ==> (#[trigger] res@[i])@ == project_line_of(projects@[i]),
{
    let mut res: Vec<String> = Vec::new();
    if projects.len() == 0 {
        res.push(owned("No projects found."));
        return res;
    }
    let mut i: usize = 0;
    while i < projects.len()
        invariant
            i <= projects.len(),
            res@.len() == i,
            forall|j: int| 0 <= j < i ==> (#[trigger] res@[j])@ == project_line_of(projects@[j]),
        decreases projects.len() - i,
    {
        res.push(project_line(&projects[i]));
        i = i + 1;
    }
    res
}

/// The lines that show a list of names, or a notice when there is none.
pub fn name_report(names: &[String]) -> (res: Vec<String>)
    ensures
        names@.len() == 0 ==> res@.len() == 1 && res@[0]@ == "None found."@,
        names@.len() > 0 ==> res@.len() == names@.len() && forall|i: int|
            0 <= i < names@.len() ==> (#[trigger] res@[i])@ == names@[i]@,
{
    let mut res: Vec<String> = Vec::new();
    if names.len() == 0 {
        res.push(owned("None found."));
        return res;
    }
    let mut i: usize = 0;
    while i < names.len()
        invariant
            i <= names.len(),
            res@.len() == i,
            forall|j: int| 0 <= j < i ==> (#[trigger] res@[j])@ == names@[j]@,
        decreases names.len() - i,
    {
        res.push(owned(names[i].as_str()));
        i = i + 1;
    }
    res
}

/// A list given on the command line, or nothing when it is empty.
pub fn non_empty(v: Vec<String>) -> (res: Option<Vec<String>>)
    ensures
        v@.len() == 0 ==> res is None,
        v@.len() > 0 ==> res == Some(v),
{
    if v.len() == 0 {
        None
    } else {
        Some(v)
    }
}

} // verus!
