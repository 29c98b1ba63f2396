//! Items read from Things and the results of actions.

use vstd::prelude::*;
use crate::text::{ascii_lower, str_equals};

verus! {

broadcast use vstd::string::group_string_axioms;

/// The view of an optional string.
pub open spec fn opt_view(o: Option<String>) -> Option<Seq<char>> {
    match o {
        Some(s) => Some(s@),
        None => None,
    }
}

/// A todo as read from Things.
#[derive(Debug, Clone)]
pub struct TodoItem {
    pub id: String,
    pub name: String,
    pub status: String,
    pub notes: Option<String>,
    pub deadline: Option<String>,
    pub tags: Option<String>,
    pub project: Option<String>,
    pub area: Option<String>,
    /// Which built-in list the todo was found in (search results only).
    pub list: Option<String>,
}

/// The abstract contents of a todo.
pub struct TodoView {
    pub id: Seq<char>,
    pub name: Seq<char>,
    pub status: Seq<char>,
    pub notes: Option<Seq<char>>,
    pub deadline: Option<Seq<char>>,
    pub tags: Option<Seq<char>>,
    pub project: Option<Seq<char>>,
    pub area: Option<Seq<char>>,
    pub list: Option<Seq<char>>,
}

impl View for TodoItem {
    type V = TodoView;

    open spec fn view(&self) -> TodoView {
        TodoView {
            id: self.id@,
            name: self.name@,
            status: self.status@,
            notes: opt_view(self.notes),
            deadline: opt_view(self.deadline),
            tags: opt_view(self.tags),
            project: opt_view(self.project),
            area: opt_view(self.area),
            list: opt_view(self.list),
        }
    }
}

/// A project as read from Things.
#[derive(Debug, Clone)]
pub struct ProjectItem {
    pub id: String,
    pub name: String,
    pub status: String,
    pub notes: Option<String>,
    pub area: Option<String>,
}

/// The abstract contents of a project.
pub struct ProjectView {
    pub id: Seq<char>,
    pub name: Seq<char>,
    pub status: Seq<char>,
    pub notes: Option<Seq<char>>,
    pub area: Option<Seq<char>>,
}

impl View for ProjectItem {
    type V = ProjectView;

    open spec fn view(&self) -> ProjectView {
        ProjectView {
            id: self.id@,
            name: self.name@,
            status: self.status@,
            notes: opt_view(self.notes),
            area: opt_view(self.area),
        }
    }
}

/// What an action did, and the id of the item it touched when known.
#[derive(Debug, Clone)]
pub struct ActionResult {
    pub message: String,
    pub id: Option<String>,
}

/// Which todos or projects to keep, by status.
#[derive(Debug, Clone, Copy, PartialEq, Eq, Structural)]
pub enum StatusFilter {
    Open,
    Completed,
    Canceled,
    All,
}

impl Default for StatusFilter {
    fn default() -> (r: Self)
        ensures
            r == StatusFilter::Open,
    {
        StatusFilter::Open
    }
}

/// Whether `filter` keeps an item whose status is `status`.
pub open spec fn status_matches(filter: StatusFilter, status: Seq<char>) -> bool {
    match filter {
        StatusFilter::All => true,
        StatusFilter::Open => status == "open"@,
        StatusFilter::Completed => status == "completed"@,
        StatusFilter::Canceled => status == "canceled"@,
    }
}

impl StatusFilter {
    /// Whether this filter keeps an item whose status is `status`.
    pub fn matches(&self, status: &str) -> (r: bool)
        ensures
            r == status_matches(*self, status@),
    {
        match self {
            StatusFilter::All => true,
            StatusFilter::Open => str_equals(status, "open"),
            StatusFilter::Completed => str_equals(status, "completed"),
            StatusFilter::Canceled => str_equals(status, "canceled"),
        }
    }
}

/// The built-in lists of Things.
#[derive(Debug, Clone, Copy, PartialEq, Eq, Structural)]
pub enum BuiltinList {
    Inbox,
    Today,
    Anytime,
    Upcoming,
    Someday,
    Logbook,
    Trash,
}

/// The name Things gives a built-in list.
pub open spec fn things_name(list: BuiltinList) -> Seq<char> {
    match list {
        BuiltinList::Inbox => "Inbox"@,
        BuiltinList::Today => "Today"@,
        BuiltinList::Anytime => "Anytime"@,
        BuiltinList::Upcoming => "Upcoming"@,
        BuiltinList::Someday => "Someday"@,
        BuiltinList::Logbook => "Logbook"@,
        BuiltinList::Trash => "Trash"@,
    }
}

impl BuiltinList {
    /// The name Things gives this list.
    pub fn as_things_name(&self) -> (r: &'static str)
        ensures
            r@ == things_name(*self),
    {
        match self {
            BuiltinList::Inbox => "Inbox",
            BuiltinList::Today => "Today",
            BuiltinList::Anytime => "Anytime",
            BuiltinList::Upcoming => "Upcoming",
            BuiltinList::Someday => "Someday",
            BuiltinList::Logbook => "Logbook",
            BuiltinList::Trash => "Trash",
        }
    }
}

/// The lowercase name under which a built-in list is given on the command line and in
/// MCP arguments.
pub open spec fn list_keyword(list: BuiltinList) -> Seq<char> {
    match list {
        BuiltinList::Inbox => "inbox"@,
        BuiltinList::Today => "today"@,
        BuiltinList::Anytime => "anytime"@,
        BuiltinList::Upcoming => "upcoming"@,
        BuiltinList::Someday => "someday"@,
        BuiltinList::Logbook => "logbook"@,
        BuiltinList::Trash => "trash"@,
    }
}

/// Whether `c` is a printable ASCII character.
pub open spec fn is_ascii_char(c: char) -> bool {
    ' ' <= c <= '~'
}

/// The Things name of every built-in list is non-empty ASCII that starts with a
/// capital letter, and lowercases (in ASCII) to the list's keyword; so different
/// lists have different Things names, and a Things name read as a keyword gives its
/// list back.
pub proof fn law_things_names(l1: BuiltinList, l2: BuiltinList)
    ensures
        things_name(l1).len() > 0,
        'A' <= things_name(l1)[0] <= 'Z',
        forall|i: int| 0 <= i < things_name(l1).len() ==> is_ascii_char(#[trigger] things_name(l1)[i]),
        things_name(l1).map_values(|c: char| ascii_lower(c)) == list_keyword(l1),
        l1 != l2 ==> things_name(l1) != things_name(l2),
        l1 != l2 ==> list_keyword(l1) != list_keyword(l2),
{
    reveal_strlit("Inbox");
    reveal_strlit("Today");
    reveal_strlit("Anytime");
    reveal_strlit("Upcoming");
    reveal_strlit("Someday");
    reveal_strlit("Logbook");
    reveal_strlit("Trash");
    reveal_strlit("inbox");
    reveal_strlit("today");
    reveal_strlit("anytime");
    reveal_strlit("upcoming");
    reveal_strlit("someday");
    reveal_strlit("logbook");
    reveal_strlit("trash");
    let n = things_name(l1);
    assert(n.map_values(|c: char| ascii_lower(c)) =~= list_keyword(l1));
    if l1 != l2 {
        let m = things_name(l2);
        if n == m {
            assert(n.map_values(|c: char| ascii_lower(c)) == m.map_values(|c: char| ascii_lower(c)));
            assert(m.map_values(|c: char| ascii_lower(c)) =~= list_keyword(l2));
        }
        assert(list_keyword(l1) != list_keyword(l2)) by {
            if list_keyword(l1) == list_keyword(l2) {
                assert(list_keyword(l1).len() == list_keyword(l2).len());
                assert(list_keyword(l1)[0] == list_keyword(l2)[0]);
                assert(list_keyword(l1)[1] == list_keyword(l2)[1]);
            }
        }
    }
}

/// Every filter but `All` keeps exactly the items whose status is its own name, and
/// no status is kept by two different such filters; `All` keeps everything.
pub proof fn law_status_filters(s: Seq<char>, f1: StatusFilter, f2: StatusFilter)
    ensures
        status_matches(StatusFilter::Open, s) == (s == "open"@),
        status_matches(StatusFilter::Completed, s) == (s == "completed"@),
        status_matches(StatusFilter::Canceled, s) == (s == "canceled"@),
        status_matches(StatusFilter::All, s),
        f1 != f2 && f1 != StatusFilter::All && f2 != StatusFilter::All ==> !(status_matches(f1, s)
            && status_matches(f2, s)),
{
    reveal_strlit("open");
    reveal_strlit("completed");
    reveal_strlit("canceled");
    assert("open"@.len() == 4 && "completed"@.len() == 9 && "canceled"@.len() == 8);
}

} // verus!
