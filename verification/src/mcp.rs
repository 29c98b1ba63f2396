//! The state and arguments of the MCP server's tools.

use vstd::prelude::*;
use crate::text::owned;
use crate::types::{opt_view, BuiltinList, StatusFilter};

verus! {

broadcast use vstd::string::group_string_axioms;

/// The MCP server's state.
#[derive(Debug, Clone)]
pub struct ThingsServer {
    /// Things URL scheme auth token, needed by update tools.
    pub auth_token: Option<String>,
}

impl Default for ThingsServer {
    fn default() -> (r: Self)
        ensures
            r.auth_token is None,
    {
        ThingsServer { auth_token: None }
    }
}

/// The server for the value of the auth token variable in the environment (`None` when
/// it is unset or not Unicode): an empty value counts as no token.
pub fn server_from_env(env_value: Option<&str>) -> (res: ThingsServer)
    ensures
        opt_view(res.auth_token) == (match env_value {
            Some(v) => if v@.len() > 0 { Some(v@) } else { None },
            None => None,
        }),
{
    match env_value {
        Some(v) => {
            if v.is_empty() {
                ThingsServer { auth_token: None }
            } else {
                ThingsServer { auth_token: Some(owned(v)) }
            }
        },
        None => ThingsServer { auth_token: None },
    }
}

/// The status filter a tool uses: the one given, else open items.
pub fn status_or_default(status: Option<StatusFilter>) -> (res: StatusFilter)
    ensures
        res == (match status {
            Some(s) => s,
            None => StatusFilter::Open,
        }),
{
    match status {
        Some(s) => s,
        None => StatusFilter::Open,
    }
}

/// Arguments of `list_todos`.
#[derive(Debug, Clone)]
pub struct ListTodosArgs {
    /// Built-in list to read.
    pub list: BuiltinList,
    /// Filter by status (default: open).
    pub status: Option<StatusFilter>,
    /// Maximum number of todos to fetch, applied before the status filter (useful for logbook).
    pub limit: Option<usize>,
}

/// Arguments of `search_todos`.
#[derive(Debug, Clone)]
pub struct SearchTodosArgs {
    /// Substring to match against todo names.
    pub query: String,
}

/// Arguments of `get_project_todos`.
#[derive(Debug, Clone)]
pub struct ProjectTodosArgs {
    /// Project title.
    pub project: String,
    /// Filter by status (default: open).
    pub status: Option<StatusFilter>,
}

/// Arguments of `list_projects`.
#[derive(Debug, Clone)]
pub struct ListProjectsArgs {
    /// Only list projects in this area.
    pub area: Option<String>,
}

/// Arguments of tools that name one todo.
#[derive(Debug, Clone)]
pub struct TodoRefArgs {
    /// Todo id (preferred, from list/search results).
    pub id: Option<String>,
    /// Todo name, used when id is not known.
    pub name: Option<String>,
}

/// Arguments of `move_todo`.
#[derive(Debug, Clone)]
pub struct MoveTodoArgs {
    /// Todo id (preferred).
    pub id: Option<String>,
    /// Todo name, used when id is not known.
    pub name: Option<String>,
    /// inbox, today, tomorrow, evening, anytime, someday, or a project/area title.
    pub destination: String,
}

/// Arguments of `move_project_to_area`.
#[derive(Debug, Clone)]
pub struct MoveProjectArgs {
    /// Project title.
    pub project: String,
    /// Area title to move the project into.
    pub area: String,
}

/// Arguments of tools that name one project.
#[derive(Debug, Clone)]
pub struct ProjectRefArgs {
    /// Project title.
    pub project: String,
}

} // verus!
