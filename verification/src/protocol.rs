use vstd::prelude::*;
use vstd::string::StrSliceExecFns;

verus! {

/// Name of the snapshot token that carries a workspace's explicitly chosen
/// parent. The client-shell workspace codec is frozen, so the grouping link
/// rides in the existing `tokens` list under this namespaced name.
pub const PARENT_WORKSPACE_TOKEN: &'static str = "herdr:parent";

/// Value recorded as a workspace's parent when it was explicitly filed at the
/// top level. Recording the choice (rather than clearing the field) keeps a
/// linked worktree from being re-nested under its primary checkout.
pub const EXPLICIT_TOP_LEVEL_PARENT: &'static str = "herdr:top-level";

/// The characters of [`PARENT_WORKSPACE_TOKEN`].
pub open spec fn parent_token_view() -> Seq<char> {
    PARENT_WORKSPACE_TOKEN@
}

/// The characters of [`EXPLICIT_TOP_LEVEL_PARENT`].
pub open spec fn top_level_marker_view() -> Seq<char> {
    EXPLICIT_TOP_LEVEL_PARENT@
}

/// An owned copy of [`PARENT_WORKSPACE_TOKEN`].
pub fn parent_token_name() -> (name: String)
    ensures
        name@ == parent_token_view(),
{
    PARENT_WORKSPACE_TOKEN.to_owned()
}

/// An owned copy of [`EXPLICIT_TOP_LEVEL_PARENT`].
pub fn top_level_marker() -> (marker: String)
    ensures
        marker@ == top_level_marker_view(),
{
    EXPLICIT_TOP_LEVEL_PARENT.to_owned()
}

/// Agent status of a workspace or pane as shown in the sidebar.
#[derive(Clone, Copy, Debug, PartialEq, Eq, Structural)]
pub enum AgentStatus {
    Unknown,
    Idle,
    Done,
    Working,
    Blocked,
}

/// How strongly a status asks for attention; a collapsed group shows the
/// status of highest priority among its members.
pub open spec fn status_priority_spec(status: AgentStatus) -> u8 {
    match status {
        AgentStatus::Unknown => 0,
        AgentStatus::Idle => 1,
        AgentStatus::Done => 2,
        AgentStatus::Working => 3,
        AgentStatus::Blocked => 4,
    }
}

#[verifier::when_used_as_spec(status_priority_spec)]
pub fn status_priority(status: AgentStatus) -> (priority: u8)
    ensures
        priority == status_priority_spec(status),
{
    match status {
        AgentStatus::Unknown => 0,
        AgentStatus::Idle => 1,
        AgentStatus::Done => 2,
        AgentStatus::Working => 3,
        AgentStatus::Blocked => 4,
    }
}

/// A workspace addressed by its public id.
#[derive(Clone, Debug, PartialEq, Eq)]
pub struct WorkspaceTarget {
    pub workspace_id: String,
}

/// Moves one workspace so that it lands before the workspace currently at
/// `insert_index` (or at the end).
#[derive(Clone, Debug, PartialEq, Eq)]
pub struct WorkspaceMoveParams {
    pub workspace_id: String,
    pub insert_index: usize,
}

/// Moves a group of workspaces as one contiguous block before
/// `before_workspace_id` (or to the end).
#[derive(Clone, Debug, PartialEq, Eq)]
pub struct WorkspaceMoveBlockParams {
    pub workspace_ids: Vec<String>,
    pub before_workspace_id: Option<String>,
}

/// The requested grouping change of `workspace.reparent`.
#[derive(Clone, Debug, PartialEq, Eq)]
pub struct WorkspaceReparentParams {
    pub workspace_id: String,
    /// `None` files the workspace at the top level.
    pub parent_workspace_id: Option<String>,
}

/// The API methods that grouping, reordering and acknowledgement use.
#[derive(Clone, Debug, PartialEq, Eq)]
pub enum Method {
    WorkspaceList,
    WorkspaceFocus(WorkspaceTarget),
    WorkspaceMove(WorkspaceMoveParams),
    WorkspaceMoveBlock(WorkspaceMoveBlockParams),
    WorkspaceReparent(WorkspaceReparentParams),
    WorkspaceAcknowledge(WorkspaceTarget),
}

/// An API request.
#[derive(Clone, Debug, PartialEq, Eq)]
pub struct Request {
    pub id: String,
    pub method: Method,
}

/// What a method asks for, by value.
pub enum MethodView {
    WorkspaceList,
    WorkspaceFocus(Seq<char>),
    WorkspaceMove(Seq<char>, usize),
    WorkspaceMoveBlock(Seq<Seq<char>>, Option<Seq<char>>),
    WorkspaceReparent(Seq<char>, Option<Seq<char>>),
    WorkspaceAcknowledge(Seq<char>),
}

/// The view of an optional string.
pub open spec fn opt_string_view(value: Option<String>) -> Option<Seq<char>> {
    match value {
        Some(s) => Some(s@),
        None => None,
    }
}

/// What a method asks for.
pub open spec fn method_view(method: Method) -> MethodView {
    match method {
        Method::WorkspaceList => MethodView::WorkspaceList,
        Method::WorkspaceFocus(t) => MethodView::WorkspaceFocus(t.workspace_id@),
        Method::WorkspaceMove(p) => MethodView::WorkspaceMove(p.workspace_id@, p.insert_index),
        Method::WorkspaceMoveBlock(p) => MethodView::WorkspaceMoveBlock(
            p.workspace_ids@.map_values(|id: String| id@),
            opt_string_view(p.before_workspace_id),
        ),
        Method::WorkspaceReparent(p) => MethodView::WorkspaceReparent(p.workspace_id@, opt_string_view(p.parent_workspace_id)),
        Method::WorkspaceAcknowledge(t) => MethodView::WorkspaceAcknowledge(t.workspace_id@),
    }
}

/// The wire name of each method.
pub open spec fn method_name_spec(method: Method) -> Seq<char> {
    match method {
        Method::WorkspaceList => "workspace.list"@,
        Method::WorkspaceFocus(_) => "workspace.focus"@,
        Method::WorkspaceMove(_) => "workspace.move"@,
        Method::WorkspaceMoveBlock(_) => "workspace.move_block"@,
        Method::WorkspaceReparent(_) => "workspace.reparent"@,
        Method::WorkspaceAcknowledge(_) => "workspace.acknowledge"@,
    }
}

/// The wire name of a method.
pub fn method_name(method: &Method) -> (name: &'static str)
    ensures
        name@ == method_name_spec(*method),
{
    match method {
        Method::WorkspaceList => "workspace.list",
        Method::WorkspaceFocus(_) => "workspace.focus",
        Method::WorkspaceMove(_) => "workspace.move",
        Method::WorkspaceMoveBlock(_) => "workspace.move_block",
        Method::WorkspaceReparent(_) => "workspace.reparent",
        Method::WorkspaceAcknowledge(_) => "workspace.acknowledge",
    }
}

/// Whether handling a request changes what the sidebar shows, so the server
/// must run a render pass and push the client-shell projection. Grouping,
/// order, focus and done markers are all sidebar-visible; a listing is not.
pub open spec fn changes_ui_spec(method: Method) -> bool {
    !(method is WorkspaceList)
}

/// Whether handling `request` changes what the sidebar shows.
pub fn request_changes_ui(request: &Request) -> (changes: bool)
    ensures
        changes == changes_ui_spec(request.method),
{
    match &request.method {
        Method::WorkspaceList => false,
        _ => true,
    }
}

/// Whether two strings hold the same characters.
pub fn str_equals(a: &str, b: &str) -> (equal: bool)
    ensures
        equal == (a@ == b@),
{
    let n = a.unicode_len();
    if n != b.unicode_len() {
        return false;
    }
    let mut i: usize = 0;
    while i < n
        invariant
            n == a@.len() == b@.len(),
            i <= n,
            forall|j: int| 0 <= j < i ==> a@[j] == b@[j],
        decreases n - i,
    {
        if a.get_char(i) != b.get_char(i) {
            return false;
        }
        i += 1;
    }
    assert(a@ =~= b@);
    true
}

/// The methods the TUI may call over the client-shell command lane.
pub open spec fn client_shell_method_names() -> Seq<Seq<char>> {
    seq!["workspace.focus"@, "workspace.move"@, "workspace.move_block"@, "workspace.reparent"@, "workspace.acknowledge"@]
}

/// Whether the client-shell lane allows the method named `name`.
pub fn supports_client_shell_method_name(name: &str) -> (allowed: bool)
    ensures
        allowed == client_shell_method_names().contains(name@),
{
    let names: [&'static str; 5] = ["workspace.focus", "workspace.move", "workspace.move_block", "workspace.reparent", "workspace.acknowledge"];
    let ghost views = seq![names[0]@, names[1]@, names[2]@, names[3]@, names[4]@];
    assert(views == client_shell_method_names());
    let mut i: usize = 0;
    while i < 5
        invariant
            i <= 5,
            views == client_shell_method_names(),
            forall|j: int| 0 <= j < 5 ==> views[j] == (#[trigger] names@[j])@,
            forall|j: int| 0 <= j < i ==> views[j] != name@,
        decreases 5 - i,
    {
        if str_equals(names[i], name) {
            assert(views[i as int] == name@);
            return true;
        }
        i += 1;
    }
    assert(!client_shell_method_names().contains(name@));
    false
}

} // verus!
