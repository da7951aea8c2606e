//! Workspace grouping for the sidebar: which rows are top level, and which
//! nest beneath them.
//!
//! An explicit parent (carried to the client as the `herdr:parent` token) wins
//! over git-key grouping, so two workspaces of one monorepo stay separate
//! top-level rows; otherwise a linked git worktree nests under its repo's
//! primary checkout. This is the one grouping shared by the sidebar, the
//! keyboard reorder and the move picker.

use vstd::prelude::*;
use crate::protocol::{
    AgentStatus, parent_token_name, parent_token_view, status_priority, status_priority_spec,
};

verus! {

/// Git worktree membership of a workspace, as projected to the client.
#[derive(Clone, Debug, PartialEq, Eq)]
pub struct ClientShellWorktree {
    pub key: String,
    pub label: String,
    pub is_linked_worktree: bool,
}

/// One workspace of the client-shell snapshot.
#[derive(Clone, Debug, PartialEq, Eq)]
pub struct ClientShellWorkspace {
    pub workspace_id: String,
    pub active_tab_id: String,
    pub new_workspace_cwd: String,
    pub number: usize,
    pub label: String,
    pub custom_label: bool,
    pub branch: Option<String>,
    pub git_ahead_behind: Option<(usize, usize)>,
    pub tokens: Vec<(String, String)>,
    pub worktree: Option<ClientShellWorktree>,
    pub focused: bool,
    pub agent_status: AgentStatus,
}

/// The workspace list the server projects to the client shell.
#[derive(Clone, Debug, PartialEq, Eq)]
pub struct ClientShellSnapshot {
    pub revision: u64,
    pub focused_workspace_id: Option<String>,
    pub workspaces: Vec<ClientShellWorkspace>,
}

/// Value of the first token named `name` at or after position `i`.
pub open spec fn token_value_from(tokens: Seq<(String, String)>, name: Seq<char>, i: int) -> Option<Seq<char>>
    decreases tokens.len() - i,
{
    if i < 0 || i >= tokens.len() {
        None
    } else if tokens[i].0@ == name {
        Some(tokens[i].1@)
    } else {
        token_value_from(tokens, name, i + 1)
    }
}

/// The explicitly chosen parent id a workspace carries in its tokens.
pub open spec fn explicit_parent_spec(workspace: ClientShellWorkspace) -> Option<Seq<char>> {
    token_value_from(workspace.tokens@, parent_token_view(), 0)
}

/// The largest index below `k` whose workspace has id `id`.
pub open spec fn last_index_below(ws: Seq<ClientShellWorkspace>, id: Seq<char>, k: int) -> Option<usize>
    decreases k,
{
    if k <= 0 {
        None
    } else if ws[k - 1].workspace_id@ == id {
        Some((k - 1) as usize)
    } else {
        last_index_below(ws, id, k - 1)
    }
}

/// The last workspace with id `id` (ids resolve to the last holder).
pub open spec fn last_index_of_id(ws: Seq<ClientShellWorkspace>, id: Seq<char>) -> Option<usize> {
    last_index_below(ws, id, ws.len() as int)
}

/// The first workspace at or after `i` with id `id`.
pub open spec fn first_index_of_id_from(ws: Seq<ClientShellWorkspace>, id: Seq<char>, i: int) -> Option<usize>
    decreases ws.len() - i,
{
    if i < 0 || i >= ws.len() {
        None
    } else if ws[i].workspace_id@ == id {
        Some(i as usize)
    } else {
        first_index_of_id_from(ws, id, i + 1)
    }
}

/// The first workspace with id `id`.
pub open spec fn first_index_of_id(ws: Seq<ClientShellWorkspace>, id: Seq<char>) -> Option<usize> {
    first_index_of_id_from(ws, id, 0)
}

/// Whether the workspace is a non-linked (primary) checkout of repo `key`.
pub open spec fn is_primary_of(workspace: ClientShellWorkspace, key: Seq<char>) -> bool {
    match workspace.worktree {
        Some(wt) => !wt.is_linked_worktree && wt.key@ == key,
        None => false,
    }
}

/// The first primary checkout of repo `key` at or after `i`.
pub open spec fn primary_from(ws: Seq<ClientShellWorkspace>, key: Seq<char>, i: int) -> Option<usize>
    decreases ws.len() - i,
{
    if i < 0 || i >= ws.len() {
        None
    } else if is_primary_of(ws[i], key) {
        Some(i as usize)
    } else {
        primary_from(ws, key, i + 1)
    }
}

/// The explicit parent of workspace `i`, when it names another workspace.
pub open spec fn explicit_direct_parent(ws: Seq<ClientShellWorkspace>, i: int) -> Option<usize> {
    match explicit_parent_spec(ws[i]) {
        Some(pid) => match last_index_of_id(ws, pid) {
            Some(p) => if p as int != i { Some(p) } else { None },
            None => None,
        },
        None => None,
    }
}

/// The primary checkout a linked worktree `i` is inferred to sit under.
pub open spec fn inferred_direct_parent(ws: Seq<ClientShellWorkspace>, i: int) -> Option<usize> {
    match ws[i].worktree {
        Some(wt) => if wt.is_linked_worktree {
            match primary_from(ws, wt.key@, 0) {
                Some(p) => if p as int != i { Some(p) } else { None },
                None => None,
            }
        } else {
            None
        },
        None => None,
    }
}

/// Direct parent of workspace `i`: the explicit one wins, else the inferred.
pub open spec fn direct_parent_spec(ws: Seq<ClientShellWorkspace>, i: int) -> Option<usize> {
    if explicit_direct_parent(ws, i) is Some {
        explicit_direct_parent(ws, i)
    } else {
        inferred_direct_parent(ws, i)
    }
}

/// Direct parents of all workspaces.
pub open spec fn direct_parents(ws: Seq<ClientShellWorkspace>) -> Seq<Option<usize>> {
    Seq::new(ws.len(), |i: int| direct_parent_spec(ws, i))
}

/// Every link of a parent sequence points inside it.
pub open spec fn links_in_range(links: Seq<Option<usize>>) -> bool {
    forall|i: int| 0 <= i < links.len() && (#[trigger] links[i]) is Some ==> links[i].unwrap() < links.len()
}

/// One step up a parent sequence; a node without parent stays put.
pub open spec fn parent_step(links: Seq<Option<usize>>, node: int) -> int {
    match links[node] {
        Some(p) => p as int,
        None => node,
    }
}

/// Where `steps` steps up the parent sequence lead from `start`.
pub open spec fn walk(links: Seq<Option<usize>>, start: int, steps: nat) -> int
    decreases steps,
{
    if steps == 0 {
        start
    } else {
        parent_step(links, walk(links, start, (steps - 1) as nat))
    }
}

/// Group parent of workspace `i`: the top-most ancestor reached from its
/// direct parent within as many steps as there are workspaces, unless that
/// is `i` itself. Nesting is flattened to two levels this way.
pub open spec fn group_parent_spec(ws: Seq<ClientShellWorkspace>, i: int) -> Option<usize> {
    let dp = direct_parents(ws);
    match dp[i] {
        Some(d) => {
            let root = walk(dp, d as int, ws.len() as nat);
            if root != i { Some(root as usize) } else { None }
        },
        None => None,
    }
}

/// Group parents of all workspaces.
pub open spec fn group_parents(ws: Seq<ClientShellWorkspace>) -> Seq<Option<usize>> {
    Seq::new(ws.len(), |i: int| group_parent_spec(ws, i))
}

/// Indices below `k` whose parent is `root`, in order.
pub open spec fn children_in(parents: Seq<Option<usize>>, root: int, k: int) -> Seq<usize>
    decreases k,
{
    if k <= 0 {
        Seq::empty()
    } else if parents[k - 1] == Some(root as usize) {
        children_in(parents, root, k - 1).push((k - 1) as usize)
    } else {
        children_in(parents, root, k - 1)
    }
}

/// The ordered children of group root `root`.
pub open spec fn children_spec(ws: Seq<ClientShellWorkspace>, root: int) -> Seq<usize> {
    children_in(group_parents(ws), root, ws.len() as int)
}

/// Each workspace's group parent (`None` = top level) and, per workspace,
/// its ordered children (empty unless it heads a group).
pub struct WorkspaceGrouping {
    pub parent_index: Vec<Option<usize>>,
    pub children_of: Vec<Vec<usize>>,
}

impl WorkspaceGrouping {
    /// This grouping is the one computed from workspaces `ws`.
    pub open spec fn describes(&self, ws: Seq<ClientShellWorkspace>) -> bool {
        &&& self.parent_index@ == group_parents(ws)
        &&& self.children_of@.len() == ws.len()
        &&& forall|r: int| 0 <= r < ws.len() ==> (#[trigger] self.children_of@[r])@ == children_spec(ws, r)
    }

    /// Computes the grouping of a snapshot.
    pub fn compute(snapshot: &ClientShellSnapshot) -> (grouping: Self)
        ensures
            grouping.describes(snapshot.workspaces@),
    {
        workspace_group_layout(snapshot)
    }

    /// The group root workspace `index` nests under, if any.
    pub fn parent_of(&self, index: usize) -> (parent: Option<usize>)
        ensures
            parent == (if index < self.parent_index@.len() { self.parent_index@[index as int] } else { None }),
    {
        if index < self.parent_index.len() {
            self.parent_index[index]
        } else {
            None
        }
    }

    /// The ordered children of group root `root` (empty for any other).
    pub fn children(&self, root: usize) -> (children: &[usize])
        ensures
            children@ == (if root < self.children_of@.len() { self.children_of@[root as int]@ } else { Seq::empty() }),
    {
        if root < self.children_of.len() {
            self.children_of[root].as_slice()
        } else {
            &[]
        }
    }
}

/// The explicitly chosen parent id a workspace carries in its tokens.
pub fn explicit_parent_id(workspace: &ClientShellWorkspace) -> (parent: Option<&String>)
    ensures
        match parent {
            Some(id) => explicit_parent_spec(*workspace) == Some(id@),
            None => explicit_parent_spec(*workspace) is None,
        },
{
    let token = parent_token_name();
    let mut i: usize = 0;
    while i < workspace.tokens.len()
        invariant
            i <= workspace.tokens@.len(),
            token@ == parent_token_view(),
            token_value_from(workspace.tokens@, token@, 0) == token_value_from(workspace.tokens@, token@, i as int),
        decreases workspace.tokens@.len() - i,
    {
        if workspace.tokens[i].0 == token {
            return Some(&workspace.tokens[i].1);
        }
        i += 1;
    }
    None
}

/// The last workspace whose id is `id`.
fn last_index_of(ws: &Vec<ClientShellWorkspace>, id: &String) -> (index: Option<usize>)
    ensures
        index == last_index_of_id(ws@, id@),
{
    let mut k: usize = ws.len();
    while k > 0
        invariant
            k <= ws@.len(),
            last_index_of_id(ws@, id@) == last_index_below(ws@, id@, k as int),
        decreases k,
    {
        if ws[k - 1].workspace_id == *id {
            return Some(k - 1);
        }
        k -= 1;
    }
    None
}

/// The first workspace whose id is `id`.
pub fn position_of_id(ws: &Vec<ClientShellWorkspace>, id: &String) -> (index: Option<usize>)
    ensures
        index == first_index_of_id(ws@, id@),
        match index {
            Some(i) => i < ws@.len() && ws@[i as int].workspace_id@ == id@,
            None => forall|j: int| 0 <= j < ws@.len() ==> ws@[j].workspace_id@ != id@,
        },
{
    let mut i: usize = 0;
    while i < ws.len()
        invariant
            i <= ws@.len(),
            first_index_of_id(ws@, id@) == first_index_of_id_from(ws@, id@, i as int),
            forall|j: int| 0 <= j < i ==> ws@[j].workspace_id@ != id@,
        decreases ws@.len() - i,
    {
        if ws[i].workspace_id == *id {
            return Some(i);
        }
        i += 1;
    }
    None
}

/// The first primary checkout of repo `key`.
fn primary_of_key(ws: &Vec<ClientShellWorkspace>, key: &String) -> (index: Option<usize>)
    ensures
        index == primary_from(ws@, key@, 0),
{
    let mut i: usize = 0;
    while i < ws.len()
        invariant
            i <= ws@.len(),
            primary_from(ws@, key@, 0) == primary_from(ws@, key@, i as int),
        decreases ws@.len() - i,
    {
        let found = match &ws[i].worktree {
            Some(wt) => !wt.is_linked_worktree && wt.key == *key,
            None => false,
        };
        if found {
            return Some(i);
        }
        i += 1;
    }
    None
}

/// Direct parent of workspace `index`: explicit wins, else the linked primary.
fn direct_parent_at(ws: &Vec<ClientShellWorkspace>, index: usize) -> (parent: Option<usize>)
    requires
        index < ws@.len(),
    ensures
        parent == direct_parent_spec(ws@, index as int),
{
    if let Some(parent_id) = explicit_parent_id(&ws[index]) {
        if let Some(parent) = last_index_of(ws, parent_id) {
            if parent != index {
                return Some(parent);
            }
        }
    }
    if let Some(worktree) = &ws[index].worktree {
        if worktree.is_linked_worktree {
            if let Some(parent) = primary_of_key(ws, &worktree.key) {
                if parent != index {
                    return Some(parent);
                }
            }
        }
    }
    None
}

pub proof fn lemma_walk_in_range(links: Seq<Option<usize>>, start: int, steps: nat)
    requires
        links_in_range(links),
        0 <= start < links.len(),
    ensures
        0 <= walk(links, start, steps) < links.len(),
    decreases steps,
{
    if steps > 0 {
        lemma_walk_in_range(links, start, (steps - 1) as nat);
        let w = walk(links, start, (steps - 1) as nat);
        assert(links[w] is Some ==> links[w].unwrap() < links.len());
    }
}

pub proof fn lemma_direct_parents_in_range(ws: Seq<ClientShellWorkspace>)
    requires
        ws.len() <= usize::MAX,
    ensures
        links_in_range(direct_parents(ws)),
{
    assert forall|i: int| 0 <= i < ws.len() && (#[trigger] direct_parents(ws)[i]) is Some implies direct_parents(ws)[i].unwrap() < ws.len() by {
        lemma_last_index_below_in_range(ws, explicit_parent_spec(ws[i]).unwrap_or(Seq::empty()), ws.len() as int);
        if ws[i].worktree is Some {
            lemma_primary_from_in_range(ws, ws[i].worktree.unwrap().key@, 0);
        }
    }
}

proof fn lemma_last_index_below_in_range(ws: Seq<ClientShellWorkspace>, id: Seq<char>, k: int)
    requires
        k <= ws.len(),
        ws.len() <= usize::MAX,
    ensures
        last_index_below(ws, id, k) is Some ==> last_index_below(ws, id, k).unwrap() < k,
        last_index_below(ws, id, k) is Some ==> ws[last_index_below(ws, id, k).unwrap() as int].workspace_id@ == id,
    decreases k,
{
    if k > 0 {
        lemma_last_index_below_in_range(ws, id, k - 1);
    }
}

pub proof fn lemma_primary_from_in_range(ws: Seq<ClientShellWorkspace>, key: Seq<char>, i: int)
    requires
        ws.len() <= usize::MAX,
    ensures
        primary_from(ws, key, i) is Some ==> i <= primary_from(ws, key, i).unwrap() < ws.len(),
        primary_from(ws, key, i) is Some ==> is_primary_of(ws[primary_from(ws, key, i).unwrap() as int], key),
    decreases ws.len() - i,
{
    if 0 <= i < ws.len() && !is_primary_of(ws[i], key) {
        lemma_primary_from_in_range(ws, key, i + 1);
    }
}

/// Follows direct parents from `start` as many steps as there are workspaces.
fn top_ancestor(links: &Vec<Option<usize>>, start: usize) -> (root: usize)
    requires
        links_in_range(links@),
        start < links@.len(),
    ensures
        root as int == walk(links@, start as int, links@.len() as nat),
        root < links@.len(),
{
    let n = links.len();
    let mut node = start;
    let mut k: usize = 0;
    while k < n
        invariant
            n == links@.len(),
            k <= n,
            links_in_range(links@),
            node < n,
            node as int == walk(links@, start as int, k as nat),
        decreases n - k,
    {
        match links[node] {
            Some(parent) => {
                node = parent;
            },
            None => {},
        }
        k += 1;
    }
    node
}

/// Indices whose parent is `root`, in order.
fn collect_children(parents: &Vec<Option<usize>>, root: usize) -> (children: Vec<usize>)
    ensures
        children@ == children_in(parents@, root as int, parents@.len() as int),
{
    let mut children: Vec<usize> = Vec::new();
    let mut i: usize = 0;
    while i < parents.len()
        invariant
            i <= parents@.len(),
            children@ == children_in(parents@, root as int, i as int),
        decreases parents@.len() - i,
    {
        if parents[i] == Some(root) {
            children.push(i);
        }
        i += 1;
    }
    children
}

/// Hybrid grouping of a snapshot: each workspace's group parent (`None` =
/// top level) and, per group root, its ordered children. Nesting is capped at
/// two levels; a group is identified by its root's `workspace_id`.
pub fn workspace_group_layout(snapshot: &ClientShellSnapshot) -> (grouping: WorkspaceGrouping)
    ensures
        grouping.describes(snapshot.workspaces@),
{
    let ws = &snapshot.workspaces;
    let n = ws.len();
    let mut direct: Vec<Option<usize>> = Vec::new();
    let mut i: usize = 0;
    while i < n
        invariant
            n == ws@.len(),
            i <= n,
            direct@.len() == i,
            forall|j: int| 0 <= j < i ==> direct@[j] == direct_parent_spec(ws@, j),
        decreases n - i,
    {
        direct.push(direct_parent_at(ws, i));
        i += 1;
    }
    assert(direct@ == direct_parents(ws@));
    proof {
        lemma_direct_parents_in_range(ws@);
    }
    let mut parent_index: Vec<Option<usize>> = Vec::new();
    i = 0;
    while i < n
        invariant
            n == ws@.len(),
            i <= n,
            direct@ == direct_parents(ws@),
            links_in_range(direct@),
            parent_index@.len() == i,
            forall|j: int| 0 <= j < i ==> parent_index@[j] == group_parent_spec(ws@, j),
        decreases n - i,
    {
        let parent = match direct[i] {
            Some(d) => {
                let root = top_ancestor(&direct, d);
                if root != i { Some(root) } else { None }
            },
            None => None,
        };
        parent_index.push(parent);
        i += 1;
    }
    assert(parent_index@ == group_parents(ws@));
    let mut children_of: Vec<Vec<usize>> = Vec::new();
    let mut r: usize = 0;
    while r < n
        invariant
            n == ws@.len(),
            r <= n,
            parent_index@ == group_parents(ws@),
            children_of@.len() == r,
            forall|k: int| 0 <= k < r ==> (#[trigger] children_of@[k])@ == children_spec(ws@, k),
        decreases n - r,
    {
        children_of.push(collect_children(&parent_index, r));
        r += 1;
    }
    WorkspaceGrouping { parent_index, children_of }
}

/// One sidebar row: the workspace at `index`, nested or not.
#[derive(Clone, Copy, Debug, PartialEq, Eq, Structural)]
pub struct WorkspaceEntry {
    pub index: usize,
    pub indented: bool,
    pub last_child: bool,
}

/// Whether `ids` holds the id `id`.
pub open spec fn contains_id(ids: Seq<String>, id: Seq<char>) -> bool {
    exists|k: int| 0 <= k < ids.len() && (#[trigger] ids[k])@ == id
}

/// The first of `children` (from position `k`) that is focused.
pub open spec fn first_focused_from(ws: Seq<ClientShellWorkspace>, children: Seq<usize>, k: int) -> Option<usize>
    decreases children.len() - k,
{
    if k < 0 || k >= children.len() {
        None
    } else if ws[children[k] as int].focused {
        Some(children[k])
    } else {
        first_focused_from(ws, children, k + 1)
    }
}

/// Indented rows for an expanded group's children; the last one closes the tree.
pub open spec fn child_entries(children: Seq<usize>) -> Seq<WorkspaceEntry> {
    Seq::new(
        children.len(),
        |k: int| WorkspaceEntry { index: children[k], indented: true, last_child: k + 1 == children.len() },
    )
}

/// The rows workspace `i` contributes: nothing when it is nested, else its own
/// row followed by its children, or only the focused child when its group is
/// collapsed.
pub open spec fn entry_block(ws: Seq<ClientShellWorkspace>, collapsed: Seq<String>, i: int) -> Seq<WorkspaceEntry> {
    if group_parent_spec(ws, i) is Some {
        Seq::empty()
    } else {
        let head = seq![WorkspaceEntry { index: i as usize, indented: false, last_child: false }];
        let kids = children_spec(ws, i);
        if contains_id(collapsed, ws[i].workspace_id@) {
            match first_focused_from(ws, kids, 0) {
                Some(active) => head.push(WorkspaceEntry { index: active, indented: true, last_child: true }),
                None => head,
            }
        } else {
            head + child_entries(kids)
        }
    }
}

/// Sidebar rows contributed by the workspaces below `k`.
pub open spec fn entries_upto(ws: Seq<ClientShellWorkspace>, collapsed: Seq<String>, k: int) -> Seq<WorkspaceEntry>
    decreases k,
{
    if k <= 0 {
        Seq::empty()
    } else {
        entries_upto(ws, collapsed, k - 1) + entry_block(ws, collapsed, k - 1)
    }
}

/// The sidebar rows of a snapshot.
pub open spec fn entries_spec(ws: Seq<ClientShellWorkspace>, collapsed: Seq<String>) -> Seq<WorkspaceEntry> {
    entries_upto(ws, collapsed, ws.len() as int)
}

/// The children of a root are increasing indices below `k` whose parent is the
/// root, and every such index is among them.
pub proof fn lemma_children_in(parents: Seq<Option<usize>>, root: int, k: int)
    requires
        k <= parents.len(),
        parents.len() <= usize::MAX,
    ensures
        forall|j: int| 0 <= j < children_in(parents, root, k).len() ==> {
            &&& (#[trigger] children_in(parents, root, k)[j]) < k
            &&& parents[children_in(parents, root, k)[j] as int] == Some(root as usize)
        },
        forall|a: int, b: int| 0 <= a < b < children_in(parents, root, k).len() ==>
            children_in(parents, root, k)[a] < children_in(parents, root, k)[b],
        forall|m: int| 0 <= m < k && parents[m] == Some(root as usize) ==>
            children_in(parents, root, k).contains(m as usize),
    decreases k,
{
    if k > 0 {
        lemma_children_in(parents, root, k - 1);
        let prev = children_in(parents, root, k - 1);
        if parents[k - 1] == Some(root as usize) {
            assert(children_in(parents, root, k) == prev.push((k - 1) as usize));
            assert forall|m: int| 0 <= m < k && parents[m] == Some(root as usize) implies
                children_in(parents, root, k).contains(m as usize) by {
                if m < k - 1 {
                    let j = choose|j: int| 0 <= j < prev.len() && prev[j] == m as usize;
                    assert(children_in(parents, root, k)[j] == m as usize);
                } else {
                    assert(children_in(parents, root, k)[prev.len() as int] == m as usize);
                }
            }
        }
    }
}

/// Whether `ids` holds `id`.
pub fn contains_string(ids: &Vec<String>, id: &String) -> (found: bool)
    ensures
        found == contains_id(ids@, id@),
{
    let mut k: usize = 0;
    while k < ids.len()
        invariant
            k <= ids@.len(),
            forall|j: int| 0 <= j < k ==> ids@[j]@ != id@,
        decreases ids@.len() - k,
    {
        if ids[k] == *id {
            return true;
        }
        k += 1;
    }
    false
}

/// The first focused workspace among `children`.
fn first_focused(ws: &Vec<ClientShellWorkspace>, children: &Vec<usize>) -> (active: Option<usize>)
    requires
        forall|j: int| 0 <= j < children@.len() ==> (#[trigger] children@[j]) < ws@.len(),
    ensures
        active == first_focused_from(ws@, children@, 0),
{
    let mut k: usize = 0;
    while k < children.len()
        invariant
            k <= children@.len(),
            forall|j: int| 0 <= j < children@.len() ==> (#[trigger] children@[j]) < ws@.len(),
            first_focused_from(ws@, children@, 0) == first_focused_from(ws@, children@, k as int),
        decreases children@.len() - k,
    {
        if ws[children[k]].focused {
            return Some(children[k]);
        }
        k += 1;
    }
    None
}

/// The sidebar rows: every top-level workspace followed by its children, or
/// by only the focused child when its group is collapsed. Nested workspaces
/// appear only beneath their group root.
pub fn workspace_entries(snapshot: &ClientShellSnapshot, collapsed_groups: &Vec<String>) -> (entries: Vec<WorkspaceEntry>)
    ensures
        entries@ == entries_spec(snapshot.workspaces@, collapsed_groups@),
{
    let ws = &snapshot.workspaces;
    let grouping = workspace_group_layout(snapshot);
    let n = ws.len();
    let mut entries: Vec<WorkspaceEntry> = Vec::new();
    let mut index: usize = 0;
    while index < n
        invariant
            n == ws@.len(),
            index <= n,
            grouping.describes(ws@),
            entries@ == entries_upto(ws@, collapsed_groups@, index as int),
        decreases n - index,
    {
        let ghost before = entries@;
        if grouping.parent_index[index].is_some() {
            index += 1;
            continue;
        }
        entries.push(WorkspaceEntry { index, indented: false, last_child: false });
        let children = &grouping.children_of[index];
        proof {
            lemma_children_in(group_parents(ws@), index as int, n as int);
        }
        assert(children@ == children_spec(ws@, index as int));
        if contains_string(collapsed_groups, &ws[index].workspace_id) {
            if let Some(active) = first_focused(ws, children) {
                entries.push(WorkspaceEntry { index: active, indented: true, last_child: true });
            }
        } else {
            let ghost kids = children@;
            let mut c: usize = 0;
            while c < children.len()
                invariant
                    c <= kids.len(),
                    kids == children@,
                    entries@ == before + seq![WorkspaceEntry { index: index, indented: false, last_child: false }]
                        + child_entries(kids).take(c as int),
                decreases kids.len() - c,
            {
                entries.push(WorkspaceEntry { index: children[c], indented: true, last_child: c + 1 == children.len() });
                assert(child_entries(kids).take(c + 1) == child_entries(kids).take(c as int).push(child_entries(kids)[c as int]));
                c += 1;
            }
            assert(child_entries(kids).take(c as int) == child_entries(kids));
        }
        assert(entries@ == entries_upto(ws@, collapsed_groups@, index + 1));
        index += 1;
    }
    entries
}

/// The ids of a list of strings, as character sequences.
pub open spec fn ids_view(ids: Seq<String>) -> Seq<Seq<char>> {
    ids.map_values(|id: String| id@)
}

/// Ids of the top-level workspaces below `k`, in order.
pub open spec fn top_level_ids_upto(ws: Seq<ClientShellWorkspace>, k: int) -> Seq<Seq<char>>
    decreases k,
{
    if k <= 0 {
        Seq::empty()
    } else if group_parent_spec(ws, k - 1) is None {
        top_level_ids_upto(ws, k - 1).push(ws[k - 1].workspace_id@)
    } else {
        top_level_ids_upto(ws, k - 1)
    }
}

/// Ordered ids of the top-level sidebar rows, those not nested under another
/// workspace. Reordering acts on these, so it uses the sidebar's grouping.
pub fn top_level_workspace_ids(snapshot: &ClientShellSnapshot) -> (ids: Vec<String>)
    ensures
        ids_view(ids@) == top_level_ids_upto(snapshot.workspaces@, snapshot.workspaces@.len() as int),
{
    let ws = &snapshot.workspaces;
    let grouping = workspace_group_layout(snapshot);
    let mut ids: Vec<String> = Vec::new();
    let mut i: usize = 0;
    while i < ws.len()
        invariant
            i <= ws@.len(),
            grouping.describes(ws@),
            ids_view(ids@) == top_level_ids_upto(ws@, i as int),
        decreases ws@.len() - i,
    {
        if grouping.parent_index[i].is_none() {
            ids.push(ws[i].workspace_id.clone());
            assert(ids_view(ids@) == top_level_ids_upto(ws@, i as int).push(ws@[i as int].workspace_id@));
        }
        i += 1;
    }
    ids
}

/// The ids of the workspaces at `indices`.
pub open spec fn ids_at(ws: Seq<ClientShellWorkspace>, indices: Seq<usize>) -> Seq<Seq<char>> {
    indices.map_values(|i: usize| ws[i as int].workspace_id@)
}

/// The group root workspace `index` belongs to: its group parent, or itself.
pub open spec fn group_root_spec(ws: Seq<ClientShellWorkspace>, index: int) -> int {
    match group_parent_spec(ws, index) {
        Some(r) => r as int,
        None => index,
    }
}

/// The group a workspace belongs to: the root's id and the whole block that
/// moves with it (the root followed by its children).
pub open spec fn group_block_spec(ws: Seq<ClientShellWorkspace>, id: Seq<char>) -> Option<(Seq<char>, Seq<Seq<char>>)> {
    match first_index_of_id(ws, id) {
        Some(index) => {
            let root = group_root_spec(ws, index as int);
            Some((ws[root].workspace_id@, seq![ws[root].workspace_id@] + ids_at(ws, children_spec(ws, root))))
        },
        None => None,
    }
}

pub proof fn lemma_first_index_in_range(ws: Seq<ClientShellWorkspace>, id: Seq<char>, i: int)
    requires
        ws.len() <= usize::MAX,
        0 <= i,
    ensures
        first_index_of_id_from(ws, id, i) is Some ==> {
            &&& i <= first_index_of_id_from(ws, id, i).unwrap() < ws.len()
            &&& ws[first_index_of_id_from(ws, id, i).unwrap() as int].workspace_id@ == id
        },
        first_index_of_id_from(ws, id, i) is None ==> forall|j: int| i <= j < ws.len() ==> ws[j].workspace_id@ != id,
    decreases ws.len() - i,
{
    if i < ws.len() && ws[i].workspace_id@ != id {
        lemma_first_index_in_range(ws, id, i + 1);
    }
}

/// Group parents lie inside the workspace list.
pub proof fn lemma_group_parent_in_range(ws: Seq<ClientShellWorkspace>, i: int)
    requires
        ws.len() <= usize::MAX,
        0 <= i < ws.len(),
    ensures
        group_parent_spec(ws, i) is Some ==> group_parent_spec(ws, i).unwrap() < ws.len(),
{
    lemma_direct_parents_in_range(ws);
    let dp = direct_parents(ws);
    if dp[i] is Some {
        lemma_walk_in_range(dp, dp[i].unwrap() as int, ws.len() as nat);
    }
}

/// The ids of the workspaces at `indices`.
fn ids_of(ws: &Vec<ClientShellWorkspace>, indices: &Vec<usize>) -> (ids: Vec<String>)
    requires
        forall|j: int| 0 <= j < indices@.len() ==> (#[trigger] indices@[j]) < ws@.len(),
    ensures
        ids_view(ids@) == ids_at(ws@, indices@),
{
    let mut ids: Vec<String> = Vec::new();
    let mut k: usize = 0;
    while k < indices.len()
        invariant
            k <= indices@.len(),
            forall|j: int| 0 <= j < indices@.len() ==> (#[trigger] indices@[j]) < ws@.len(),
            ids_view(ids@) == ids_at(ws@, indices@.take(k as int)),
        decreases indices@.len() - k,
    {
        let ghost before = ids@;
        let id = ws[indices[k]].workspace_id.clone();
        ids.push(id);
        assert(indices@.take(k + 1) == indices@.take(k as int).push(indices@[k as int]));
        assert(ids_view(ids@) =~= ids_view(before).push(id@));
        assert(ids_at(ws@, indices@.take(k + 1)) =~= ids_at(ws@, indices@.take(k as int)).push(id@));
        k += 1;
    }
    assert(indices@.take(k as int) == indices@);
    ids
}

/// The top-level row that `workspace_id` belongs to, plus the whole block that
/// moves with it (the root followed by its children). A nested workspace
/// resolves to its root, because only top-level rows reorder.
pub fn workspace_group_block(snapshot: &ClientShellSnapshot, workspace_id: &String) -> (block: Option<(String, Vec<String>)>)
    ensures
        match block {
            Some((root, ids)) => group_block_spec(snapshot.workspaces@, workspace_id@) == Some((root@, ids_view(ids@))),
            None => group_block_spec(snapshot.workspaces@, workspace_id@) is None,
        },
{
    let ws = &snapshot.workspaces;
    let grouping = workspace_group_layout(snapshot);
    let index = position_of_id(ws, workspace_id)?;
    proof {
        lemma_group_parent_in_range(ws@, index as int);
    }
    let root = match grouping.parent_index[index] {
        Some(r) => r,
        None => index,
    };
    let root_id = ws[root].workspace_id.clone();
    let children = &grouping.children_of[root];
    proof {
        lemma_children_in(group_parents(ws@), root as int, ws@.len() as int);
    }
    let rest = ids_of(ws, children);
    let mut block: Vec<String> = Vec::new();
    block.push(root_id.clone());
    let mut tail = rest;
    block.append(&mut tail);
    assert(ids_view(block@) == seq![root_id@] + ids_view(rest@));
    Some((root_id, block))
}

/// The collapse-group key of workspace `index`: its own id when it heads a
/// group with children, else nothing.
pub open spec fn parent_group_key_spec(ws: Seq<ClientShellWorkspace>, index: int) -> Option<Seq<char>> {
    if 0 <= index < ws.len() && children_spec(ws, index).len() > 0 {
        Some(ws[index].workspace_id@)
    } else {
        None
    }
}

/// The collapse-group key for a top-level parent that has children: its own
/// `workspace_id`. Other workspaces have none.
pub fn parent_group_key(snapshot: &ClientShellSnapshot, index: usize) -> (key: Option<String>)
    ensures
        match key {
            Some(k) => parent_group_key_spec(snapshot.workspaces@, index as int) == Some(k@),
            None => parent_group_key_spec(snapshot.workspaces@, index as int) is None,
        },
{
    if index >= snapshot.workspaces.len() {
        return None;
    }
    let grouping = workspace_group_layout(snapshot);
    if grouping.children_of[index].len() == 0 {
        return None;
    }
    Some(snapshot.workspaces[index].workspace_id.clone())
}

/// The collapse-group key for the workspace with `workspace_id`, if it is a
/// top-level parent that has children.
pub fn group_collapse_key(snapshot: &ClientShellSnapshot, workspace_id: &String) -> (key: Option<String>)
    ensures
        match key {
            Some(k) => first_index_of_id(snapshot.workspaces@, workspace_id@) matches Some(i)
                && parent_group_key_spec(snapshot.workspaces@, i as int) == Some(k@),
            None => match first_index_of_id(snapshot.workspaces@, workspace_id@) {
                Some(i) => parent_group_key_spec(snapshot.workspaces@, i as int) is None,
                None => true,
            },
        },
{
    let index = position_of_id(&snapshot.workspaces, workspace_id)?;
    parent_group_key(snapshot, index)
}

/// The status of highest priority in `statuses`; among equals, the last.
pub open spec fn last_max_status(statuses: Seq<AgentStatus>) -> AgentStatus
    decreases statuses.len(),
{
    if statuses.len() <= 1 {
        statuses[0]
    } else {
        let rest = last_max_status(statuses.drop_last());
        if status_priority_spec(statuses.last()) >= status_priority_spec(rest) {
            statuses.last()
        } else {
            rest
        }
    }
}

/// Statuses of the workspaces at `indices`.
pub open spec fn statuses_at(ws: Seq<ClientShellWorkspace>, indices: Seq<usize>) -> Seq<AgentStatus> {
    indices.map_values(|i: usize| ws[i as int].agent_status)
}

/// The status a sidebar row shows: a collapsed group root stands for its
/// hidden children, so it shows the most urgent status of the group.
pub open spec fn displayed_status_spec(ws: Seq<ClientShellWorkspace>, workspace: ClientShellWorkspace, collapsed: Seq<String>) -> AgentStatus {
    if !contains_id(collapsed, workspace.workspace_id@) {
        workspace.agent_status
    } else {
        match first_index_of_id(ws, workspace.workspace_id@) {
            Some(index) => {
                let kids = children_spec(ws, index as int);
                if kids.len() == 0 {
                    workspace.agent_status
                } else {
                    last_max_status(statuses_at(ws, kids).push(workspace.agent_status))
                }
            },
            None => workspace.agent_status,
        }
    }
}

/// The status a sidebar row shows, accounting for collapsed groups.
pub fn displayed_workspace_status(
    snapshot: &ClientShellSnapshot,
    workspace: &ClientShellWorkspace,
    collapsed_groups: &Vec<String>,
) -> (status: AgentStatus)
    ensures
        status == displayed_status_spec(snapshot.workspaces@, *workspace, collapsed_groups@),
{
    if !contains_string(collapsed_groups, &workspace.workspace_id) {
        return workspace.agent_status;
    }
    let ws = &snapshot.workspaces;
    let index = match position_of_id(ws, &workspace.workspace_id) {
        Some(index) => index,
        None => return workspace.agent_status,
    };
    let grouping = workspace_group_layout(snapshot);
    let children = &grouping.children_of[index];
    if children.len() == 0 {
        return workspace.agent_status;
    }
    proof {
        assert(ws.len() == ws@.len());
        lemma_children_in(group_parents(ws@), index as int, ws@.len() as int);
    }
    let ghost all = statuses_at(ws@, children@).push(workspace.agent_status);
    let mut best = ws[children[0]].agent_status;
    let mut k: usize = 1;
    assert(all.take(1).drop_last() == Seq::<AgentStatus>::empty());
    while k < children.len()
        invariant
            1 <= k <= children@.len(),
            all == statuses_at(ws@, children@).push(workspace.agent_status),
            forall|j: int| 0 <= j < children@.len() ==> (#[trigger] children@[j]) < ws@.len(),
            best == last_max_status(all.take(k as int)),
        decreases children@.len() - k,
    {
        let next = ws[children[k]].agent_status;
        assert(all.take(k + 1).drop_last() == all.take(k as int));
        if status_priority(next) >= status_priority(best) {
            best = next;
        }
        k += 1;
    }
    assert(all.take(k + 1).drop_last() == all.take(k as int));
    assert(all.take(k + 1) == all);
    if status_priority(workspace.agent_status) >= status_priority(best) {
        best = workspace.agent_status;
    }
    best
}

/// The first position at or after `k` of `x` in `s`.
pub open spec fn first_pos<T>(s: Seq<T>, x: T, k: int) -> Option<int>
    decreases s.len() - k,
{
    if k < 0 || k >= s.len() {
        None
    } else if s[k] == x {
        Some(k)
    } else {
        first_pos(s, x, k + 1)
    }
}

/// A found position lies inside the sequence and holds the value.
pub proof fn lemma_first_pos(s: Seq<Seq<char>>, x: Seq<char>, k: int)
    requires
        0 <= k,
    ensures
        first_pos(s, x, k) matches Some(p) ==> k <= p < s.len() && s[p] == x,
    decreases s.len() - k,
{
    if k < s.len() && s[k] != x {
        lemma_first_pos(s, x, k + 1);
    }
}

/// Sidebar rows refer to workspaces of the snapshot.
pub proof fn lemma_entries_in_range(ws: Seq<ClientShellWorkspace>, collapsed: Seq<String>, k: int)
    requires
        k <= ws.len() <= usize::MAX,
    ensures
        forall|j: int| 0 <= j < entries_upto(ws, collapsed, k).len() ==> (#[trigger] entries_upto(ws, collapsed, k)[j]).index < ws.len(),
    decreases k,
{
    if k > 0 {
        lemma_entries_in_range(ws, collapsed, k - 1);
        let prev = entries_upto(ws, collapsed, k - 1);
        let block = entry_block(ws, collapsed, k - 1);
        lemma_children_in(group_parents(ws), k - 1, ws.len() as int);
        let kids = children_spec(ws, k - 1);
        lemma_first_focused_in(ws, kids, 0);
        assert forall|j: int| 0 <= j < entries_upto(ws, collapsed, k).len() implies (#[trigger] entries_upto(ws, collapsed, k)[j]).index < ws.len() by {
            if j < prev.len() {
                assert(entries_upto(ws, collapsed, k)[j] == prev[j]);
            } else {
                let b = j - prev.len();
                assert(entries_upto(ws, collapsed, k)[j] == block[b]);
                if b >= 1 && !contains_id(collapsed, ws[k - 1].workspace_id@) {
                    assert(block[b] == child_entries(kids)[b - 1]);
                }
            }
        }
    }
}

proof fn lemma_first_focused_in(ws: Seq<ClientShellWorkspace>, children: Seq<usize>, k: int)
    requires
        0 <= k,
    ensures
        first_focused_from(ws, children, k) matches Some(c) ==> children.contains(c),
    decreases children.len() - k,
{
    if k < children.len() {
        if ws[children[k] as int].focused {
            assert(children[k] == children[k]);
        } else {
            lemma_first_focused_in(ws, children, k + 1);
        }
    }
}

/// The workspace ids of the sidebar rows, in order.
pub open spec fn sidebar_ids(ws: Seq<ClientShellWorkspace>, collapsed: Seq<String>) -> Seq<Seq<char>> {
    entries_spec(ws, collapsed).map_values(|e: WorkspaceEntry| ws[e.index as int].workspace_id@)
}

} // verus!
