//! Niri compositor workspaces, as its IPC reports them.

use vstd::prelude::*;

verus! {

/// A workspace.
#[derive(Debug)]
pub struct Workspace {
    pub id: u64,
    pub name: Option<String>,
    pub is_focused: bool,
    pub is_active: bool,
}

/// An event of the compositor.
#[derive(Debug, Clone, Copy, PartialEq, Eq, Structural)]
pub enum NiriEvent {
    WorkspaceActivated { id: u64, focused: bool },
    WorkspacesChanged,
}

/// The id of the first focused workspace.
pub fn focused_workspace(workspaces: &Vec<Workspace>) -> (r: Option<u64>)
    ensures
        r matches Some(id) ==> exists|i: int|
            0 <= i < workspaces@.len() && (#[trigger] workspaces@[i]).is_focused && workspaces@[i].id == id
                && forall|k: int| 0 <= k < i ==> !(#[trigger] workspaces@[k]).is_focused,
        r is None ==> forall|k: int| 0 <= k < workspaces@.len() ==> !(#[trigger] workspaces@[k]).is_focused,
{
    let mut i: usize = 0;
    while i < workspaces.len()
        invariant
            i <= workspaces@.len(),
            forall|k: int| 0 <= k < i ==> !(#[trigger] workspaces@[k]).is_focused,
        decreases workspaces@.len() - i,
    {
        if workspaces[i].is_focused {
            return Some(workspaces[i].id);
        }
        i = i + 1;
    }
    None
}

} // verus!
