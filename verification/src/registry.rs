//! Decisions on the globals a Wayland compositor announces: which ones the
//! daemon binds, at which version, and the name an output has before the
//! compositor tells its real one.

use vstd::prelude::*;
use crate::text::{decimal, push_decimal, push_str, str_equals};

verus! {

/// A global the daemon binds.
#[derive(Debug, Clone, Copy, PartialEq, Eq, Structural)]
pub enum GlobalKind {
    /// `wl_compositor`.
    Compositor,
    /// `zwlr_layer_shell_v1`.
    LayerShell,
    /// `wl_output`.
    Output,
    /// `zxdg_output_manager_v1`.
    XdgOutputManager,
    /// Any other interface, which is not bound.
    Other,
}

/// The kind of a global by its interface name.
pub open spec fn spec_global_kind(interface: Seq<char>) -> GlobalKind {
    if interface == "wl_compositor"@ {
        GlobalKind::Compositor
    } else if interface == "zwlr_layer_shell_v1"@ {
        GlobalKind::LayerShell
    } else if interface == "wl_output"@ {
        GlobalKind::Output
    } else if interface == "zxdg_output_manager_v1"@ {
        GlobalKind::XdgOutputManager
    } else {
        GlobalKind::Other
    }
}

/// The kind of a global by its interface name.
pub fn global_kind(interface: &str) -> (k: GlobalKind)
    ensures
        k == spec_global_kind(interface@),
{
    if str_equals(interface, "wl_compositor") {
        GlobalKind::Compositor
    } else if str_equals(interface, "zwlr_layer_shell_v1") {
        GlobalKind::LayerShell
    } else if str_equals(interface, "wl_output") {
        GlobalKind::Output
    } else if str_equals(interface, "zxdg_output_manager_v1") {
        GlobalKind::XdgOutputManager
    } else {
        GlobalKind::Other
    }
}

/// The highest version of each interface the daemon speaks.
pub open spec fn max_version(kind: GlobalKind) -> u32 {
    match kind {
        GlobalKind::Compositor => 4,
        GlobalKind::LayerShell => 4,
        GlobalKind::Output => 3,
        GlobalKind::XdgOutputManager => 3,
        GlobalKind::Other => 0,
    }
}

/// The version to bind a global at: the one announced, capped at the
/// highest the daemon speaks. `None` for a global that is not bound.
pub fn bind_version(kind: GlobalKind, announced: u32) -> (v: Option<u32>)
    ensures
        kind is Other ==> v is None,
        !(kind is Other) ==> v == Some(if announced < max_version(kind) {
            announced
        } else {
            max_version(kind)
        }),
{
    let cap: u32 = match kind {
        GlobalKind::Compositor => 4,
        GlobalKind::LayerShell => 4,
        GlobalKind::Output => 3,
        GlobalKind::XdgOutputManager => 3,
        GlobalKind::Other => {
            return None;
        },
    };
    if announced < cap {
        Some(announced)
    } else {
        Some(cap)
    }
}

/// The name of the output with global name `global` until the compositor
/// sends its own: "output-<global>".
pub fn provisional_output_name(global: u32) -> (s: String)
    ensures
        s@ == "output-"@ + decimal(global as nat),
{
    let mut s = String::new();
    push_str(&mut s, "output-");
    push_decimal(&mut s, global as u128);
    s
}

} // verus!
