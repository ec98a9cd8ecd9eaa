//! The environment that makes an isolated tool installation the active one
//! for a child process, without touching the environment of the caller.

use vstd::prelude::*;
use vstd::string::StringExecFns;
use crate::platform::{exec_dir_of, exec_dir_path, list_separator, Platform};
use crate::process::EnvOverlay;

verus! {

/// Value of the search path that puts the executables of the installation
/// rooted at `root` before everything in `inherited`.
pub open spec fn prefixed_search_path(root: Seq<char>, inherited: Seq<char>, p: Platform) -> Seq<
    char,
> {
    exec_dir_of(root, p) + list_separator(p) + inherited
}

/// The overlay that activates the installation rooted at `root`: the search
/// path with the installation's executables in front, when the caller has a
/// search path at all, and then the marker that names the active
/// installation.
pub open spec fn activation(root: Seq<char>, inherited: Option<Seq<char>>, p: Platform) -> Seq<
    (Seq<char>, Seq<char>),
> {
    match inherited {
        Some(path) => seq![
            ("PATH"@, prefixed_search_path(root, path, p)),
            ("VIRTUAL_ENV"@, root),
        ],
        None => seq![("VIRTUAL_ENV"@, root)],
    }
}

/// Computes the overlay that activates the installation rooted at
/// `install_root` for a child process. `inherited_path` is the caller's own
/// search path, if it has one.
pub fn activation_overlay(install_root: &str, inherited_path: Option<&str>, p: Platform) -> (r:
    EnvOverlay)
    ensures
        r@ == activation(
            install_root@,
            match inherited_path {
                Some(s) => Some(s@),
                None => None,
            },
            p,
        ),
{
    let mut overlay = EnvOverlay::empty();
    match inherited_path {
        Some(path) => {
            let mut value = exec_dir_path(install_root, p);
            if p.is_windows() {
                value.append(";");
            } else {
                value.append(":");
            }
            value.append(path);
            overlay.set("PATH", value.as_str());
        },
        None => {},
    }
    overlay.set("VIRTUAL_ENV", install_root);
    overlay
}

} // verus!
