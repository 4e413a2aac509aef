//! What the pages may do with web workers.

use crate::text::eq_str;
use vstd::prelude::*;

verus! {

/// How web workers are handled.
#[derive(Clone, Copy, Debug, PartialEq, Eq, Structural)]
pub enum WorkerSupport {
    /// Pages use the workers of the web view.
    Native,
    /// Pages see no workers, and do their cryptography in the main thread.
    Disabled,
    /// Pages see workers that refuse to start.
    Blocked,
}

/// How web workers are handled in a package of the given kind: the web view that comes with an
/// AppImage, and the one of Arch Linux, support them; elsewhere they fail as insecure operations.
pub open spec fn worker_support_of(distro: Option<Seq<char>>) -> WorkerSupport {
    match distro {
        None => WorkerSupport::Disabled,
        Some(kind) => if kind == "appimage"@ || kind == "aur"@ {
            WorkerSupport::Native
        } else if kind == "rpm"@ || kind == "deb"@ || kind == "flatpak"@ || kind == "snap"@ {
            WorkerSupport::Disabled
        } else {
            WorkerSupport::Blocked
        },
    }
}

/// How web workers are handled in a package of the given kind.
pub fn worker_support(distro: Option<&str>) -> (r: WorkerSupport)
    ensures
        r == worker_support_of(
            match distro {
                Some(kind) => Some(kind@),
                None => None,
            },
        ),
{
    match distro {
        None => WorkerSupport::Disabled,
        Some(kind) => {
            if eq_str(kind, "appimage") || eq_str(kind, "aur") {
                WorkerSupport::Native
            } else if eq_str(kind, "rpm") || eq_str(kind, "deb") || eq_str(kind, "flatpak")
                || eq_str(kind, "snap") {
                WorkerSupport::Disabled
            } else {
                WorkerSupport::Blocked
            }
        },
    }
}

/// Workers are native in AppImage and Arch packages, and disabled in the other known packages and
/// in builds of no package. In a package of an unknown kind they are blocked.
pub proof fn law_workers_depend_on_the_package(kind: Seq<char>)
    ensures
        kind == "appimage"@ || kind == "aur"@ ==> worker_support_of(Some(kind))
            == WorkerSupport::Native,
        kind == "rpm"@ || kind == "deb"@ || kind == "flatpak"@ || kind == "snap"@
            ==> worker_support_of(Some(kind)) == WorkerSupport::Disabled,
        worker_support_of(None) == WorkerSupport::Disabled,
        kind != "appimage"@ && kind != "aur"@ && kind != "rpm"@ && kind != "deb"@ && kind
            != "flatpak"@ && kind != "snap"@ ==> worker_support_of(Some(kind))
            == WorkerSupport::Blocked,
{
    reveal_strlit("appimage");
    reveal_strlit("aur");
    reveal_strlit("rpm");
    reveal_strlit("deb");
    reveal_strlit("flatpak");
    reveal_strlit("snap");
    assert("aur"@[0] == 'a' && "rpm"@[0] == 'r' && "deb"@[0] == 'd');
    assert("appimage"@.len() == 8 && "flatpak"@.len() == 7 && "snap"@.len() == 4);
    assert("aur"@.len() == 3 && "rpm"@.len() == 3 && "deb"@.len() == 3);
}

} // verus!
