//! How a copy request reaches the user's clipboard.
use vstd::prelude::*;
use vstd::string::*;
use crate::docker::str_eq;
use crate::text::ascii_lowercase;

verus! {

/// How a clipboard copy is delivered.
#[derive(Debug, Clone, Copy, PartialEq, Eq, Structural)]
pub enum ClipboardBackend {
    /// Native clipboard on this host; right only when the user sits here.
    Local,
    /// OSC 52 escape sequence written to the terminal; the user's terminal
    /// honours it, so it also works over SSH.
    Osc52,
}

/// What the choice depends on, as read from the process environment: the
/// `DOCKPIT_CLIPBOARD` override (lossily decoded) and which of the SSH and
/// display variables are set.
#[derive(Debug)]
pub struct ClipboardEnv {
    pub override_value: Option<String>,
    pub ssh_connection: bool,
    pub ssh_tty: bool,
    pub ssh_client: bool,
    pub display: bool,
    pub wayland_display: bool,
}

/// An explicit override (`osc52`/`osc` or `local`/`native`, any ASCII case)
/// wins; over SSH only OSC 52 reaches the user; a local graphical session
/// uses the native clipboard; anything else falls back to OSC 52.
pub open spec fn backend_for(env: ClipboardEnv) -> ClipboardBackend {
    let o = match env.override_value {
        Some(v) => crate::text::lower_chars(v@),
        None => Seq::empty(),
    };
    if env.override_value is Some && (o == "osc52"@ || o == "osc"@) {
        ClipboardBackend::Osc52
    } else if env.override_value is Some && (o == "local"@ || o == "native"@) {
        ClipboardBackend::Local
    } else if env.ssh_connection || env.ssh_tty || env.ssh_client {
        ClipboardBackend::Osc52
    } else if env.display || env.wayland_display {
        ClipboardBackend::Local
    } else {
        ClipboardBackend::Osc52
    }
}

/// Pick the clipboard backend once at startup.
pub fn detect_clipboard_backend(env: &ClipboardEnv) -> (r: ClipboardBackend)
    ensures
        r == backend_for(*env),
{
    match &env.override_value {
        Some(v) => {
            let lower = ascii_lowercase(v.as_str());
            let l = lower.as_str();
            if str_eq(l, "osc52") || str_eq(l, "osc") {
                return ClipboardBackend::Osc52;
            }
            if str_eq(l, "local") || str_eq(l, "native") {
                return ClipboardBackend::Local;
            }
        },
        None => {},
    }
    if env.ssh_connection || env.ssh_tty || env.ssh_client {
        return ClipboardBackend::Osc52;
    }
    if env.display || env.wayland_display {
        ClipboardBackend::Local
    } else {
        ClipboardBackend::Osc52
    }
}

} // verus!
