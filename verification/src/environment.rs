//! Where the process runs: directly on the desktop, or inside a sandbox
//! that reaches the host's programs only through a proxy.

use crate::text::opt_view;
use vstd::prelude::*;

verus! {

/// The two kinds of surroundings.
#[derive(Clone, Copy, Debug, PartialEq, Eq, Structural)]
pub enum EnvKind {
    /// Host programs can be started directly.
    Native,
    /// Host programs must be started through the sandbox's proxy.
    Sandboxed,
}

/// What the environment says about one tool.
#[derive(Debug, PartialEq, Eq)]
pub struct ExecutionEnvironment {
    pub kind: EnvKind,
    /// The operator's own command line for the tool, when one is set.
    pub override_cmd: Option<String>,
}

/// The environment of a tool as texts.
pub struct EnvView {
    pub kind: EnvKind,
    pub override_cmd: Option<Seq<char>>,
}

impl View for ExecutionEnvironment {
    type V = EnvView;

    open spec fn view(&self) -> EnvView {
        EnvView { kind: self.kind, override_cmd: opt_view(self.override_cmd) }
    }
}

/// Sandboxed when the sandbox has given the process an identity or has left
/// its marker file; native otherwise.
pub open spec fn kind_of(sandbox_id_set: bool, marker_exists: bool) -> EnvKind {
    if sandbox_id_set || marker_exists {
        EnvKind::Sandboxed
    } else {
        EnvKind::Native
    }
}

/// Whether the process runs inside the sandbox. `sandbox_id_set` says
/// whether the variable `FLATPAK_ID` is set, `marker_exists` whether the
/// file `/.flatpak-info` exists.
pub fn is_flatpak(sandbox_id_set: bool, marker_exists: bool) -> (b: bool)
    ensures
        b == (kind_of(sandbox_id_set, marker_exists) == EnvKind::Sandboxed),
{
    sandbox_id_set || marker_exists
}

/// The environment of a tool, from the signals read for it.
/// `override_cmd` is the value of the tool's override variable, if set.
pub fn detect(sandbox_id_set: bool, marker_exists: bool, override_cmd: Option<String>) -> (env:
    ExecutionEnvironment)
    ensures
        env.kind == kind_of(sandbox_id_set, marker_exists),
        env.override_cmd == override_cmd,
{
    let kind = if is_flatpak(sandbox_id_set, marker_exists) {
        EnvKind::Sandboxed
    } else {
        EnvKind::Native
    };
    ExecutionEnvironment { kind, override_cmd }
}

} // verus!
