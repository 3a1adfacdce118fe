//! Opening an existing playground: the option sets and the two editor
//! backends.
//!
//! Actually splitting a terminal, launching an editor and spawning the
//! watch pane is subprocess work and lives in the unverified shell; the
//! option types and the backend choice data live here.

use vstd::prelude::*;

verus! {

/// How to launch the editor.
#[derive(Debug)]
pub struct EditorOpts {
    /// The editor command.
    pub editor: String,
    /// Extra arguments handed to the editor.
    pub args: Vec<String>,
}

/// Options for opening a playground.
#[derive(Debug)]
pub struct OpenOpts {
    /// How to launch the editor.
    pub editor_opts: EditorOpts,
    /// The playground to open.
    pub name: String,
    /// The editor is a GUI editor.
    pub gui: bool,
    /// Skip checking that the playground exists (set right after
    /// creating it).
    pub skip_check: bool,
}

/// The GUI-editor backend: the editor runs detached while the watch
/// child runs alongside it.
#[derive(Clone, Copy, Debug, PartialEq, Eq, Structural)]
pub struct Gui {
    /// Do not pass the wait flag to the editor.
    pub no_w: bool,
}

impl Gui {
    /// A GUI backend, remembering whether to pass the wait flag.
    pub fn new(no_w: bool) -> (g: Gui)
        ensures
            g.no_w == no_w,
    {
        Gui { no_w }
    }

    /// Whether the editor gets the wait flag.
    pub fn wait_flag(&self) -> (w: bool)
        ensures
            w == !self.no_w,
    {
        !self.no_w
    }
}

/// The terminal-multiplexer backend: the watch child runs in a split
/// pane beside the editor.
#[derive(Clone, Copy, Debug, PartialEq, Eq, Structural)]
pub struct Tmux;

} // verus!
