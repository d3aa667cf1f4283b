//! What the screen keeps between frames, and the request to quit.
use vstd::prelude::*;

verus! {

/// What the drawing of the screen keeps between frames.
pub struct UiState {
    /// Whether the scope pane is drawn in full.
    pub is_scope_expanded: bool,
}

impl UiState {
    /// The state of the first frame: the scope pane folded.
    pub fn new() -> (s: UiState)
        ensures
            !s.is_scope_expanded,
    {
        UiState { is_scope_expanded: false }
    }
}

/// A request to quit.
pub struct Quit {
    /// Whether to leave no file naming the directory quit from.
    pub no_cwd_file: bool,
}

impl Quit {
    pub fn new(no_cwd_file: bool) -> (q: Quit)
        ensures
            q.no_cwd_file == no_cwd_file,
    {
        Quit { no_cwd_file }
    }
}

} // verus!
