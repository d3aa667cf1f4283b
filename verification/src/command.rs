//! What running an external `p4` command gave back, as plain values.
use vstd::prelude::*;

verus! {

/// The outcome of running one `p4` command.
pub enum CommandRun {
    /// The command could not be started; the text says why.
    Failed(String),
    /// The command ran to its end.
    Finished { success: bool, stdout: String, stderr: String },
}

} // verus!
