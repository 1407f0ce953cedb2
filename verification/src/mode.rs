//! How the work of a call is carried out.

use vstd::prelude::*;

verus! {

/// The execution mode of a call. It decides where the work is done and
/// never what the call returns.
#[derive(Clone, Copy, Debug, PartialEq, Eq, Structural)]
pub enum ExecMode {
    /// On the calling thread.
    Sequential,
    /// Fanned out over the worker pool.
    Parallel,
}

} // verus!
