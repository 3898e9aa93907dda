use vstd::prelude::*;

verus! {

/// The missions given to the background worker of a pod.
#[derive(Debug, Clone, Copy, PartialEq, Eq, Structural)]
pub enum BackgroundMission {
    /// Stop the worker.
    End,
}

} // verus!
