//! What the program is asked to do.

use vstd::prelude::*;
use crate::mirror::MirrorOpts;
use crate::serve::ServeOpts;

verus! {

/// The settings of one invocation.
#[derive(Debug, Clone)]
pub struct Config {
    /// Root of the mirrored data.
    pub output: String,
    /// What to do with it.
    pub cmd: Op,
}

/// The two things that the program does.
#[derive(Debug, Clone)]
pub enum Op {
    /// Bring the mirror up to date.
    Mirror(MirrorOpts),
    /// Serve the mirror.
    Serve(ServeOpts),
}

} // verus!
