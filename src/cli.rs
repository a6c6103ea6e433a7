//! The settings of the `start` command.
use vstd::prelude::*;

use crate::core_loop::CoreLoop;

verus! {

/// Where to read the meter, and whether to report skipped frames.
#[derive(Clone, Debug, PartialEq, Eq)]
pub struct StartCommand {
    pub port: String,
    pub verbose: bool,
}

impl StartCommand {
    /// The ingestion loop these settings describe.
    pub fn core_loop(self) -> (r: CoreLoop)
        ensures
            r.spec_port() == self.port@,
            r.spec_verbose() == self.verbose,
            r.spec_decoder().input() == Seq::<u8>::empty(),
            r.spec_decoder().run() == 0,
    {
        CoreLoop::new(self.port, self.verbose)
    }
}

} // verus!
