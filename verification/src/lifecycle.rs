//! The live-reload lifecycle of a presented file: what reloads and asset
//! changes count, and what the readiness poll shows.
use vstd::prelude::*;

verus! {

/// Counters and the last reload error of a presented file.
#[derive(Clone, Debug)]
pub struct LifecycleState {
    pub reloads: u64,
    pub asset_invalidations: u64,
    pub last_error: Option<String>,
    /// The stage generation last announced as ready.
    pub ready_generation: u64,
}

/// What the readiness poll does.
#[derive(Clone, Copy, Debug, PartialEq, Eq, Structural)]
pub struct Readiness {
    /// Show the stage (else the loading view).
    pub show_stage: bool,
    /// Announce that this generation became ready.
    pub announce: bool,
}

impl LifecycleState {
    pub fn new() -> (s: LifecycleState)
        ensures
            s.reloads == 0,
            s.asset_invalidations == 0,
            s.last_error is None,
            s.ready_generation == 0,
    {
        LifecycleState { reloads: 0, asset_invalidations: 0, last_error: None, ready_generation: 0 }
    }

    /// A reload parsed the file and replaced the presentation.
    pub fn reload_succeeded(&mut self)
        ensures
            final(self).reloads == (if old(self).reloads == u64::MAX { u64::MAX } else { (old(self).reloads + 1) as u64 }),
            final(self).last_error is None,
            final(self).asset_invalidations == old(self).asset_invalidations,
            final(self).ready_generation == old(self).ready_generation,
    {
        self.reloads = if self.reloads == u64::MAX { u64::MAX } else { self.reloads + 1 };
        self.last_error = None;
    }

    /// A reload failed; the presentation shown stays.
    pub fn reload_failed(&mut self, error: String)
        ensures
            final(self).last_error == Some(error),
            final(self).reloads == old(self).reloads,
            final(self).asset_invalidations == old(self).asset_invalidations,
            final(self).ready_generation == old(self).ready_generation,
    {
        self.last_error = Some(error);
    }

    /// A watched asset changed and was invalidated.
    pub fn asset_invalidated(&mut self)
        ensures
            final(self).asset_invalidations == (if old(self).asset_invalidations == u64::MAX {
                u64::MAX
            } else {
                (old(self).asset_invalidations + 1) as u64
            }),
            final(self).reloads == old(self).reloads,
            final(self).last_error == old(self).last_error,
            final(self).ready_generation == old(self).ready_generation,
    {
        self.asset_invalidations = if self.asset_invalidations == u64::MAX { u64::MAX } else { self.asset_invalidations + 1 };
    }

    /// One readiness poll of a stage in generation `generation`: a ready
    /// stage is shown, and each generation is announced once; a stage still
    /// loading shows the loading view.
    pub fn poll(&mut self, ready: bool, generation: u64) -> (r: Readiness)
        ensures
            r.show_stage == ready,
            r.announce == (ready && old(self).ready_generation != generation),
            final(self).ready_generation == (if ready { generation } else { old(self).ready_generation }),
            final(self).reloads == old(self).reloads,
            final(self).asset_invalidations == old(self).asset_invalidations,
            final(self).last_error == old(self).last_error,
    {
        if !ready {
            return Readiness { show_stage: false, announce: false };
        }
        let announce = self.ready_generation != generation;
        self.ready_generation = generation;
        Readiness { show_stage: true, announce }
    }
}

} // verus!
