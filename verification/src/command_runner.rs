//! The state of the slide command runner: at most one command runs, and
//! only the run that is current may report its result.
use vstd::prelude::*;
use crate::text::{append_str, chars_of, owned, string_of};

verus! {

/// Whether a command runs, what the last one gave, and which run is current.
#[derive(Clone, Debug)]
pub struct CommandRunner {
    pub running: bool,
    /// The result of the last run that finished, if the current one has.
    pub status: Option<Result<(), String>>,
    /// Counts runs and cancellations.
    pub generation: u64,
}

/// A completion reported for run `finished` is taken where run `current`
/// is the current one.
pub open spec fn accepts_completion(current: u64, finished: u64) -> bool {
    current == finished
}

impl CommandRunner {
    /// A runner that has run nothing.
    pub fn new() -> (r: CommandRunner)
        ensures
            !r.running,
            r.status is None,
            r.generation == 0,
    {
        CommandRunner { running: false, status: None, generation: 0 }
    }

    /// Whether a command may be launched: not while one runs.
    pub fn check_idle(&self) -> (r: Result<(), String>)
        ensures
            self.running ==> (r matches Err(e) && e@ == "a slide command is already running"@),
            !self.running ==> r is Ok,
    {
        if self.running {
            Err(owned("a slide command is already running"))
        } else {
            Ok(())
        }
    }

    /// Records that a command was launched; returns the run's generation,
    /// which its completion reports back.
    pub fn started(&mut self) -> (generation: u64)
        ensures
            generation == old(self).generation.wrapping_add(1),
            final(self).generation == generation,
            final(self).running,
            final(self).status is None,
    {
        self.generation = self.generation.wrapping_add(1);
        self.status = None;
        self.running = true;
        self.generation
    }

    /// Takes the result of run `generation`. A run that is no longer current
    /// (cancelled, or followed by another) is ignored. Returns whether it was
    /// taken, which is when its process group is to be ended.
    pub fn completed(&mut self, generation: u64, result: Result<(), String>) -> (taken: bool)
        ensures
            taken == accepts_completion(old(self).generation, generation),
            taken ==> !final(self).running && final(self).status == Some(result),
            !taken ==> final(self).running == old(self).running && final(self).status == old(self).status,
            final(self).generation == old(self).generation,
    {
        if self.generation != generation {
            return false;
        }
        self.running = false;
        self.status = Some(result);
        true
    }

    /// Cancels the current run, if any: its completion will be ignored.
    /// Returns whether a command was running, whose process group is then
    /// to be ended.
    pub fn cancel(&mut self) -> (was_running: bool)
        ensures
            was_running == old(self).running,
            !final(self).running,
            final(self).generation == old(self).generation.wrapping_add(1),
            final(self).status == old(self).status,
    {
        self.generation = self.generation.wrapping_add(1);
        let was_running = self.running;
        self.running = false;
        was_running
    }

    /// Whether a command is running.
    pub fn is_running(&self) -> (r: bool)
        ensures
            r == self.running,
    {
        self.running
    }
}

/// Once a run is cancelled or another run starts, the earlier run's
/// completion is never taken.
pub proof fn law_superseded_run_cannot_report(generation: u64)
    ensures
        !accepts_completion(generation.wrapping_add(1), generation),
{
}

/// The notice shown when a visible slide command ends.
pub fn completion_notice(result: &Result<(), String>) -> (n: String)
    ensures
        match result {
            Ok(()) => n@ == "Slide command finished"@,
            Err(e) => n@ == "Slide command failed — "@ + e@,
        },
{
    match result {
        Ok(()) => owned("Slide command finished"),
        Err(e) => {
            let mut v = chars_of("Slide command failed — ");
            append_str(&mut v, e.as_str());
            string_of(&v)
        },
    }
}

} // verus!
