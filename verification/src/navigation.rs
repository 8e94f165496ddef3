//! The stage's position in a presentation: which slide shows, whether the
//! screen is blanked, and the transition that runs after a slide change.
use vstd::prelude::*;
use crate::deck::{LegacyTiming, Slide};
use crate::paths::{parent, parent_spec};
use crate::stage::{motion_duration, motion_duration_spec, ReducedMotion};
use crate::transition::{duration_spec, duration_with_legacy};

verus! {

/// A slide change whose animation is running.
#[derive(Clone, Copy, Debug, PartialEq, Eq, Structural)]
pub struct Transition {
    /// The slide shown before the change.
    pub previous: usize,
    pub backwards: bool,
    pub duration_ms: u64,
    /// Tells this transition apart from later ones.
    pub generation: u64,
}

/// Where the stage stands in its presentation.
#[derive(Clone, Debug)]
pub struct StageState {
    /// The presentation's slides, once one is loaded.
    pub slides: Option<Vec<Slide>>,
    /// The path of the presentation's file.
    pub path: Option<String>,
    /// The slide on screen.
    pub current: usize,
    /// The screen is blanked.
    pub blank: bool,
    pub transition: Option<Transition>,
    /// Counts presentation loads.
    pub generation: u64,
    /// Counts slide changes and loads.
    pub transition_generation: u64,
}

/// The number of slides (0 with no presentation).
pub open spec fn count_of(slides: Option<Vec<Slide>>) -> nat {
    match slides {
        Some(s) => s@.len(),
        None => 0,
    }
}

/// The transition's duration for a change from slide `previous` to slide
/// `target`: the longer of the outgoing and the incoming side, unless motion
/// is reduced.
pub open spec fn change_duration(
    slides: Seq<Slide>,
    previous: usize,
    target: usize,
    legacy_previous: Option<LegacyTiming>,
    legacy_target: Option<LegacyTiming>,
    animations_enabled: bool,
    reduced_motion: ReducedMotion,
) -> u64 {
    let backwards = target < previous;
    let out_ms = duration_spec(slides[previous as int], false, backwards, legacy_previous);
    let in_ms = duration_spec(slides[target as int], true, backwards, legacy_target);
    let longest = if out_ms >= in_ms { out_ms } else { in_ms };
    motion_duration_spec(longest as u64, animations_enabled, reduced_motion)
}

proof fn lemma_duration_fits(slide: Slide, incoming: bool, backwards: bool, legacy: Option<LegacyTiming>)
    ensures
        duration_spec(slide, incoming, backwards, legacy) <= u32::MAX,
{
}

/// A slide change's transition lasts as long as the longer of its two
/// sides: at least as long as the outgoing slide's transition and as the
/// incoming slide's, and exactly one of them; with animations off or
/// reduced motion asked for, it takes no time.
pub proof fn law_transition_covers_both_sides(
    slides: Seq<Slide>,
    previous: usize,
    target: usize,
    legacy_previous: Option<LegacyTiming>,
    legacy_target: Option<LegacyTiming>,
    animations_enabled: bool,
    reduced_motion: ReducedMotion,
)
    requires
        previous < slides.len(),
        target < slides.len(),
    ensures
        ({
            let backwards = target < previous;
            let out_ms = duration_spec(slides[previous as int], false, backwards, legacy_previous);
            let in_ms = duration_spec(slides[target as int], true, backwards, legacy_target);
            let d = change_duration(slides, previous, target, legacy_previous, legacy_target, animations_enabled, reduced_motion);
            if animations_enabled && reduced_motion == ReducedMotion::NoPreference {
                d >= out_ms && d >= in_ms && (d == out_ms || d == in_ms)
            } else {
                d == 0
            }
        }),
{
    let backwards = target < previous;
    lemma_duration_fits(slides[previous as int], false, backwards, legacy_previous);
    lemma_duration_fits(slides[target as int], true, backwards, legacy_target);
}

/// The slide on screen after asking for slide `target` in a deck of `count`
/// slides: the target where there is such a slide, else unchanged.
pub open spec fn current_after(count: nat, current: usize, target: usize) -> usize {
    if target < count && target != current { target } else { current }
}

/// Stepping forward and then back returns to the same slide, where there was
/// a slide to step to.
pub proof fn law_next_then_previous_returns(count: nat, current: usize)
    requires
        current + 1 < count,
        count <= usize::MAX,
    ensures
        ({
            let forward = current_after(count, current, (current + 1) as usize);
            forward == current + 1 && current_after(count, forward, (forward - 1) as usize) == current
        }),
{
}

impl StageState {
    /// The slide on screen is one of the presentation's, where it has any;
    /// a running transition starts from one of them too.
    pub open spec fn wf(&self) -> bool {
        &&& (count_of(self.slides) == 0 ==> self.current == 0)
        &&& (count_of(self.slides) > 0 ==> self.current < count_of(self.slides))
        &&& (self.transition matches Some(t) ==> t.previous < count_of(self.slides))
    }

    /// A stage with no presentation.
    pub fn new() -> (s: StageState)
        ensures
            s.wf(),
            s.slides is None,
            s.path is None,
            s.current == 0,
            !s.blank,
            s.transition is None,
            s.generation == 0,
            s.transition_generation == 0,
    {
        StageState { slides: None, path: None, current: 0, blank: false, transition: None, generation: 0, transition_generation: 0 }
    }

    /// The number of slides.
    pub fn slide_count(&self) -> (n: usize)
        ensures
            n as nat == count_of(self.slides),
    {
        match &self.slides {
            Some(s) => s.len(),
            None => 0,
        }
    }

    /// Shows `slides`, read from the file at `path`, from slide
    /// `initial_slide`, or from the last slide where there are fewer. The
    /// screen is unblanked and any transition ends.
    pub fn set_presentation_at(&mut self, slides: Vec<Slide>, path: String, initial_slide: usize)
        ensures
            final(self).wf(),
            final(self).slides == Some(slides),
            final(self).path == Some(path),
            final(self).current == (if initial_slide < slides@.len() {
                initial_slide as int
            } else if slides@.len() == 0 {
                0
            } else {
                slides@.len() - 1
            }),
            !final(self).blank,
            final(self).transition is None,
            final(self).generation == old(self).generation.wrapping_add(1),
            final(self).transition_generation == old(self).transition_generation.wrapping_add(1),
    {
        self.generation = self.generation.wrapping_add(1);
        self.transition_generation = self.transition_generation.wrapping_add(1);
        let last = if slides.len() == 0 { 0 } else { slides.len() - 1 };
        self.current = if initial_slide < last { initial_slide } else { last };
        self.slides = Some(slides);
        self.path = Some(path);
        self.blank = false;
        self.transition = None;
    }

    /// The folder of the presentation's file, where there is one.
    pub fn presentation_folder(&self) -> (f: Option<String>)
        ensures
            match f {
                Some(folder) => self.path matches Some(p) && parent_spec(p@) == Some(folder@),
                None => match self.path {
                    Some(p) => parent_spec(p@) is None,
                    None => true,
                },
            },
    {
        match &self.path {
            Some(p) => parent(p.as_str()),
            None => None,
        }
    }

    /// The command attached to the slide on screen.
    pub fn current_command(&self) -> (c: Option<String>)
        ensures
            match c {
                Some(c) => self.slides matches Some(s) && self.current < s@.len()
                    && s@[self.current as int].command == Some(c),
                None => !(self.slides matches Some(s) && self.current < s@.len()
                    && s@[self.current as int].command is Some),
            },
    {
        match &self.slides {
            Some(s) => {
                if self.current < s.len() {
                    s[self.current].command.clone()
                } else {
                    None
                }
            },
            None => None,
        }
    }

    /// Moves to slide `target` with a transition, unless there is no
    /// presentation, `target` is past its end, or it is the slide on screen.
    /// `legacy_previous` and `legacy_target` are the timings of the legacy
    /// transition definitions that the two slides name, where loaded. A
    /// transition that would take no time is not started.
    pub fn go_to(
        &mut self,
        target: usize,
        legacy_previous: Option<LegacyTiming>,
        legacy_target: Option<LegacyTiming>,
        animations_enabled: bool,
        reduced_motion: ReducedMotion,
    ) -> (moved: bool)
        requires
            old(self).wf(),
        ensures
            final(self).wf(),
            moved == (target < count_of(old(self).slides) && target != old(self).current),
            final(self).current == current_after(count_of(old(self).slides), old(self).current, target),
            final(self).slides == old(self).slides,
            final(self).path == old(self).path,
            final(self).blank == old(self).blank,
            final(self).generation == old(self).generation,
            !moved ==> *final(self) == *old(self),
            moved ==> {
                let d = change_duration(
                    old(self).slides->Some_0@,
                    old(self).current,
                    target,
                    legacy_previous,
                    legacy_target,
                    animations_enabled,
                    reduced_motion,
                );
                &&& final(self).current == target
                &&& final(self).transition_generation == old(self).transition_generation.wrapping_add(1)
                &&& final(self).transition == if d == 0 {
                    None
                } else {
                    Some(Transition {
                        previous: old(self).current,
                        backwards: target < old(self).current,
                        duration_ms: d,
                        generation: old(self).transition_generation.wrapping_add(1),
                    })
                }
            },
    {
        let (out_ms, in_ms) = match &self.slides {
            None => return false,
            Some(slides) => {
                if target >= slides.len() || target == self.current {
                    return false;
                }
                let backwards = target < self.current;
                let out_ms = duration_with_legacy(&slides[self.current], false, backwards, legacy_previous);
                let in_ms = duration_with_legacy(&slides[target], true, backwards, legacy_target);
                (out_ms, in_ms)
            },
        };
        let previous = self.current;
        let backwards = target < previous;
        let longest = if out_ms >= in_ms { out_ms } else { in_ms };
        let duration = motion_duration(longest, animations_enabled, reduced_motion);
        self.current = target;
        self.transition_generation = self.transition_generation.wrapping_add(1);
        if duration == 0 {
            self.transition = None;
        } else {
            self.transition = Some(Transition {
                previous,
                backwards,
                duration_ms: duration,
                generation: self.transition_generation,
            });
        }
        true
    }

    /// Moves to the next slide.
    pub fn next(
        &mut self,
        legacy_previous: Option<LegacyTiming>,
        legacy_target: Option<LegacyTiming>,
        animations_enabled: bool,
        reduced_motion: ReducedMotion,
    ) -> (moved: bool)
        requires
            old(self).wf(),
        ensures
            final(self).wf(),
            moved == (old(self).current + 1 < count_of(old(self).slides)),
            moved ==> final(self).current == old(self).current + 1,
            !moved ==> *final(self) == *old(self),
    {
        let count = self.slide_count();
        if count == 0 {
            return false;
        }
        let target = self.current.saturating_add(1);
        self.go_to(target, legacy_previous, legacy_target, animations_enabled, reduced_motion)
    }

    /// Moves to the previous slide.
    pub fn previous(
        &mut self,
        legacy_previous: Option<LegacyTiming>,
        legacy_target: Option<LegacyTiming>,
        animations_enabled: bool,
        reduced_motion: ReducedMotion,
    ) -> (moved: bool)
        requires
            old(self).wf(),
        ensures
            final(self).wf(),
            moved == (old(self).current > 0 && count_of(old(self).slides) > 0),
            moved ==> final(self).current == old(self).current - 1,
            !moved ==> *final(self) == *old(self),
    {
        if self.current == 0 {
            return false;
        }
        let target = self.current - 1;
        self.go_to(target, legacy_previous, legacy_target, animations_enabled, reduced_motion)
    }

    /// Moves to the first slide.
    pub fn first(
        &mut self,
        legacy_previous: Option<LegacyTiming>,
        legacy_target: Option<LegacyTiming>,
        animations_enabled: bool,
        reduced_motion: ReducedMotion,
    ) -> (moved: bool)
        requires
            old(self).wf(),
        ensures
            final(self).wf(),
            moved == (old(self).current > 0),
            count_of(final(self).slides) > 0 ==> final(self).current == 0,
            !moved ==> *final(self) == *old(self),
    {
        self.go_to(0, legacy_previous, legacy_target, animations_enabled, reduced_motion)
    }

    /// Moves to the last slide.
    pub fn last(
        &mut self,
        legacy_previous: Option<LegacyTiming>,
        legacy_target: Option<LegacyTiming>,
        animations_enabled: bool,
        reduced_motion: ReducedMotion,
    ) -> (moved: bool)
        requires
            old(self).wf(),
        ensures
            final(self).wf(),
            moved == (old(self).current + 1 < count_of(old(self).slides)),
            count_of(final(self).slides) > 0 ==> final(self).current == count_of(final(self).slides) - 1,
            !moved ==> *final(self) == *old(self),
    {
        let count = self.slide_count();
        if count == 0 {
            return false;
        }
        self.go_to(count - 1, legacy_previous, legacy_target, animations_enabled, reduced_motion)
    }

    /// Shows slide `slide` at once, ending any transition; false where there
    /// is no such slide.
    pub fn set_slide_without_transition(&mut self, slide: usize) -> (shown: bool)
        requires
            old(self).wf(),
        ensures
            final(self).wf(),
            shown == (slide < count_of(old(self).slides)),
            shown ==> final(self).current == slide && final(self).transition is None
                && final(self).slides == old(self).slides && final(self).blank == old(self).blank
                && final(self).path == old(self).path
                && final(self).transition_generation == old(self).transition_generation
                && final(self).generation == old(self).generation,
            !shown ==> *final(self) == *old(self),
    {
        let count = self.slide_count();
        if slide >= count {
            return false;
        }
        self.current = slide;
        self.transition = None;
        true
    }

    /// Ends the transition of generation `generation` once its time is up;
    /// a later transition is left running. Returns whether one ended.
    pub fn finish_transition(&mut self, generation: u64) -> (ended: bool)
        requires
            old(self).wf(),
        ensures
            final(self).wf(),
            ended == (old(self).transition matches Some(t) && t.generation == generation),
            ended ==> final(self).transition is None,
            !ended ==> final(self).transition == old(self).transition,
            final(self).current == old(self).current,
            final(self).slides == old(self).slides,
            final(self).path == old(self).path,
            final(self).blank == old(self).blank,
            final(self).generation == old(self).generation,
            final(self).transition_generation == old(self).transition_generation,
    {
        match self.transition {
            Some(t) => {
                if t.generation == generation {
                    self.transition = None;
                    true
                } else {
                    false
                }
            },
            None => false,
        }
    }

    /// One frame of the transition of generation `generation`, `elapsed_ms`
    /// milliseconds after it started: it goes on while it is the running
    /// transition and its time is not up; otherwise a due transition of this
    /// generation ends. Returns whether to keep ticking.
    pub fn tick(&mut self, generation: u64, elapsed_ms: u64) -> (keep_going: bool)
        requires
            old(self).wf(),
        ensures
            final(self).wf(),
            keep_going == (old(self).transition matches Some(t) && t.generation == generation && elapsed_ms < t.duration_ms),
            keep_going ==> *final(self) == *old(self),
            !keep_going ==> final(self).transition == (if old(self).transition matches Some(t) && t.generation == generation {
                None
            } else {
                old(self).transition
            }),
            final(self).current == old(self).current,
            final(self).slides == old(self).slides,
            final(self).path == old(self).path,
            final(self).blank == old(self).blank,
            final(self).generation == old(self).generation,
            final(self).transition_generation == old(self).transition_generation,
    {
        match self.transition {
            Some(t) => {
                if t.generation == generation && elapsed_ms < t.duration_ms {
                    return true;
                }
            },
            None => {},
        }
        self.finish_transition(generation);
        false
    }

    /// Blanks or unblanks the screen.
    pub fn set_blank(&mut self, blank: bool)
        requires
            old(self).wf(),
        ensures
            final(self).wf(),
            final(self).blank == blank,
            final(self).current == old(self).current,
            final(self).slides == old(self).slides,
            final(self).path == old(self).path,
            final(self).transition == old(self).transition,
            final(self).generation == old(self).generation,
            final(self).transition_generation == old(self).transition_generation,
    {
        self.blank = blank;
    }

    /// Switches blanking.
    pub fn toggle_blank(&mut self)
        requires
            old(self).wf(),
        ensures
            final(self).wf(),
            final(self).blank == !old(self).blank,
            final(self).current == old(self).current,
            final(self).slides == old(self).slides,
            final(self).path == old(self).path,
            final(self).transition == old(self).transition,
            final(self).generation == old(self).generation,
            final(self).transition_generation == old(self).transition_generation,
    {
        let b = !self.blank;
        self.set_blank(b);
    }
}

} // verus!
