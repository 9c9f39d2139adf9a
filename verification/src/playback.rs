//! The playback sequencer: the phases of a session, the step from one to
//! the next, and the script of actions that a whole session performs.

use vstd::prelude::*;

verus! {

/// What a session is made of, as far as its order of events goes.
#[derive(Clone, Copy, Debug, PartialEq, Eq, Structural)]
pub struct Session {
    /// The number of tracks to play.
    pub track_count: usize,
    /// Whether a delay before the first track is configured.
    pub delay: bool,
    /// Whether a pause after each track is configured.
    pub pause: bool,
}

/// Where a session stands.
#[derive(Clone, Copy, Debug, PartialEq, Eq, Structural)]
pub enum Phase {
    /// Nothing has happened yet.
    Idle,
    /// The output device is chosen.
    DeviceSelected,
    /// The delay before the first track has been waited out.
    Delaying,
    /// The projected end times have been announced.
    Projecting,
    /// The track at this index has been played to its end.
    Playing(usize),
    /// The pause after the track at this index has been waited out.
    Pausing(usize),
    /// All tracks are played and the session is closed.
    Done,
}

/// What the caller does to enter a phase.
#[derive(Clone, Copy, Debug, PartialEq, Eq, Structural)]
pub enum Action {
    /// Ask for the output device.
    SelectDevice,
    /// Wait for the configured delay.
    Delay,
    /// Announce the projected end times.
    ProjectEndTimes,
    /// Play the track at this index and wait until it ends.
    Play(usize),
    /// Wait for the configured pause.
    Pause,
    /// Remove what the session left behind and report the end.
    Finish,
}

/// One step of a session: the action to perform, and the phase that the
/// session is in once it is performed.
#[derive(Clone, Copy, Debug, PartialEq, Eq, Structural)]
pub struct Step {
    pub action: Action,
    pub next: Phase,
}

/// The assumed total playing times, in minutes, for which an end time is
/// projected before the first track.
pub const PROJECTED_MINUTES: [i64; 4] = [32, 45, 74, 80];

impl Session {
    /// Whether `phase` can occur in this session.
    pub open spec fn admits(self, phase: Phase) -> bool {
        match phase {
            Phase::Delaying => self.delay,
            Phase::Playing(i) => i < self.track_count,
            Phase::Pausing(i) => self.pause && i < self.track_count,
            _ => true,
        }
    }

    /// Playing the track at index `i`, or the end where there is none.
    pub open spec fn track_or_done(self, i: int) -> Phase {
        if 0 <= i < self.track_count {
            Phase::Playing(i as usize)
        } else {
            Phase::Done
        }
    }

    /// The phase that follows `phase`. `Done` is followed by itself.
    pub open spec fn next_phase(self, phase: Phase) -> Phase {
        match phase {
            Phase::Idle => Phase::DeviceSelected,
            Phase::DeviceSelected => if self.delay {
                Phase::Delaying
            } else {
                Phase::Projecting
            },
            Phase::Delaying => Phase::Projecting,
            Phase::Projecting => self.track_or_done(0),
            Phase::Playing(i) => if self.pause && i < self.track_count {
                Phase::Pausing(i)
            } else {
                self.track_or_done(i + 1)
            },
            Phase::Pausing(i) => self.track_or_done(i + 1),
            Phase::Done => Phase::Done,
        }
    }

    /// The number of actions that `count` tracks take: each is played, and
    /// paused after if a pause is configured.
    pub open spec fn actions_for(self, count: int) -> int {
        if self.pause {
            2 * count
        } else {
            count
        }
    }

    /// The number of actions before the first track: choosing the device,
    /// the delay if one is configured, and the projection.
    pub open spec fn lead_in(self) -> int {
        if self.delay {
            3
        } else {
            2
        }
    }

    /// The number of actions that have been performed when the session is
    /// in `phase`.
    pub open spec fn position(self, phase: Phase) -> int {
        match phase {
            Phase::Idle => 0,
            Phase::DeviceSelected => 1,
            Phase::Delaying => 2,
            Phase::Projecting => self.lead_in(),
            Phase::Playing(i) => self.lead_in() + self.actions_for(i as int) + 1,
            Phase::Pausing(i) => self.lead_in() + self.actions_for(i as int) + 2,
            Phase::Done => self.lead_in() + self.actions_for(self.track_count as int) + 1,
        }
    }

    /// The actions for the first `count` tracks: each is played, then
    /// paused after if a pause is configured.
    pub open spec fn track_actions(self, count: nat) -> Seq<Action>
        decreases count,
    {
        if count == 0 {
            Seq::empty()
        } else {
            let before = self.track_actions((count - 1) as nat).push(
                Action::Play((count - 1) as usize),
            );
            if self.pause {
                before.push(Action::Pause)
            } else {
                before
            }
        }
    }

    /// Everything that the session does, in order: the device is chosen,
    /// the delay is waited out if there is one, the end times are
    /// projected, every track is played in turn, and the session is
    /// closed.
    pub open spec fn script(self) -> Seq<Action> {
        let opening = if self.delay {
            seq![Action::SelectDevice, Action::Delay, Action::ProjectEndTimes]
        } else {
            seq![Action::SelectDevice, Action::ProjectEndTimes]
        };
        opening + self.track_actions(self.track_count as nat) + seq![Action::Finish]
    }
}

/// The action by which a phase is entered; `None` for `Idle`, where every
/// session starts.
pub open spec fn entry_action(phase: Phase) -> Option<Action> {
    match phase {
        Phase::Idle => None,
        Phase::DeviceSelected => Some(Action::SelectDevice),
        Phase::Delaying => Some(Action::Delay),
        Phase::Projecting => Some(Action::ProjectEndTimes),
        Phase::Playing(i) => Some(Action::Play(i)),
        Phase::Pausing(_) => Some(Action::Pause),
        Phase::Done => Some(Action::Finish),
    }
}

impl Session {
    /// The phase in which the track at index `i` is played, or `Done`
    /// where the session has no such track.
    fn track_phase(&self, i: usize) -> (r: Phase)
        ensures
            r == self.track_or_done(i as int),
    {
        if i < self.track_count {
            Phase::Playing(i)
        } else {
            Phase::Done
        }
    }

    /// The phase after the track at index `i` and its pause.
    fn after_track(&self, i: usize) -> (r: Phase)
        ensures
            r == self.track_or_done(i + 1),
    {
        if i < self.track_count && i + 1 < self.track_count {
            Phase::Playing(i + 1)
        } else {
            Phase::Done
        }
    }

    /// The step that leaves `phase`: what to do next, and the phase that
    /// the session is in afterwards. `None` once the session is done.
    pub fn advance(&self, phase: Phase) -> (r: Option<Step>)
        ensures
            r is None <==> phase == Phase::Done,
            r is Some ==> r.unwrap().next == self.next_phase(phase),
            r is Some ==> Some(r.unwrap().action) == entry_action(self.next_phase(phase)),
    {
        let next: Phase = match phase {
            Phase::Idle => Phase::DeviceSelected,
            Phase::DeviceSelected => if self.delay {
                Phase::Delaying
            } else {
                Phase::Projecting
            },
            Phase::Delaying => Phase::Projecting,
            Phase::Projecting => self.track_phase(0),
            Phase::Playing(i) => if self.pause && i < self.track_count {
                Phase::Pausing(i)
            } else {
                self.after_track(i)
            },
            Phase::Pausing(i) => self.after_track(i),
            Phase::Done => {
                return None;
            },
        };
        let action: Action = match next {
            Phase::Idle => Action::SelectDevice,
            Phase::DeviceSelected => Action::SelectDevice,
            Phase::Delaying => Action::Delay,
            Phase::Projecting => Action::ProjectEndTimes,
            Phase::Playing(i) => Action::Play(i),
            Phase::Pausing(_) => Action::Pause,
            Phase::Done => Action::Finish,
        };
        Some(Step { action, next })
    }
}

impl Session {
    /// Where the actions of each track stand among those of the first
    /// `count` tracks.
    pub proof fn lemma_track_actions(self, count: nat)
        requires
            count <= usize::MAX,
        ensures
            self.track_actions(count).len() == self.actions_for(count as int),
            forall|i: int|
                0 <= i < count ==> self.track_actions(count)[self.actions_for(i)] == Action::Play(
                    i as usize,
                ),
            forall|i: int|
                0 <= i < count && self.pause ==> self.track_actions(count)[self.actions_for(i) + 1]
                    == Action::Pause,
        decreases count,
    {
        if count > 0 {
            self.lemma_track_actions((count - 1) as nat);
        }
    }

    /// Stepping walks the script. From a phase that the session admits
    /// and that is not `Done`, the next phase is admitted too, lies one
    /// action further, and is entered by the action that the script holds
    /// at that place. `Idle` lies before the first action and `Done` after
    /// the last: a session that starts in `Idle` performs the script from
    /// its first action to its last, every track once and in order, and
    /// then is done.
    pub proof fn lemma_step_follows_script(self, phase: Phase)
        requires
            self.admits(phase),
        ensures
            self.position(Phase::Idle) == 0,
            self.position(Phase::Done) == self.script().len(),
            0 <= self.position(phase) <= self.script().len(),
            phase != Phase::Done ==> ({
                &&& self.admits(self.next_phase(phase))
                &&& self.position(self.next_phase(phase)) == self.position(phase) + 1
                &&& entry_action(self.next_phase(phase)) == Some(
                    self.script()[self.position(phase)],
                )
            }),
    {
        self.lemma_track_actions(self.track_count as nat);
    }

    /// The actions of the whole session, in the order in which they are
    /// performed, found by stepping from `Idle` until the session is done.
    pub fn schedule(&self) -> (r: Vec<Action>)
        ensures
            r@ == self.script(),
    {
        let mut out: Vec<Action> = Vec::new();
        let mut phase: Phase = Phase::Idle;
        proof {
            self.lemma_step_follows_script(phase);
            assert(out@ =~= self.script().take(0));
        }
        loop
            invariant
                self.admits(phase),
                0 <= self.position(phase) <= self.script().len(),
                out@ == self.script().take(self.position(phase)),
            decreases self.script().len() - self.position(phase),
        {
            proof {
                self.lemma_step_follows_script(phase);
            }
            match self.advance(phase) {
                None => {
                    assert(self.script().take(self.script().len() as int) =~= self.script());
                    return out;
                },
                Some(step) => {
                    proof {
                        self.lemma_step_follows_script(step.next);
                        self.script().lemma_take_succ_push(self.position(phase));
                    }
                    out.push(step.action);
                    phase = step.next;
                },
            }
        }
    }
}

} // verus!
