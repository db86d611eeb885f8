//! The two game modes and the machine that switches between them.
//!
//! A mode never changes at once. A request starts a transition, which takes
//! a fixed time; when that time has passed the switch is delivered to the
//! machine, exactly once. While a transition is under way every further
//! request is dropped.

use vstd::prelude::*;

verus! {

/// The mode the game is in.
#[derive(Clone, Copy, Debug, PartialEq, Eq, Structural)]
pub enum GameMode {
    Overworld,
    Combat,
}

/// A wish to switch to `target_mode`.
#[derive(Clone, Copy, Debug, PartialEq, Eq, Structural)]
pub struct TransitionRequest {
    pub target_mode: GameMode,
}

/// A change of mode that took place, by which its reactions are chosen.
#[derive(Clone, Copy, Debug, PartialEq, Eq, Structural)]
pub enum ModeChange {
    EnteredCombat,
    LeftCombat,
}

/// A transition under way.
#[derive(Clone, Copy, Debug, PartialEq, Eq, Structural)]
pub struct Transition {
    pub target: GameMode,
    /// Time left until the switch is delivered, in microseconds.
    pub remaining_micros: u64,
}

/// The current mode, the transition under way if there is one, and the
/// time that every transition takes.
#[derive(Clone, Copy, Debug, PartialEq, Eq, Structural)]
pub struct StateMachine {
    pub mode: GameMode,
    pub pending: Option<Transition>,
    pub fade_micros: u64,
}

/// The change that a switch from `from` to `to` amounts to, if any.
pub open spec fn change_between(from: GameMode, to: GameMode) -> Option<ModeChange> {
    match (from, to) {
        (GameMode::Overworld, GameMode::Combat) => Some(ModeChange::EnteredCombat),
        (GameMode::Combat, GameMode::Overworld) => Some(ModeChange::LeftCombat),
        _ => None,
    }
}

/// Whether `machine` takes up `request`: nothing is pending and the target
/// differs from the current mode.
pub open spec fn accepts(machine: StateMachine, request: TransitionRequest) -> bool {
    machine.pending.is_none() && request.target_mode != machine.mode
}

/// The machine after `request` was made of it.
pub open spec fn requested(machine: StateMachine, request: TransitionRequest) -> StateMachine {
    if accepts(machine, request) {
        StateMachine {
            mode: machine.mode,
            pending: Some(
                Transition { target: request.target_mode, remaining_micros: machine.fade_micros },
            ),
            fade_micros: machine.fade_micros,
        }
    } else {
        machine
    }
}

/// The machine after the switch to `target` was delivered to it. A switch
/// to the current mode changes nothing; any other ends the transition
/// under way.
pub open spec fn switched(machine: StateMachine, target: GameMode) -> StateMachine {
    if target == machine.mode {
        machine
    } else {
        StateMachine { mode: target, pending: None, fade_micros: machine.fade_micros }
    }
}

/// Whether the transition under way, if any, is due within `delta_micros`.
pub open spec fn due(machine: StateMachine, delta_micros: u32) -> bool {
    machine.pending matches Some(t) && t.remaining_micros <= delta_micros
}

/// The machine after `delta_micros` have passed: a transition that is due
/// is delivered, one that is not has less time left.
pub open spec fn advanced(machine: StateMachine, delta_micros: u32) -> StateMachine {
    match machine.pending {
        None => machine,
        Some(t) => if t.remaining_micros <= delta_micros {
            StateMachine { mode: t.target, pending: None, fade_micros: machine.fade_micros }
        } else {
            StateMachine {
                mode: machine.mode,
                pending: Some(
                    Transition {
                        target: t.target,
                        remaining_micros: (t.remaining_micros - delta_micros) as u64,
                    },
                ),
                fade_micros: machine.fade_micros,
            }
        },
    }
}

/// The change of mode that `delta_micros` bring about, if any.
pub open spec fn change_within(machine: StateMachine, delta_micros: u32) -> Option<ModeChange> {
    if due(machine, delta_micros) {
        change_between(machine.mode, machine.pending.unwrap().target)
    } else {
        None
    }
}

impl StateMachine {
    /// A machine in the overworld with nothing pending.
    pub fn new(fade_micros: u64) -> (machine: StateMachine)
        ensures
            machine == (StateMachine { mode: GameMode::Overworld, pending: None, fade_micros }),
    {
        StateMachine { mode: GameMode::Overworld, pending: None, fade_micros }
    }

    /// The current mode.
    pub fn mode(&self) -> (mode: GameMode)
        ensures
            mode == self.mode,
    {
        self.mode
    }

    /// Whether a transition is under way.
    pub fn is_pending(&self) -> (pending: bool)
        ensures
            pending == self.pending.is_some(),
    {
        self.pending.is_some()
    }

    /// Starts the transition that `request` asks for, unless one is under
    /// way or the target is the current mode; the request is then dropped.
    /// Tells whether the transition was started.
    pub fn request(&mut self, request: TransitionRequest) -> (accepted: bool)
        ensures
            accepted == accepts(*old(self), request),
            *final(self) == requested(*old(self), request),
    {
        if self.pending.is_none() && request.target_mode != self.mode {
            self.pending = Some(
                Transition { target: request.target_mode, remaining_micros: self.fade_micros },
            );
            true
        } else {
            false
        }
    }

    /// Delivers the switch to `target` and tells which change of mode took
    /// place, if any.
    pub fn mode_switch(&mut self, target: GameMode) -> (change: Option<ModeChange>)
        ensures
            *final(self) == switched(*old(self), target),
            change == change_between(old(self).mode, target),
    {
        let change = change_for(self.mode, target);
        if change.is_some() {
            self.mode = target;
            self.pending = None;
        }
        change
    }

    /// Lets `delta_micros` pass. A transition that becomes due is
    /// delivered, and the change of mode it brought about is returned.
    pub fn advance(&mut self, delta_micros: u32) -> (change: Option<ModeChange>)
        ensures
            *final(self) == advanced(*old(self), delta_micros),
            change == change_within(*old(self), delta_micros),
    {
        match self.pending {
            None => None,
            Some(t) => {
                if t.remaining_micros <= delta_micros as u64 {
                    let change = change_for(self.mode, t.target);
                    self.mode = t.target;
                    self.pending = None;
                    change
                } else {
                    self.pending = Some(
                        Transition {
                            target: t.target,
                            remaining_micros: t.remaining_micros - delta_micros as u64,
                        },
                    );
                    None
                }
            },
        }
    }
}

/// Computes `change_between`.
pub fn change_for(from: GameMode, to: GameMode) -> (change: Option<ModeChange>)
    ensures
        change == change_between(from, to),
        change.is_some() == (from != to),
{
    match (from, to) {
        (GameMode::Overworld, GameMode::Combat) => Some(ModeChange::EnteredCombat),
        (GameMode::Combat, GameMode::Overworld) => Some(ModeChange::LeftCombat),
        _ => None,
    }
}

/// A request for the mode the machine is in changes nothing, and neither
/// does the delivery of a switch to that mode.
pub proof fn lemma_same_mode_is_noop(machine: StateMachine, request: TransitionRequest)
    requires
        request.target_mode == machine.mode,
    ensures
        !accepts(machine, request),
        requested(machine, request) == machine,
        switched(machine, request.target_mode) == machine,
        change_between(machine.mode, request.target_mode).is_none(),
{
}

/// Of two requests made one after the other, the second is dropped if the
/// first was taken up: the machine is as the first left it.
pub proof fn lemma_second_request_dropped(
    machine: StateMachine,
    first: TransitionRequest,
    second: TransitionRequest,
)
    requires
        accepts(machine, first),
    ensures
        !accepts(requested(machine, first), second),
        requested(requested(machine, first), second) == requested(machine, first),
        requested(machine, first).mode == machine.mode,
{
}

/// No request changes the mode, whether it is taken up or dropped.
pub proof fn lemma_request_keeps_mode(machine: StateMachine, request: TransitionRequest)
    ensures
        requested(machine, request).mode == machine.mode,
        requested(machine, request).fade_micros == machine.fade_micros,
{
}

/// A transition is delivered once: when it is due the mode becomes its
/// target and nothing is pending, so that no later passing of time
/// changes the machine or reports a change.
pub proof fn lemma_delivered_once(machine: StateMachine, delta_micros: u32, later_micros: u32)
    requires
        due(machine, delta_micros),
    ensures
        advanced(machine, delta_micros).mode == machine.pending.unwrap().target,
        advanced(machine, delta_micros).pending.is_none(),
        advanced(advanced(machine, delta_micros), later_micros) == advanced(
            machine,
            delta_micros,
        ),
        change_within(advanced(machine, delta_micros), later_micros).is_none(),
{
}

/// A transition that is not yet due leaves the mode as it is and stays
/// pending with the same target.
pub proof fn lemma_not_due_keeps_mode(machine: StateMachine, delta_micros: u32)
    requires
        machine.pending.is_some(),
        !due(machine, delta_micros),
    ensures
        advanced(machine, delta_micros).mode == machine.mode,
        advanced(machine, delta_micros).pending.is_some(),
        advanced(machine, delta_micros).pending.unwrap().target
            == machine.pending.unwrap().target,
        change_within(machine, delta_micros).is_none(),
{
}

} // verus!
