//! One transition from the outgoing player instance to the incoming one:
//! `Loaded`, then `Fading`, then `Draining`, then `Retired`.
//!
//! The caller owns the two instances. It observes them, hands each
//! observation to [`play`], performs the action that comes back and goes on
//! with the phase that comes back. All times are whole milliseconds.

use vstd::prelude::*;

use crate::catalog::MediaFile;

verus! {

/// The volume of an instance that is heard in full.
pub const FULL_VOLUME: u8 = 100;

/// The volume of an instance that is not heard.
pub const SILENT: u8 = 0;

/// The fade is over once the outgoing level has dropped below this.
pub const FADE_EXIT_LEVEL: u8 = 40;

/// How often at most the outgoing instance is waited on while it drains.
pub const DRAIN_POLLS: u32 = 20;

/// The span of incoming playback over which the incoming volume rises to full.
pub const RAMP_WINDOW_MS: u64 = 10_000;

/// An item counts as near its end when no more than this is left of it.
pub const END_MARGIN_MS: u64 = 30_000;

/// The pause between two observations of a transition, and of an item that
/// plays towards its end.
pub const POLL_INTERVAL_MS: u64 = 500;

/// Where a player instance stands in its item.
#[derive(Clone, Copy, Debug, PartialEq, Eq, Structural)]
pub struct Reading {
    pub position: u64,
    pub duration: u64,
}

/// What the two instances report at one moment. `None` stands for an
/// instance whose position or duration could not be read.
#[derive(Clone, Copy, Debug)]
pub struct Observation {
    pub outgoing: Option<Reading>,
    pub incoming: Option<u64>,
}

/// The phases of one transition.
#[derive(Clone, Copy, Debug, PartialEq, Eq, Structural)]
pub enum Phase {
    /// The incoming item is loaded and silent, the outgoing one plays its tail.
    Loaded,
    /// The volumes are being ramped; `remaining_at_start` is what was left of
    /// the outgoing item when the fade began.
    Fading { remaining_at_start: u64 },
    /// The fade is over and the outgoing item plays out; `polls` counts the
    /// observations made of it, starting at 1.
    Draining { polls: u32 },
    /// The outgoing instance has been given up.
    Retired,
}

/// What the caller does after a step.
#[derive(Clone, Copy, Debug, PartialEq, Eq, Structural)]
pub enum Action {
    /// Observe again at once.
    Poll,
    /// Push both volumes, pause one interval, observe again.
    Ramp { outgoing: u8, incoming: u8 },
    /// Push `last_outgoing` to the outgoing instance if there is one, then
    /// force the volumes `outgoing` and `incoming`, record the play, observe
    /// again.
    Settle { last_outgoing: Option<u8>, outgoing: u8, incoming: u8 },
    /// Pause one interval, observe again.
    Wait,
    /// Pause one interval if `pause_first`, then tell the outgoing instance to
    /// quit, end its process and swap the roles.
    Retire { pause_first: bool },
    /// Nothing is left to do.
    Rest,
}

/// What is left of an item; nothing once the position has passed the end.
pub open spec fn remaining(reading: Reading) -> nat {
    if reading.duration >= reading.position {
        (reading.duration - reading.position) as nat
    } else {
        0
    }
}

/// The outgoing level in percent: `left * 100 / at_start`, capped at 100. A
/// fade that began with nothing left stands at 0.
pub open spec fn outgoing_level(left: nat, at_start: nat) -> nat {
    if at_start == 0 {
        0
    } else if left * 100 / at_start >= 100 {
        100
    } else {
        left * 100 / at_start
    }
}

/// The incoming level in percent: `position * 100 / window`, capped at 100.
/// An empty window stands at 100.
pub open spec fn incoming_level(position: nat, window: nat) -> nat {
    if window == 0 {
        100
    } else if position * 100 / window >= 100 {
        100
    } else {
        position * 100 / window
    }
}

/// Whether an observation ends a fade that began with `at_start` left: one of
/// the instances cannot be read, or the outgoing level is under the exit level.
pub open spec fn ends_fade(at_start: u64, seen: Observation) -> bool {
    match seen.outgoing {
        None => true,
        Some(reading) => seen.incoming is None || outgoing_level(
            remaining(reading),
            at_start as nat,
        ) < FADE_EXIT_LEVEL,
    }
}

/// The action that ends a fade: whatever the ramp has reached, the outgoing
/// instance is silenced and the incoming one is heard in full.
pub open spec fn settled(last_outgoing: Option<u8>) -> Action {
    Action::Settle { last_outgoing, outgoing: SILENT, incoming: FULL_VOLUME }
}

/// Whether the outgoing instance is seen still playing.
pub open spec fn still_playing(seen: Observation) -> bool {
    seen.outgoing matches Some(reading) && reading.position < reading.duration
}

/// The phase and the action that follow `phase` on `seen`.
pub open spec fn step(phase: Phase, seen: Observation, window: u64) -> (Phase, Action) {
    match phase {
        Phase::Loaded => match seen.outgoing {
            Some(reading) => (
                Phase::Fading { remaining_at_start: remaining(reading) as u64 },
                Action::Poll,
            ),
            None => (Phase::Draining { polls: 1 }, settled(None)),
        },
        Phase::Fading { remaining_at_start } => match seen.outgoing {
            None => (Phase::Draining { polls: 1 }, settled(None)),
            Some(reading) => {
                let level = outgoing_level(remaining(reading), remaining_at_start as nat) as u8;
                if ends_fade(remaining_at_start, seen) {
                    (Phase::Draining { polls: 1 }, settled(Some(level)))
                } else {
                    (
                        phase,
                        Action::Ramp {
                            outgoing: level,
                            incoming: incoming_level(
                                seen.incoming.unwrap() as nat,
                                window as nat,
                            ) as u8,
                        },
                    )
                }
            },
        },
        Phase::Draining { polls } => if !still_playing(seen) {
            (Phase::Retired, Action::Retire { pause_first: false })
        } else if polls < DRAIN_POLLS {
            (Phase::Draining { polls: (polls + 1) as u32 }, Action::Wait)
        } else {
            (Phase::Retired, Action::Retire { pause_first: true })
        },
        Phase::Retired => (Phase::Retired, Action::Rest),
    }
}

/// The phase reached from `phase` after the observations `seen`, in order.
pub open spec fn run(phase: Phase, seen: Seq<Observation>, window: u64) -> Phase
    decreases seen.len(),
{
    if seen.len() == 0 {
        phase
    } else {
        step(run(phase, seen.drop_last(), window), seen.last(), window).0
    }
}

proof fn lemma_level_capped(left: nat, at_start: nat)
    requires
        at_start > 0,
    ensures
        left >= at_start ==> left * 100 / at_start >= 100,
        left < at_start ==> left * 100 / at_start < 100,
{
    if left >= at_start {
        assert(left * 100 / at_start >= 100) by (nonlinear_arith)
            requires
                left >= at_start,
                at_start > 0,
        ;
    } else {
        assert(left * 100 / at_start < 100) by (nonlinear_arith)
            requires
                left < at_start,
                at_start > 0,
        ;
    }
}

proof fn lemma_fading_run(at_start: u64, seen: Seq<Observation>, window: u64)
    ensures
        ({
            let end = run(Phase::Fading { remaining_at_start: at_start }, seen, window);
            &&& end == (Phase::Fading { remaining_at_start: at_start }) || end is Draining
                || end is Retired
            &&& end is Fading <==> forall|j: int| 0 <= j < seen.len() ==> !ends_fade(at_start, seen[j])
        }),
    decreases seen.len(),
{
    if seen.len() > 0 {
        let before = seen.drop_last();
        lemma_fading_run(at_start, before, window);
        let end = run(Phase::Fading { remaining_at_start: at_start }, seen, window);
        if end is Fading {
            assert forall|j: int| 0 <= j < seen.len() implies !ends_fade(at_start, seen[j]) by {
                if j < before.len() {
                    assert(before[j] == seen[j]);
                }
            }
        }
    }
}

/// A fade ends no later than with the first observation in which an instance
/// cannot be read or the outgoing level is under the exit level: after a run
/// of observations that holds such an observation at `k`, the transition is
/// past its fade, however the run goes on after `k`. Until such an
/// observation comes, the fade goes on.
pub proof fn lemma_fade_terminates(at_start: u64, seen: Seq<Observation>, window: u64, k: int)
    requires
        0 <= k < seen.len(),
        ends_fade(at_start, seen[k]),
    ensures
        run(Phase::Fading { remaining_at_start: at_start }, seen, window) is Draining || run(
            Phase::Fading { remaining_at_start: at_start },
            seen,
            window,
        ) is Retired,
        run(Phase::Fading { remaining_at_start: at_start }, seen.take(k), window) is Fading
            ==> run(Phase::Fading { remaining_at_start: at_start }, seen.take(k + 1), window)
            == (Phase::Draining { polls: 1 }),
{
    lemma_fading_run(at_start, seen, window);
    lemma_fading_run(at_start, seen.take(k), window);
    assert(seen.take(k + 1).drop_last() == seen.take(k));
}

proof fn lemma_draining_run(polls: u32, seen: Seq<Observation>, window: u64)
    requires
        1 <= polls <= DRAIN_POLLS,
    ensures
        ({
            let end = run(Phase::Draining { polls }, seen, window);
            end is Retired || (polls + seen.len() <= DRAIN_POLLS && end == Phase::Draining {
                polls: (polls + seen.len()) as u32,
            })
        }),
    decreases seen.len(),
{
    if seen.len() > 0 {
        lemma_draining_run(polls, seen.drop_last(), window);
    }
}

/// The outgoing instance is given up after a bounded wait: a transition
/// that drains, having made `polls` observations, is over after at most
/// `DRAIN_POLLS - polls + 1` more.
pub proof fn lemma_drain_bounded(polls: u32, seen: Seq<Observation>, window: u64)
    requires
        1 <= polls <= DRAIN_POLLS,
        seen.len() > DRAIN_POLLS - polls,
    ensures
        run(Phase::Draining { polls }, seen, window) is Retired,
{
    lemma_draining_run(polls, seen, window);
}

/// Every volume that a step asks for is a percentage. While the fade goes
/// on, the outgoing volume is no lower than the exit level. However the fade
/// ends, the outgoing instance is then silenced and the incoming one is heard
/// in full.
pub proof fn lemma_volumes_in_range(phase: Phase, seen: Observation, window: u64)
    ensures
        match step(phase, seen, window).1 {
            Action::Ramp { outgoing, incoming } => FADE_EXIT_LEVEL <= outgoing <= 100 && incoming
                <= 100,
            Action::Settle { last_outgoing, outgoing, incoming } => outgoing == SILENT && incoming
                == FULL_VOLUME && (last_outgoing matches Some(volume) ==> volume <= 100 && (volume
                >= FADE_EXIT_LEVEL ==> seen.incoming is None)),
            _ => true,
        },
{
}

/// A transition never goes back: once past its fade it does not fade again,
/// and once retired it stays retired.
pub proof fn lemma_phases_advance(phase: Phase, seen: Observation, window: u64)
    ensures
        phase is Draining ==> step(phase, seen, window).0 is Draining || step(
            phase,
            seen,
            window,
        ).0 is Retired,
        phase is Retired ==> step(phase, seen, window).0 is Retired,
        !(step(phase, seen, window).0 is Loaded),
{
}

/// What is left of the item that `reading` stands in.
pub fn remaining_time(reading: Reading) -> (left: u64)
    ensures
        left == remaining(reading),
{
    if reading.duration >= reading.position {
        reading.duration - reading.position
    } else {
        0
    }
}

fn percent_of(part: u64, whole: u64) -> (level: u8)
    requires
        whole > 0,
    ensures
        level <= 100,
        part * 100 / (whole as int) >= 100 ==> level == 100,
        part * 100 / (whole as int) < 100 ==> level == part * 100 / (whole as int),
{
    proof {
        lemma_level_capped(part as nat, whole as nat);
    }
    if part >= whole {
        100
    } else {
        let scaled: u128 = (part as u128) * 100;
        let level: u128 = scaled / (whole as u128);
        level as u8
    }
}

/// The volume of the outgoing instance when `left` remains of an item of
/// which `at_start` remained as the fade began.
pub fn outgoing_volume(left: u64, at_start: u64) -> (volume: u8)
    ensures
        volume == outgoing_level(left as nat, at_start as nat),
        volume <= 100,
{
    if at_start == 0 {
        0
    } else {
        percent_of(left, at_start)
    }
}

/// The volume of the incoming instance at `position` of its item, with the
/// rise spread over `window`.
pub fn incoming_volume(position: u64, window: u64) -> (volume: u8)
    ensures
        volume == incoming_level(position as nat, window as nat),
        volume <= 100,
{
    if window == 0 {
        100
    } else {
        percent_of(position, window)
    }
}

fn settle(last_outgoing: Option<u8>) -> (action: Action)
    ensures
        action == settled(last_outgoing),
{
    Action::Settle { last_outgoing, outgoing: SILENT, incoming: FULL_VOLUME }
}

/// One step of a transition: the phase and the action that follow `phase`
/// on the observation `seen`, with the incoming rise spread over `window`.
pub fn play(phase: Phase, seen: Observation, window: u64) -> (next: (Phase, Action))
    ensures
        next == step(phase, seen, window),
{
    match phase {
        Phase::Loaded => match seen.outgoing {
            Some(reading) => (
                Phase::Fading { remaining_at_start: remaining_time(reading) },
                Action::Poll,
            ),
            None => (Phase::Draining { polls: 1 }, settle(None)),
        },
        Phase::Fading { remaining_at_start } => match seen.outgoing {
            None => (Phase::Draining { polls: 1 }, settle(None)),
            Some(reading) => {
                let level: u8 = outgoing_volume(remaining_time(reading), remaining_at_start);
                if level < FADE_EXIT_LEVEL {
                    (Phase::Draining { polls: 1 }, settle(Some(level)))
                } else {
                    match seen.incoming {
                        None => (
                            Phase::Draining { polls: 1 },
                            settle(Some(level)),
                        ),
                        Some(position) => (
                            phase,
                            Action::Ramp {
                                outgoing: level,
                                incoming: incoming_volume(position, window),
                            },
                        ),
                    }
                }
            },
        },
        Phase::Draining { polls } => {
            let playing: bool = match seen.outgoing {
                Some(reading) => reading.position < reading.duration,
                None => false,
            };
            if !playing {
                (Phase::Retired, Action::Retire { pause_first: false })
            } else if polls < DRAIN_POLLS {
                (Phase::Draining { polls: polls + 1 }, Action::Wait)
            } else {
                (Phase::Retired, Action::Retire { pause_first: true })
            }
        },
        Phase::Retired => (Phase::Retired, Action::Rest),
    }
}

/// Whether the wait for the tail of the outgoing item is over, given where
/// the instance stands and the path of its item, each `None` where it could
/// not be read: the wait is over where one of them could not be read, and
/// where no more than the end margin is left.
pub fn wait_for_the_end(outgoing: Option<Reading>, path: &Option<String>) -> (over: bool)
    ensures
        over <==> outgoing is None || path is None || remaining(outgoing.unwrap())
            <= END_MARGIN_MS,
{
    match outgoing {
        Some(reading) => path.is_none() || remaining_time(reading) <= END_MARGIN_MS,
        None => true,
    }
}

/// Whether the category changes from the outgoing item to the incoming one.
pub fn category_changed(outgoing: &MediaFile, incoming: &MediaFile) -> (changed: bool)
    ensures
        changed <==> outgoing@.category != incoming@.category,
{
    outgoing.category != incoming.category
}

/// A duration in whole seconds, rounded to the nearest, halves upwards.
pub fn whole_seconds(milliseconds: u64) -> (seconds: u64)
    ensures
        seconds == (milliseconds + 500) / 1000,
{
    let whole: u64 = milliseconds / 1000;
    if milliseconds % 1000 >= 500 {
        whole + 1
    } else {
        whole
    }
}

} // verus!
