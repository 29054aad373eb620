//! The steps that bring a board into bootloader mode.
//!
//! The library decides what is done next; the caller does it on the
//! transport and reports back. First the bootloader is probed: a board that
//! answers is left as it is. Then the baud rate is set to 1200 for a
//! second, which resets some boards into their bootloader. At last the
//! board is reset over the DTR line while the RTS line selects the
//! bootloader.

use vstd::prelude::*;
use crate::errors::TockloaderError;

verus! {

/// The baud rate that makes some boards enter their bootloader.
pub const TOUCH_BAUD_RATE: u32 = 1200;

/// The steps of the entry, in their order.
#[derive(Clone, Copy, Debug, PartialEq, Eq)]
pub enum EntryStep {
    FirstProbe,
    LowerBaudRate,
    SettleLowered,
    SecondProbe,
    RestoreBaudRate,
    SettleRestored,
    AssertDtr,
    AssertRts,
    HoldReset,
    ReleaseDtr,
    AwaitStart,
    ReleaseRts,
    LastProbe,
}

/// Where the entry into the bootloader stands.
#[derive(Clone, Copy, Debug, PartialEq, Eq)]
pub enum EntryState {
    /// Nothing is known of the board yet.
    Unknown,
    /// The step given is being done.
    Probing(EntryStep),
    /// The bootloader answered.
    BootloaderActive,
    /// Every step was done and the bootloader did not answer.
    Unreachable,
}

/// What the caller is to do on the transport.
#[derive(Clone, Copy, Debug, PartialEq, Eq)]
pub enum EntryAction {
    /// Send a ping and wait up to a second for the answer.
    Ping,
    /// Set the baud rate.
    SetBaudRate(u32),
    /// Wait this many milliseconds.
    Wait(u64),
    /// Set the DTR line.
    SetDataTerminalReady(bool),
    /// Set the RTS line.
    SetRequestToSend(bool),
}

/// What the caller reports.
#[derive(Clone, Copy, Debug, PartialEq, Eq)]
pub enum EntryEvent {
    /// The entry is to begin.
    Started,
    /// The ping was sent, and this is whether the bootloader answered it.
    Probed(bool),
    /// The action, which was no ping, was done.
    Performed,
}

impl EntryStep {
    /// What is done in this step, on a transport whose baud rate is
    /// `baud_rate`.
    pub open spec fn action(self, baud_rate: u32) -> EntryAction {
        match self {
            EntryStep::FirstProbe => EntryAction::Ping,
            EntryStep::LowerBaudRate => EntryAction::SetBaudRate(TOUCH_BAUD_RATE),
            EntryStep::SettleLowered => EntryAction::Wait(1000),
            EntryStep::SecondProbe => EntryAction::Ping,
            EntryStep::RestoreBaudRate => EntryAction::SetBaudRate(baud_rate),
            EntryStep::SettleRestored => EntryAction::Wait(1000),
            EntryStep::AssertDtr => EntryAction::SetDataTerminalReady(true),
            EntryStep::AssertRts => EntryAction::SetRequestToSend(true),
            EntryStep::HoldReset => EntryAction::Wait(100),
            EntryStep::ReleaseDtr => EntryAction::SetDataTerminalReady(false),
            EntryStep::AwaitStart => EntryAction::Wait(500),
            EntryStep::ReleaseRts => EntryAction::SetRequestToSend(false),
            EntryStep::LastProbe => EntryAction::Ping,
        }
    }

    /// The step after this one; the last probe has none.
    pub open spec fn following(self) -> Option<EntryStep> {
        match self {
            EntryStep::FirstProbe => Some(EntryStep::LowerBaudRate),
            EntryStep::LowerBaudRate => Some(EntryStep::SettleLowered),
            EntryStep::SettleLowered => Some(EntryStep::SecondProbe),
            EntryStep::SecondProbe => Some(EntryStep::RestoreBaudRate),
            EntryStep::RestoreBaudRate => Some(EntryStep::SettleRestored),
            EntryStep::SettleRestored => Some(EntryStep::AssertDtr),
            EntryStep::AssertDtr => Some(EntryStep::AssertRts),
            EntryStep::AssertRts => Some(EntryStep::HoldReset),
            EntryStep::HoldReset => Some(EntryStep::ReleaseDtr),
            EntryStep::ReleaseDtr => Some(EntryStep::AwaitStart),
            EntryStep::AwaitStart => Some(EntryStep::ReleaseRts),
            EntryStep::ReleaseRts => Some(EntryStep::LastProbe),
            EntryStep::LastProbe => None,
        }
    }

    /// The action of this step.
    pub fn get_action(self, baud_rate: u32) -> (r: EntryAction)
        ensures
            r == self.action(baud_rate),
    {
        match self {
            EntryStep::FirstProbe => EntryAction::Ping,
            EntryStep::LowerBaudRate => EntryAction::SetBaudRate(TOUCH_BAUD_RATE),
            EntryStep::SettleLowered => EntryAction::Wait(1000),
            EntryStep::SecondProbe => EntryAction::Ping,
            EntryStep::RestoreBaudRate => EntryAction::SetBaudRate(baud_rate),
            EntryStep::SettleRestored => EntryAction::Wait(1000),
            EntryStep::AssertDtr => EntryAction::SetDataTerminalReady(true),
            EntryStep::AssertRts => EntryAction::SetRequestToSend(true),
            EntryStep::HoldReset => EntryAction::Wait(100),
            EntryStep::ReleaseDtr => EntryAction::SetDataTerminalReady(false),
            EntryStep::AwaitStart => EntryAction::Wait(500),
            EntryStep::ReleaseRts => EntryAction::SetRequestToSend(false),
            EntryStep::LastProbe => EntryAction::Ping,
        }
    }

    /// The step after this one.
    pub fn get_following(self) -> (r: Option<EntryStep>)
        ensures
            r == self.following(),
    {
        match self {
            EntryStep::FirstProbe => Some(EntryStep::LowerBaudRate),
            EntryStep::LowerBaudRate => Some(EntryStep::SettleLowered),
            EntryStep::SettleLowered => Some(EntryStep::SecondProbe),
            EntryStep::SecondProbe => Some(EntryStep::RestoreBaudRate),
            EntryStep::RestoreBaudRate => Some(EntryStep::SettleRestored),
            EntryStep::SettleRestored => Some(EntryStep::AssertDtr),
            EntryStep::AssertDtr => Some(EntryStep::AssertRts),
            EntryStep::AssertRts => Some(EntryStep::HoldReset),
            EntryStep::HoldReset => Some(EntryStep::ReleaseDtr),
            EntryStep::ReleaseDtr => Some(EntryStep::AwaitStart),
            EntryStep::AwaitStart => Some(EntryStep::ReleaseRts),
            EntryStep::ReleaseRts => Some(EntryStep::LastProbe),
            EntryStep::LastProbe => None,
        }
    }
}

/// The state after the step `step`, and the action that it asks for.
pub open spec fn proceed(step: EntryStep, baud_rate: u32) -> (EntryState, Option<EntryAction>) {
    match step.following() {
        Some(next) => (EntryState::Probing(next), Some(next.action(baud_rate))),
        None => (EntryState::Unreachable, None),
    }
}

/// The state that `event` leads to from `state`, and the action that the
/// caller is to do next, if any.
///
/// An answered probe ends the entry at once. An event that does not report
/// on the action that is under way changes nothing, and the action is asked
/// for again. Once the entry has ended nothing is asked for any more.
pub open spec fn entry_step(state: EntryState, event: EntryEvent, baud_rate: u32) -> (
    EntryState,
    Option<EntryAction>,
) {
    match state {
        EntryState::Unknown => match event {
            EntryEvent::Started => (
                EntryState::Probing(EntryStep::FirstProbe),
                Some(EntryStep::FirstProbe.action(baud_rate)),
            ),
            _ => (state, None),
        },
        EntryState::Probing(step) => match (step.action(baud_rate), event) {
            (EntryAction::Ping, EntryEvent::Probed(true)) => (EntryState::BootloaderActive, None),
            (EntryAction::Ping, EntryEvent::Probed(false)) => proceed(step, baud_rate),
            (EntryAction::Ping, _) => (state, Some(EntryAction::Ping)),
            (action, EntryEvent::Performed) => proceed(step, baud_rate),
            (action, _) => (state, Some(action)),
        },
        EntryState::BootloaderActive => (state, None),
        EntryState::Unreachable => (state, None),
    }
}

/// The state that the events lead to from `state`, one after the other, and
/// the actions asked for on the way.
pub open spec fn entry_run(state: EntryState, events: Seq<EntryEvent>, baud_rate: u32) -> (
    EntryState,
    Seq<EntryAction>,
)
    decreases events.len(),
{
    if events.len() == 0 {
        (state, Seq::empty())
    } else {
        let (next, action) = entry_step(state, events[0], baud_rate);
        let (last, actions) = entry_run(next, events.skip(1), baud_rate);
        match action {
            Some(action) => (last, seq![action] + actions),
            None => (last, actions),
        }
    }
}

/// Whether `action` changes how the transport is set up.
pub open spec fn configures(action: EntryAction) -> bool {
    action is SetBaudRate || action is SetDataTerminalReady || action is SetRequestToSend
}

/// Once the entry has ended, no event asks for an action or changes the
/// state.
pub proof fn lemma_ended_entry_stays(
    state: EntryState,
    events: Seq<EntryEvent>,
    baud_rate: u32,
)
    requires
        state == EntryState::BootloaderActive || state == EntryState::Unreachable,
    ensures
        entry_run(state, events, baud_rate) == (state, Seq::<EntryAction>::empty()),
    decreases events.len(),
{
    if events.len() > 0 {
        lemma_ended_entry_stays(state, events.skip(1), baud_rate);
    }
}

/// Where the first probe is answered, the entry ends with the bootloader
/// active and the only action ever asked for is that probe: the baud rate
/// and the control lines are left alone, whatever is reported afterwards.
pub proof fn lemma_answered_first_probe_changes_nothing(events: Seq<EntryEvent>, baud_rate: u32)
    requires
        events.len() >= 2,
        events[0] == EntryEvent::Started,
        events[1] == EntryEvent::Probed(true),
    ensures
        entry_run(EntryState::Unknown, events, baud_rate) == (
            EntryState::BootloaderActive,
            seq![EntryAction::Ping],
        ),
        forall|i: int|
            0 <= i < entry_run(EntryState::Unknown, events, baud_rate).1.len() ==> !configures(
                #[trigger] entry_run(EntryState::Unknown, events, baud_rate).1[i],
            ),
{
    let rest = events.skip(1);
    lemma_ended_entry_stays(EntryState::BootloaderActive, rest.skip(1), baud_rate);
    assert(entry_run(EntryState::Probing(EntryStep::FirstProbe), rest, baud_rate) == (
        EntryState::BootloaderActive,
        Seq::<EntryAction>::empty(),
    ));
    assert(seq![EntryAction::Ping] + Seq::<EntryAction>::empty() =~= seq![EntryAction::Ping]);
}

/// No action that sets up the transport is asked for before a probe has
/// gone unanswered.
pub proof fn lemma_configuring_follows_unanswered_probe(
    state: EntryState,
    events: Seq<EntryEvent>,
    baud_rate: u32,
)
    requires
        state == EntryState::Unknown || state == EntryState::Probing(EntryStep::FirstProbe),
        forall|i: int| 0 <= i < events.len() ==> events[i] != EntryEvent::Probed(false),
    ensures
        forall|i: int|
            0 <= i < entry_run(state, events, baud_rate).1.len() ==> !configures(
                #[trigger] entry_run(state, events, baud_rate).1[i],
            ),
    decreases events.len(),
{
    if events.len() > 0 {
        let (next, action) = entry_step(state, events[0], baud_rate);
        let rest = events.skip(1);
        assert(events[0] != EntryEvent::Probed(false));
        assert forall|i: int| 0 <= i < rest.len() implies rest[i] != EntryEvent::Probed(false) by {
            assert(rest[i] == events[i + 1]);
        }
        if next == EntryState::BootloaderActive {
            lemma_ended_entry_stays(next, rest, baud_rate);
        } else {
            lemma_configuring_follows_unanswered_probe(next, rest, baud_rate);
        }
        let later = entry_run(next, rest, baud_rate).1;
        let all = entry_run(state, events, baud_rate).1;
        assert(action is None || action == Some(EntryAction::Ping));
        assert forall|i: int| 0 <= i < all.len() implies !configures(#[trigger] all[i]) by {
            if action is Some {
                assert(all == seq![EntryAction::Ping] + later);
                if i > 0 {
                    assert(all[i] == later[i - 1]);
                }
            } else {
                assert(all == later);
            }
        }
    }
}

/// The entry into the bootloader of one board.
#[derive(Clone, Copy, Debug)]
pub struct EntryHandshake {
    state: EntryState,
    baud_rate: u32,
}

impl EntryHandshake {
    /// Where the entry stands.
    pub closed spec fn state(self) -> EntryState {
        self.state
    }

    /// The baud rate of the transport, to which it is set back.
    pub closed spec fn baud_rate(self) -> u32 {
        self.baud_rate
    }

    /// An entry that has not begun, for a transport at `baud_rate`.
    pub fn new(baud_rate: u32) -> (r: Self)
        ensures
            r.state() == EntryState::Unknown,
            r.baud_rate() == baud_rate,
    {
        EntryHandshake { state: EntryState::Unknown, baud_rate }
    }

    /// Where the entry stands.
    pub fn get_state(&self) -> (r: EntryState)
        ensures
            r == self.state(),
    {
        self.state
    }

    /// Takes what the caller reports and says what it is to do next. `None`
    /// says that nothing is to be done: the entry has ended, or has not
    /// begun.
    pub fn advance(&mut self, event: EntryEvent) -> (action: Option<EntryAction>)
        ensures
            (final(self).state(), action) == entry_step(
                old(self).state(),
                event,
                old(self).baud_rate(),
            ),
            final(self).baud_rate() == old(self).baud_rate(),
    {
        let (next, action) = step(self.state, event, self.baud_rate);
        self.state = next;
        action
    }
}

/// The state after the step `current`, and the action that it asks for.
fn proceed_from(current: EntryStep, baud_rate: u32) -> (r: (EntryState, Option<EntryAction>))
    ensures
        r == proceed(current, baud_rate),
{
    match current.get_following() {
        Some(next) => (EntryState::Probing(next), Some(next.get_action(baud_rate))),
        None => (EntryState::Unreachable, None),
    }
}

/// Decides what follows `event` in `state`: the next state, and the action
/// that the caller is to do on the transport, if any.
pub fn step(state: EntryState, event: EntryEvent, baud_rate: u32) -> (r: (
    EntryState,
    Option<EntryAction>,
))
    ensures
        r == entry_step(state, event, baud_rate),
{
    match state {
        EntryState::Unknown => match event {
            EntryEvent::Started => (
                EntryState::Probing(EntryStep::FirstProbe),
                Some(EntryStep::FirstProbe.get_action(baud_rate)),
            ),
            _ => (state, None),
        },
        EntryState::Probing(current) => match (current.get_action(baud_rate), event) {
            (EntryAction::Ping, EntryEvent::Probed(true)) => (EntryState::BootloaderActive, None),
            (EntryAction::Ping, EntryEvent::Probed(false)) => proceed_from(current, baud_rate),
            (EntryAction::Ping, _) => (state, Some(EntryAction::Ping)),
            (_, EntryEvent::Performed) => proceed_from(current, baud_rate),
            (action, _) => (state, Some(action)),
        },
        EntryState::BootloaderActive => (state, None),
        EntryState::Unreachable => (state, None),
    }
}

/// What the probe after a manual reset decides. A caller whose entry ended
/// unreachable may ask the user to bring the board into its bootloader by
/// hand and probe once more; a board that is silent even then is not in
/// bootloader mode.
pub fn confirm_manual_entry(alive: bool) -> (r: Result<(), TockloaderError>)
    ensures
        alive ==> r == Ok::<(), TockloaderError>(()),
        !alive ==> r == Err::<(), TockloaderError>(TockloaderError::BootloaderNotOpen),
{
    if alive {
        Ok(())
    } else {
        Err(TockloaderError::BootloaderNotOpen)
    }
}

} // verus!
