//! The submission engine: one upload per item, all in flight at once. The
//! engine is told of each upload as it settles, in whatever order that
//! happens, says what to report for it, and once every upload has settled
//! gives the verdict on the whole run.
//!
//! The engine performs no upload itself. Its caller starts them, feeds each
//! settlement in as an [`Event`] and acts on the [`Notification`]s it gets
//! back.

use vstd::prelude::*;
use crate::outcome::TestResponse;
use crate::upload::TransportError;

verus! {

/// Where a run stands.
#[derive(Debug, Clone, Copy, PartialEq, Eq, Structural)]
pub enum Phase {
    /// Uploads are still in flight.
    Running,
    /// Every upload gave a verdict and the run's verdict has been given.
    Finished,
    /// An upload failed; the run gives no verdict.
    Aborted,
}

/// The settlement of one upload: the item's position in submission order,
/// and the verdict it got or the error it ended with.
#[derive(Debug, Clone, Copy)]
pub struct Event {
    pub index: usize,
    pub outcome: Result<TestResponse, TransportError>,
}

/// What the engine tells its caller.
#[derive(Debug, Clone, Copy, PartialEq, Eq, Structural)]
pub enum Notification {
    /// One item's upload completed with this verdict.
    Completed { index: usize, success: bool },
    /// Every upload completed. `success` is the verdict on the run.
    Finished { success: bool },
    /// An item's upload failed, which ends the run.
    Aborted { index: usize, error: TransportError },
}

/// The state of a run: for each item, in submission order, the verdict it
/// has got so far, and the phase the run is in.
pub struct EngineState {
    pub slots: Seq<Option<bool>>,
    pub phase: Phase,
}

/// Every item has its verdict.
pub open spec fn all_settled(slots: Seq<Option<bool>>) -> bool {
    forall|i: int| 0 <= i < slots.len() ==> (#[trigger] slots[i]) is Some
}

/// Every item has its verdict, and each verdict is a pass.
pub open spec fn all_passed(slots: Seq<Option<bool>>) -> bool {
    forall|i: int| 0 <= i < slots.len() ==> #[trigger] slots[i] == Some(true)
}

/// The state a run of `count` items starts in. A run of no items is
/// finished from the start.
pub open spec fn initial(count: nat) -> EngineState {
    EngineState {
        slots: Seq::new(count, |i: int| None::<bool>),
        phase: if count == 0 {
            Phase::Finished
        } else {
            Phase::Running
        },
    }
}

/// What a run of `count` items reports before any upload settles: nothing,
/// unless there are no items, when it is the verdict on the empty run.
pub open spec fn opening(count: nat) -> Seq<Notification> {
    if count == 0 {
        seq![Notification::Finished { success: true }]
    } else {
        Seq::empty()
    }
}

/// Whether an event counts: the run is under way and the event settles an
/// item of the run that has not settled before. Any other event is stale
/// and changes nothing.
pub open spec fn accepts(state: EngineState, event: Event) -> bool {
    &&& state.phase == Phase::Running
    &&& event.index < state.slots.len()
    &&& state.slots[event.index as int] is None
}

/// The state after an event.
pub open spec fn step(state: EngineState, event: Event) -> EngineState {
    if !accepts(state, event) {
        state
    } else {
        match event.outcome {
            Ok(response) => {
                let slots = state.slots.update(event.index as int, Some(response.success));
                EngineState {
                    slots,
                    phase: if all_settled(slots) {
                        Phase::Finished
                    } else {
                        Phase::Running
                    },
                }
            },
            Err(_) => EngineState { slots: state.slots, phase: Phase::Aborted },
        }
    }
}

/// What is reported for an event: the item's completion, followed by the
/// run's verdict if the item was the last one out; or the failure that ends
/// the run; or nothing for a stale event.
pub open spec fn emitted(state: EngineState, event: Event) -> Seq<Notification> {
    if !accepts(state, event) {
        Seq::empty()
    } else {
        match event.outcome {
            Ok(response) => {
                let slots = state.slots.update(event.index as int, Some(response.success));
                let completed = Notification::Completed {
                    index: event.index,
                    success: response.success,
                };
                if all_settled(slots) {
                    seq![completed, Notification::Finished { success: all_passed(slots) }]
                } else {
                    seq![completed]
                }
            },
            Err(error) => seq![Notification::Aborted { index: event.index, error }],
        }
    }
}

/// The state after a sequence of events, taken in order.
pub open spec fn state_after(state: EngineState, events: Seq<Event>) -> EngineState
    decreases events.len(),
{
    if events.len() == 0 {
        state
    } else {
        state_after(step(state, events[0]), events.skip(1))
    }
}

/// Everything reported for a sequence of events, taken in order.
pub open spec fn run(state: EngineState, events: Seq<Event>) -> Seq<Notification>
    decreases events.len(),
{
    if events.len() == 0 {
        Seq::empty()
    } else {
        emitted(state, events[0]) + run(step(state, events[0]), events.skip(1))
    }
}

/// Everything a run of `count` items reports, from its start, when its
/// uploads settle as `events` tells.
pub open spec fn trace(count: nat, events: Seq<Event>) -> Seq<Notification> {
    opening(count) + run(initial(count), events)
}

/// Gathers the verdicts of a run and decides when, and how, it ends.
#[derive(Debug)]
pub struct SubmissionEngine {
    slots: Vec<Option<bool>>,
    phase: Phase,
}

impl View for SubmissionEngine {
    type V = EngineState;

    closed spec fn view(&self) -> EngineState {
        EngineState { slots: self.slots@, phase: self.phase }
    }
}

/// Whether every item in `slots` has its verdict.
fn every_settled(slots: &Vec<Option<bool>>) -> (settled: bool)
    ensures
        settled == all_settled(slots@),
{
    let mut i: usize = 0;
    while i < slots.len()
        invariant
            i <= slots.len(),
            forall|j: int| 0 <= j < i ==> (#[trigger] slots@[j]) is Some,
        decreases slots.len() - i,
    {
        if slots[i].is_none() {
            return false;
        }
        i += 1;
    }
    true
}

/// The verdict on a whole run: whether every item, taken in submission
/// order, passed.
fn every_passed(slots: &Vec<Option<bool>>) -> (passed: bool)
    ensures
        passed == all_passed(slots@),
{
    let mut i: usize = 0;
    while i < slots.len()
        invariant
            i <= slots.len(),
            forall|j: int| 0 <= j < i ==> #[trigger] slots@[j] == Some(true),
        decreases slots.len() - i,
    {
        match slots[i] {
            Some(true) => {},
            _ => {
                return false;
            },
        }
        i += 1;
    }
    true
}

impl SubmissionEngine {
    /// Starts a run of `count` items, every upload in flight. Returns the
    /// engine and what the run reports at once.
    pub fn start(count: usize) -> (started: (SubmissionEngine, Vec<Notification>))
        ensures
            started.0@ == initial(count as nat),
            started.1@ == opening(count as nat),
    {
        let mut slots: Vec<Option<bool>> = Vec::new();
        let mut i: usize = 0;
        while i < count
            invariant
                i <= count,
                slots@ == Seq::new(i as nat, |j: int| None::<bool>),
            decreases count - i,
        {
            slots.push(None);
            i += 1;
            assert(slots@ =~= Seq::new(i as nat, |j: int| None::<bool>));
        }
        let mut notes: Vec<Notification> = Vec::new();
        let phase = if count == 0 {
            notes.push(Notification::Finished { success: true });
            Phase::Finished
        } else {
            Phase::Running
        };
        assert(notes@ =~= opening(count as nat));
        (SubmissionEngine { slots, phase }, notes)
    }

    /// Takes in the settlement of one upload and returns what to report for
    /// it, in order.
    pub fn handle(&mut self, event: Event) -> (notes: Vec<Notification>)
        ensures
            final(self)@ == step(old(self)@, event),
            notes@ == emitted(old(self)@, event),
    {
        let mut notes: Vec<Notification> = Vec::new();
        if !self.is_open(event.index) {
            return notes;
        }
        match event.outcome {
            Ok(response) => {
                self.slots.set(event.index, Some(response.success));
                notes.push(Notification::Completed { index: event.index, success: response.success });
                if every_settled(&self.slots) {
                    self.phase = Phase::Finished;
                    notes.push(Notification::Finished { success: every_passed(&self.slots) });
                }
            },
            Err(error) => {
                self.phase = Phase::Aborted;
                notes.push(Notification::Aborted { index: event.index, error });
            },
        }
        assert(notes@ =~= emitted(old(self)@, event));
        notes
    }

    /// Whether the settlement of item `index` would count now.
    pub fn is_open(&self, index: usize) -> (open: bool)
        ensures
            open == (self@.phase == Phase::Running && index < self@.slots.len()
                && self@.slots[index as int] is None),
    {
        match self.phase {
            Phase::Running => index < self.slots.len() && self.slots[index].is_none(),
            _ => false,
        }
    }

    /// The phase the run is in.
    pub fn phase(&self) -> (phase: Phase)
        ensures
            phase == self@.phase,
    {
        self.phase
    }

    /// The number of items in the run.
    pub fn count(&self) -> (count: usize)
        ensures
            count == self@.slots.len(),
    {
        self.slots.len()
    }

    /// The verdict that item `index` has got, if it has one yet.
    pub fn verdict(&self, index: usize) -> (verdict: Option<bool>)
        ensures
            verdict == if index < self@.slots.len() {
                self@.slots[index as int]
            } else {
                None
            },
    {
        if index < self.slots.len() {
            self.slots[index]
        } else {
            None
        }
    }
}

} // verus!
