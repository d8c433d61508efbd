//! What holds of every run of the engine, whatever the order in which its
//! uploads settle.

use vstd::prelude::*;
use crate::engine::{
    accepts, all_passed, all_settled, emitted, initial, opening, run, state_after, step, trace,
    EngineState, Event, Notification, Phase,
};
use crate::outcome::{glyph_of, TestResponse};
use crate::report::{exit_for, exit_status, shown_for};
use crate::upload::TransportError;

verus! {

/// The number of items that have no verdict yet.
pub open spec fn pending(slots: Seq<Option<bool>>) -> nat
    decreases slots.len(),
{
    if slots.len() == 0 {
        0
    } else {
        pending(slots.drop_last()) + if slots.last() is None {
            1nat
        } else {
            0nat
        }
    }
}

/// No verdict given so far is a failure.
pub open spec fn none_failed(slots: Seq<Option<bool>>) -> bool {
    forall|i: int| 0 <= i < slots.len() ==> (#[trigger] slots[i]) != Some(false)
}

/// A completion with a pass for its verdict.
pub open spec fn is_pass(note: Notification) -> bool {
    note matches Notification::Completed { success, .. } && success
}

/// The shape of what an engine with `out` items outstanding can still
/// report. Every completion is among the first `out` notifications. The
/// verdict can only be the notification after `out` completions, a failure
/// only comes earlier, and nothing follows either of them.
pub open spec fn well_shaped(notes: Seq<Notification>, out: nat) -> bool {
    forall|k: int|
        0 <= k < notes.len() ==> match #[trigger] notes[k] {
            Notification::Completed { .. } => k < out,
            Notification::Finished { .. } => k == out && k + 1 == notes.len(),
            Notification::Aborted { .. } => k < out && k + 1 == notes.len(),
        }
}

proof fn lemma_pending_settled(slots: Seq<Option<bool>>)
    ensures
        pending(slots) == 0 <==> all_settled(slots),
    decreases slots.len(),
{
    if slots.len() > 0 {
        let front = slots.drop_last();
        lemma_pending_settled(front);
        if all_settled(slots) {
            assert forall|i: int| 0 <= i < front.len() implies (#[trigger] front[i]) is Some by {
                assert(slots[i] is Some);
            }
            assert(slots[slots.len() - 1] is Some);
        }
        if pending(slots) == 0 {
            assert forall|i: int| 0 <= i < slots.len() implies (#[trigger] slots[i]) is Some by {
                if i < front.len() {
                    assert(front[i] is Some);
                }
            }
        }
    }
}

proof fn lemma_pending_settle_one(slots: Seq<Option<bool>>, index: int, success: bool)
    requires
        0 <= index < slots.len(),
        slots[index] is None,
    ensures
        pending(slots.update(index, Some(success))) + 1 == pending(slots),
    decreases slots.len(),
{
    let after = slots.update(index, Some(success));
    if index == slots.len() - 1 {
        assert(after.drop_last() =~= slots.drop_last());
    } else {
        lemma_pending_settle_one(slots.drop_last(), index, success);
        assert(after.drop_last() =~= slots.drop_last().update(index, Some(success)));
    }
}

proof fn lemma_pending_initial(count: nat)
    ensures
        pending(initial(count).slots) == count,
    decreases count,
{
    if count > 0 {
        lemma_pending_initial((count - 1) as nat);
        assert(initial(count).slots.drop_last() =~= initial((count - 1) as nat).slots);
    }
}

proof fn lemma_none_failed_settle_one(slots: Seq<Option<bool>>, index: int, success: bool)
    requires
        0 <= index < slots.len(),
        slots[index] is None,
    ensures
        none_failed(slots.update(index, Some(success))) <==> none_failed(slots) && success,
{
    let after = slots.update(index, Some(success));
    if none_failed(after) {
        assert(after[index] != Some(false));
        assert forall|i: int| 0 <= i < slots.len() implies (#[trigger] slots[i]) != Some(
            false,
        ) by {
            if i != index {
                assert(after[i] != Some(false));
            }
        }
    }
    if none_failed(slots) && success {
        assert forall|i: int| 0 <= i < after.len() implies (#[trigger] after[i]) != Some(
            false,
        ) by {
            if i != index {
                assert(slots[i] != Some(false));
            }
        }
    }
}

/// Once a run has ended, by its verdict or by a failure, it reports
/// nothing more.
pub proof fn lemma_ended_run_is_silent(state: EngineState, events: Seq<Event>)
    requires
        state.phase != Phase::Running,
    ensures
        run(state, events) == Seq::<Notification>::empty(),
    decreases events.len(),
{
    if events.len() > 0 {
        lemma_ended_run_is_silent(state, events.skip(1));
    }
}

proof fn lemma_run_shape(state: EngineState, events: Seq<Event>)
    requires
        state.phase == Phase::Running,
        !all_settled(state.slots),
    ensures
        well_shaped(run(state, events), pending(state.slots)),
    decreases events.len(),
{
    let out = pending(state.slots);
    if events.len() > 0 {
        let event = events[0];
        let next = step(state, event);
        let rest = run(next, events.skip(1));
        let notes = run(state, events);
        assert(notes == emitted(state, event) + rest);
        if !accepts(state, event) {
            lemma_run_shape(state, events.skip(1));
        } else {
            lemma_pending_settled(state.slots);
            match event.outcome {
                Ok(response) => {
                    lemma_pending_settle_one(state.slots, event.index as int, response.success);
                    lemma_pending_settled(next.slots);
                    if all_settled(next.slots) {
                        lemma_ended_run_is_silent(next, events.skip(1));
                    } else {
                        lemma_run_shape(next, events.skip(1));
                        assert forall|k: int| 0 <= k < notes.len() implies match #[trigger] notes[k] {
                            Notification::Completed { .. } => k < out,
                            Notification::Finished { .. } => k == out && k + 1 == notes.len(),
                            Notification::Aborted { .. } => k < out && k + 1 == notes.len(),
                        } by {
                            if k > 0 {
                                assert(notes[k] == rest[k - 1]);
                            }
                        }
                    }
                },
                Err(_) => {
                    lemma_ended_run_is_silent(next, events.skip(1));
                },
            }
        }
    }
}

proof fn lemma_run_verdict(state: EngineState, events: Seq<Event>, k: int)
    requires
        state.phase == Phase::Running,
        !all_settled(state.slots),
        0 <= k < run(state, events).len(),
        run(state, events)[k] is Finished,
    ensures
        run(state, events)[k]->Finished_success <==> none_failed(state.slots) && forall|j: int|
            0 <= j < k ==> is_pass(#[trigger] run(state, events)[j]),
    decreases events.len(),
{
    if events.len() > 0 {
        let event = events[0];
        let next = step(state, event);
        let rest = run(next, events.skip(1));
        let notes = run(state, events);
        assert(notes == emitted(state, event) + rest);
        if !accepts(state, event) {
            lemma_run_verdict(state, events.skip(1), k);
        } else {
            match event.outcome {
                Ok(response) => {
                    lemma_none_failed_settle_one(
                        state.slots,
                        event.index as int,
                        response.success,
                    );
                    assert(notes[0] == Notification::Completed {
                        index: event.index,
                        success: response.success,
                    });
                    if all_settled(next.slots) {
                        lemma_ended_run_is_silent(next, events.skip(1));
                        assert(k == 1);
                        lemma_settled_pass(next.slots);
                    } else {
                        assert(k > 0);
                        assert(notes[k] == rest[k - 1]);
                        lemma_run_verdict(next, events.skip(1), k - 1);
                        assert forall|j: int| 0 <= j < k - 1 implies (#[trigger] rest[j])
                            == notes[j + 1] by {}
                        if notes[k]->Finished_success {
                            assert forall|j: int| 0 <= j < k implies is_pass(#[trigger] notes[j]) by {
                                if j > 0 {
                                    assert(notes[j] == rest[j - 1]);
                                }
                            }
                        }
                        if none_failed(state.slots) && forall|j: int|
                            0 <= j < k ==> is_pass(#[trigger] notes[j]) {
                            assert(is_pass(notes[0]));
                            assert forall|j: int| 0 <= j < k - 1 implies is_pass(#[trigger] rest[j]) by {
                                assert(notes[j + 1] == rest[j]);
                            }
                        }
                    }
                },
                Err(_) => {
                    lemma_ended_run_is_silent(next, events.skip(1));
                },
            }
        }
    }
}

proof fn lemma_run_failure(state: EngineState, events: Seq<Event>, k: int)
    requires
        state.phase != Phase::Finished,
        0 <= k < events.len(),
        events[k].outcome is Err,
        events[k].index < state.slots.len(),
        state.slots[events[k].index as int] is None,
        forall|j: int| 0 <= j < k ==> (#[trigger] events[j]).index != events[k].index,
    ensures
        forall|m: int|
            0 <= m < run(state, events).len() ==> !((#[trigger] run(state, events)[m]) is Finished),
        state.phase == Phase::Running ==> run(state, events).len() > 0 && run(
            state,
            events,
        ).last() is Aborted,
    decreases events.len(),
{
    if state.phase != Phase::Running {
        lemma_ended_run_is_silent(state, events);
    } else {
        let event = events[0];
        let next = step(state, event);
        let rest = run(next, events.skip(1));
        let notes = run(state, events);
        assert(notes == emitted(state, event) + rest);
        if k == 0 {
            assert(accepts(state, event));
            lemma_ended_run_is_silent(next, events.skip(1));
        } else {
            let failing = events[k];
            assert(events.skip(1)[k - 1] == failing);
            assert forall|j: int| 0 <= j < k - 1 implies (#[trigger] events.skip(1)[j]).index
                != failing.index by {
                assert(events.skip(1)[j] == events[j + 1]);
            }
            assert(event.index != failing.index);
            if !accepts(state, event) {
                lemma_run_failure(state, events.skip(1), k - 1);
            } else {
                match event.outcome {
                    Ok(response) => {
                        assert(next.slots[failing.index as int] is None);
                        assert(!all_settled(next.slots));
                        lemma_run_failure(next, events.skip(1), k - 1);
                        assert forall|m: int| 0 <= m < notes.len() implies !((
                        #[trigger] notes[m]) is Finished) by {
                            if m > 0 {
                                assert(notes[m] == rest[m - 1]);
                            }
                        }
                        assert(notes.last() == rest.last());
                    },
                    Err(_) => {
                        lemma_ended_run_is_silent(next, events.skip(1));
                    },
                }
            }
        }
    }
}

/// The verdict on a run comes last, and after exactly one completion for
/// each item: wherever a run of `count` items reports its verdict, that is
/// its notification number `count`, counted from zero, nothing follows it,
/// and all `count` notifications before it are completions.
pub proof fn lemma_verdict_follows_every_completion(count: nat, events: Seq<Event>, k: int)
    requires
        0 <= k < trace(count, events).len(),
        trace(count, events)[k] is Finished,
    ensures
        k == count,
        trace(count, events).len() == count + 1,
        forall|j: int| 0 <= j < count ==> (#[trigger] trace(count, events)[j]) is Completed,
{
    let notes = trace(count, events);
    if count == 0 {
        lemma_ended_run_is_silent(initial(count), events);
        assert(notes =~= opening(count));
    } else {
        assert(notes =~= run(initial(count), events));
        assert(initial(count).slots[0] is None);
        lemma_pending_initial(count);
        lemma_run_shape(initial(count), events);
        assert forall|j: int| 0 <= j < count implies (#[trigger] notes[j]) is Completed by {
            if !(notes[j] is Completed) {
                assert(j + 1 == notes.len());
            }
        }
    }
}

/// A run never reports more completions than it has items, and a failure
/// is the last thing a run reports.
pub proof fn lemma_trace_is_well_shaped(count: nat, events: Seq<Event>)
    ensures
        well_shaped(trace(count, events), count),
{
    let notes = trace(count, events);
    if count == 0 {
        lemma_ended_run_is_silent(initial(count), events);
        assert(notes =~= opening(count));
    } else {
        assert(notes =~= run(initial(count), events));
        assert(initial(count).slots[0] is None);
        lemma_pending_initial(count);
        lemma_run_shape(initial(count), events);
    }
}

/// The verdict on a run is a pass exactly when every completion reported
/// before it was a pass. This holds of every sequence of events, so of
/// every order in which the uploads can settle.
pub proof fn lemma_verdict_is_conjunction(count: nat, events: Seq<Event>, k: int)
    requires
        0 <= k < trace(count, events).len(),
        trace(count, events)[k] is Finished,
    ensures
        trace(count, events)[k]->Finished_success <==> forall|j: int|
            0 <= j < k ==> is_pass(#[trigger] trace(count, events)[j]),
{
    let notes = trace(count, events);
    if count == 0 {
        lemma_ended_run_is_silent(initial(count), events);
        assert(notes =~= opening(count));
    } else {
        assert(notes =~= run(initial(count), events));
        assert(initial(count).slots[0] is None);
        lemma_run_verdict(initial(count), events, k);
    }
}

/// One failed upload ends the run, and the run then gives no verdict. If
/// some event is the first to settle one of the run's items and settles it
/// with an error, the run reports no verdict, before or after, and the
/// last thing it reports is a failure.
pub proof fn lemma_failure_gives_no_verdict(count: nat, events: Seq<Event>, k: int)
    requires
        0 <= k < events.len(),
        events[k].outcome is Err,
        events[k].index < count,
        forall|j: int| 0 <= j < k ==> (#[trigger] events[j]).index != events[k].index,
    ensures
        forall|m: int|
            0 <= m < trace(count, events).len() ==> !((#[trigger] trace(
                count,
                events,
            )[m]) is Finished),
        trace(count, events).len() > 0,
        trace(count, events).last() is Aborted,
{
    let notes = trace(count, events);
    assert(notes =~= run(initial(count), events));
    lemma_run_failure(initial(count), events, k);
}

/// No two of the events settle the same item.
pub open spec fn settle_once(events: Seq<Event>) -> bool {
    forall|a: int, b: int|
        0 <= a < b < events.len() ==> (#[trigger] events[a]).index != (#[trigger] events[b]).index
}

/// The event gives `item` a verdict.
pub open spec fn settles(event: Event, item: int) -> bool {
    event.index == item && event.outcome is Ok
}

/// The event gives its item a pass.
pub open spec fn passes(event: Event) -> bool {
    event.outcome == Ok::<TestResponse, TransportError>(TestResponse { success: true })
}

/// Some event gives `item` a verdict.
pub open spec fn answered(events: Seq<Event>, item: int) -> bool {
    exists|k: int| 0 <= k < events.len() && settles(#[trigger] events[k], item)
}

/// Every event for one of the first `count` items gives it a pass.
pub open spec fn all_pass(events: Seq<Event>, count: nat) -> bool {
    forall|k: int| 0 <= k < events.len() && (#[trigger] events[k]).index < count ==> passes(events[k])
}

/// Every item has its verdict already or gets one from some event.
pub open spec fn covered(slots: Seq<Option<bool>>, events: Seq<Event>) -> bool {
    forall|i: int| 0 <= i < slots.len() ==> (#[trigger] slots[i]) is Some || answered(events, i)
}

/// None of the events is for an item that has its verdict already.
pub open spec fn fresh(slots: Seq<Option<bool>>, events: Seq<Event>) -> bool {
    forall|k: int|
        0 <= k < events.len() && (#[trigger] events[k]).index < slots.len()
            ==> slots[events[k].index as int] is None
}

/// The verdict that a sequence of notifications ends with, if it ends with
/// one.
pub open spec fn verdict_of(notes: Seq<Notification>) -> Option<bool> {
    if notes.len() > 0 && notes.last() is Finished {
        Some(notes.last()->Finished_success)
    } else {
        None
    }
}

/// The verdict that a set of settlements leads to, whatever their order:
/// there is one where every item of the run gets a verdict, and it is a
/// pass where none of the run's items gets anything else.
pub open spec fn verdict_from(count: nat, events: Seq<Event>) -> Option<bool> {
    if forall|i: int| 0 <= i < count ==> #[trigger] answered(events, i) {
        Some(all_pass(events, count))
    } else {
        None
    }
}

proof fn lemma_first_event(events: Seq<Event>, count: nat)
    requires
        events.len() > 0,
        settle_once(events),
    ensures
        settle_once(events.skip(1)),
        forall|k: int|
            0 <= k < events.skip(1).len() ==> (#[trigger] events.skip(1)[k]).index
                != events[0].index,
        forall|i: int| #[trigger]
            answered(events, i) <==> settles(events[0], i) || answered(events.skip(1), i),
        all_pass(events, count) <==> (events[0].index < count ==> passes(events[0])) && all_pass(
            events.skip(1),
            count,
        ),
{
    let rest = events.skip(1);
    assert forall|a: int, b: int| 0 <= a < b < rest.len() implies (#[trigger] rest[a]).index != (
    #[trigger] rest[b]).index by {
        assert(rest[a] == events[a + 1] && rest[b] == events[b + 1]);
    }
    assert forall|k: int| 0 <= k < rest.len() implies (#[trigger] rest[k]).index
        != events[0].index by {
        assert(rest[k] == events[k + 1]);
    }
    assert forall|i: int| #[trigger]
        answered(events, i) <==> settles(events[0], i) || answered(rest, i) by {
        if answered(events, i) {
            let k = choose|k: int| 0 <= k < events.len() && settles(#[trigger] events[k], i);
            if k > 0 {
                assert(settles(rest[k - 1], i));
            }
        }
        if answered(rest, i) {
            let k = choose|k: int| 0 <= k < rest.len() && settles(#[trigger] rest[k], i);
            assert(settles(events[k + 1], i));
        }
        if settles(events[0], i) {
            assert(answered(events, i));
        }
    }
    if all_pass(events, count) {
        assert forall|k: int| 0 <= k < rest.len() && (#[trigger] rest[k]).index
            < count implies passes(rest[k]) by {
            assert(rest[k] == events[k + 1]);
        }
    }
    if (events[0].index < count ==> passes(events[0])) && all_pass(rest, count) {
        assert forall|k: int| 0 <= k < events.len() && (#[trigger] events[k]).index
            < count implies passes(events[k]) by {
            if k > 0 {
                assert(rest[k - 1] == events[k]);
            }
        }
    }
}

proof fn lemma_settled_pass(slots: Seq<Option<bool>>)
    requires
        all_settled(slots),
    ensures
        all_passed(slots) <==> none_failed(slots),
{
    if none_failed(slots) {
        assert forall|i: int| 0 <= i < slots.len() implies (#[trigger] slots[i]) == Some(true) by {
            assert(slots[i] is Some);
            assert(slots[i] != Some(false));
        }
    }
    if all_passed(slots) {
        assert forall|i: int| 0 <= i < slots.len() implies (#[trigger] slots[i]) != Some(
            false,
        ) by {
            assert(slots[i] == Some(true));
        }
    }
}

proof fn lemma_run_verdict_from(state: EngineState, events: Seq<Event>)
    requires
        state.phase == Phase::Running,
        !all_settled(state.slots),
        settle_once(events),
        fresh(state.slots, events),
    ensures
        verdict_of(run(state, events)) == if covered(state.slots, events) {
            Some(none_failed(state.slots) && all_pass(events, state.slots.len()))
        } else {
            None
        },
    decreases events.len(),
{
    let slots = state.slots;
    let count = slots.len();
    if events.len() == 0 {
        let out = choose|i: int| 0 <= i < slots.len() && !((#[trigger] slots[i]) is Some);
        assert(!answered(events, out));
    } else {
        let event = events[0];
        let rest = events.skip(1);
        let next = step(state, event);
        let notes = run(state, events);
        let later = run(next, rest);
        assert(notes == emitted(state, event) + later);
        lemma_first_event(events, count);
        if event.index >= count {
            assert forall|k: int| 0 <= k < rest.len() && (#[trigger] rest[k]).index
                < count implies slots[rest[k].index as int] is None by {
                assert(rest[k] == events[k + 1]);
            }
            lemma_run_verdict_from(state, rest);
            assert(notes =~= later);
            assert(covered(slots, events) <==> covered(slots, rest)) by {
                if covered(slots, events) {
                    assert forall|i: int| 0 <= i < slots.len() implies (#[trigger] slots[i]) is Some
                        || answered(rest, i) by {
                        assert(answered(events, i) <==> settles(event, i) || answered(rest, i));
                    }
                }
                if covered(slots, rest) {
                    assert forall|i: int| 0 <= i < slots.len() implies (#[trigger] slots[i]) is Some
                        || answered(events, i) by {
                        assert(answered(events, i) <==> settles(event, i) || answered(rest, i));
                    }
                }
            }
        } else {
            let item = event.index as int;
            assert(slots[item] is None);
            assert(accepts(state, event));
            match event.outcome {
                Err(_) => {
                    lemma_ended_run_is_silent(next, rest);
                    assert(notes =~= emitted(state, event));
                    assert(!answered(events, item)) by {
                        assert(answered(events, item) <==> settles(event, item) || answered(
                            rest,
                            item,
                        ));
                        if answered(rest, item) {
                            let k = choose|k: int|
                                0 <= k < rest.len() && settles(#[trigger] rest[k], item);
                            assert(rest[k].index != event.index);
                        }
                    }
                    assert(!covered(slots, events));
                },
                Ok(response) => {
                    lemma_none_failed_settle_one(slots, item, response.success);
                    assert(passes(event) <==> response.success);
                    assert forall|k: int| 0 <= k < rest.len() && (#[trigger] rest[k]).index
                        < count implies next.slots[rest[k].index as int] is None by {
                        assert(rest[k] == events[k + 1]);
                        assert(rest[k].index != event.index);
                    }
                    assert(covered(slots, events) <==> covered(next.slots, rest)) by {
                        if covered(slots, events) {
                            assert forall|i: int| 0 <= i < next.slots.len() implies (
                            #[trigger] next.slots[i]) is Some || answered(rest, i) by {
                                assert(slots[i] is Some || answered(events, i));
                                assert(answered(events, i) <==> settles(event, i) || answered(
                                    rest,
                                    i,
                                ));
                            }
                        }
                        if covered(next.slots, rest) {
                            assert forall|i: int| 0 <= i < slots.len() implies (
                            #[trigger] slots[i]) is Some || answered(events, i) by {
                                assert(next.slots[i] is Some || answered(rest, i));
                                assert(answered(events, i) <==> settles(event, i) || answered(
                                    rest,
                                    i,
                                ));
                            }
                        }
                    }
                    if all_settled(next.slots) {
                        lemma_ended_run_is_silent(next, rest);
                        assert(notes =~= emitted(state, event));
                        assert(notes.last() == Notification::Finished {
                            success: all_passed(next.slots),
                        });
                        lemma_settled_pass(next.slots);
                        assert(covered(next.slots, rest)) by {
                            assert forall|i: int| 0 <= i < next.slots.len() implies (
                            #[trigger] next.slots[i]) is Some || answered(rest, i) by {}
                        }
                        assert(all_pass(rest, count)) by {
                            assert forall|k: int| 0 <= k < rest.len() && (#[trigger] rest[k]).index
                                < count implies passes(rest[k]) by {
                                assert(next.slots[rest[k].index as int] is None);
                                assert(next.slots[rest[k].index as int] is Some);
                            }
                        }
                    } else {
                        lemma_run_verdict_from(next, rest);
                        assert(emitted(state, event).len() == 1);
                        assert(notes.len() == later.len() + 1);
                        if later.len() > 0 {
                            assert(notes.last() == later.last());
                        } else {
                            assert(notes.last() is Completed);
                        }
                        assert(verdict_of(notes) == verdict_of(later));
                    }
                },
            }
        }
    }
}

/// The verdict of a run in which no item settles twice is decided by the
/// settlements alone: the run gives one exactly when every item got a
/// verdict, and it is a pass exactly when each of those is a pass.
pub proof fn lemma_verdict_from_settlements(count: nat, events: Seq<Event>)
    requires
        settle_once(events),
    ensures
        verdict_of(trace(count, events)) == verdict_from(count, events),
{
    let notes = trace(count, events);
    let start = initial(count);
    if count == 0 {
        lemma_ended_run_is_silent(start, events);
        assert(notes =~= opening(count));
    } else {
        assert(notes =~= run(start, events));
        assert(start.slots[0] is None);
        lemma_run_verdict_from(start, events);
        assert(none_failed(start.slots));
        assert(covered(start.slots, events) <==> forall|i: int|
            0 <= i < count ==> #[trigger] answered(events, i)) by {
            if covered(start.slots, events) {
                assert forall|i: int| 0 <= i < count implies #[trigger] answered(events, i) by {
                    assert(start.slots[i] is Some || answered(events, i));
                }
            }
        }
    }
}

/// The order in which the uploads settle does not change how a run ends.
/// Two runs over the same items in which the same settlements arrive, each
/// item settling at most once, end with the same verdict or both with
/// none.
pub proof fn lemma_verdict_ignores_arrival_order(
    count: nat,
    events: Seq<Event>,
    reordered: Seq<Event>,
)
    requires
        settle_once(events),
        settle_once(reordered),
        forall|event: Event| events.contains(event) <==> reordered.contains(event),
    ensures
        verdict_of(trace(count, events)) == verdict_of(trace(count, reordered)),
{
    lemma_verdict_from_settlements(count, events);
    lemma_verdict_from_settlements(count, reordered);
    lemma_same_settlements(count, events, reordered);
    lemma_same_settlements(count, reordered, events);
}

proof fn lemma_same_settlements(count: nat, events: Seq<Event>, others: Seq<Event>)
    requires
        forall|event: Event| events.contains(event) ==> others.contains(event),
    ensures
        forall|i: int| answered(events, i) ==> #[trigger] answered(others, i),
        all_pass(others, count) ==> all_pass(events, count),
{
    assert forall|i: int| answered(events, i) implies #[trigger] answered(others, i) by {
        let k = choose|k: int| 0 <= k < events.len() && settles(#[trigger] events[k], i);
        assert(events.contains(events[k]));
        let m = choose|m: int| 0 <= m < others.len() && others[m] == events[k];
        assert(settles(others[m], i));
    }
    if all_pass(others, count) {
        assert forall|k: int| 0 <= k < events.len() && (#[trigger] events[k]).index
            < count implies passes(events[k]) by {
            assert(events.contains(events[k]));
            let m = choose|m: int| 0 <= m < others.len() && others[m] == events[k];
            assert(passes(others[m]));
        }
    }
}

/// How the phase of a run goes with its items: a running run has an item
/// out, and a finished run has none.
pub open spec fn phase_fits(state: EngineState) -> bool {
    &&& state.phase == Phase::Running ==> !all_settled(state.slots)
    &&& state.phase == Phase::Finished ==> all_settled(state.slots)
}

proof fn lemma_step_keeps_fit(state: EngineState, events: Seq<Event>)
    requires
        phase_fits(state),
    ensures
        phase_fits(state_after(state, events)),
        state_after(state, events).slots.len() == state.slots.len(),
    decreases events.len(),
{
    if events.len() > 0 {
        lemma_step_keeps_fit(step(state, events[0]), events.skip(1));
    }
}

/// In every state a run reaches, the phase goes with the items: while the
/// run is running some item is out, once it is finished none is. The run
/// never gains or loses an item.
pub proof fn lemma_phase_fits_every_state(count: nat, events: Seq<Event>)
    ensures
        phase_fits(state_after(initial(count), events)),
        state_after(initial(count), events).slots.len() == count,
{
    if count > 0 {
        assert(initial(count).slots[0] is None);
    }
    lemma_step_keeps_fit(initial(count), events);
}

/// Everything shown for a sequence of notifications, in order.
pub open spec fn transcript(notes: Seq<Notification>) -> Seq<char>
    decreases notes.len(),
{
    if notes.len() == 0 {
        Seq::empty()
    } else {
        transcript(notes.drop_last()) + shown_for(notes.last())
    }
}

proof fn lemma_marks(notes: Seq<Notification>)
    requires
        forall|j: int| 0 <= j < notes.len() ==> (#[trigger] notes[j]) is Completed,
    ensures
        transcript(notes).len() == notes.len(),
        forall|j: int|
            0 <= j < notes.len() ==> #[trigger] transcript(notes)[j] == glyph_of(
                notes[j]->Completed_success,
            ),
    decreases notes.len(),
{
    if notes.len() > 0 {
        let front = notes.drop_last();
        assert forall|j: int| 0 <= j < front.len() implies (#[trigger] front[j]) is Completed by {
            assert(front[j] == notes[j]);
        }
        lemma_marks(front);
        assert(notes.last() == notes[notes.len() - 1]);
        assert forall|j: int| 0 <= j < notes.len() implies #[trigger] transcript(notes)[j]
            == glyph_of(notes[j]->Completed_success) by {
            if j < front.len() {
                assert(transcript(notes)[j] == transcript(front)[j]);
                assert(front[j] == notes[j]);
            }
        }
    }
}

/// What a run that reaches its verdict shows, and how it exits: one mark
/// for each item, in the order the uploads completed, then a line break;
/// and it exits with status 0 exactly when every mark is a check mark.
pub proof fn lemma_finished_run_is_shown(count: nat, events: Seq<Event>, k: int)
    requires
        0 <= k < trace(count, events).len(),
        trace(count, events)[k] is Finished,
    ensures
        transcript(trace(count, events)).len() == count + 1,
        forall|j: int|
            0 <= j < count ==> #[trigger] transcript(trace(count, events))[j] == glyph_of(
                trace(count, events)[j]->Completed_success,
            ),
        transcript(trace(count, events))[count as int] == '\n',
        exit_for(trace(count, events).last()) == Some(
            exit_status(
                forall|j: int| 0 <= j < count ==> #[trigger] transcript(trace(count, events))[j]
                    == '✓',
            ),
        ),
{
    let notes = trace(count, events);
    let shown = transcript(notes);
    lemma_verdict_follows_every_completion(count, events, k);
    lemma_verdict_is_conjunction(count, events, k);
    let marks = notes.drop_last();
    assert forall|j: int| 0 <= j < marks.len() implies (#[trigger] marks[j]) is Completed by {
        assert(marks[j] == notes[j]);
    }
    lemma_marks(marks);
    assert(notes.last() == notes[k]);
    assert(shown == transcript(marks) + shown_for(notes[k]));
    assert forall|j: int| 0 <= j < count implies #[trigger] shown[j] == glyph_of(
        notes[j]->Completed_success,
    ) by {
        assert(shown[j] == transcript(marks)[j]);
        assert(marks[j] == notes[j]);
    }
    let all_marks_pass = forall|j: int| 0 <= j < count ==> #[trigger] shown[j] == '✓';
    let success = notes[k]->Finished_success;
    if success {
        assert forall|j: int| 0 <= j < count implies #[trigger] shown[j] == '✓' by {
            assert(is_pass(notes[j]));
        }
    }
    if all_marks_pass {
        assert forall|j: int| 0 <= j < k implies is_pass(#[trigger] notes[j]) by {
            assert(shown[j] == '✓');
            assert(notes[j] is Completed);
        }
    }
    assert(success == all_marks_pass);
}

} // verus!
