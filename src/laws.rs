//! Properties of every run of a cell, stated over its abstract state.
use vstd::prelude::*;

use crate::state::{fresh, other_than, without, Action, CellModel, Phase};

verus! {

/// One thing that happens to a cell.
pub enum Event<T> {
    /// A requester asks for the value.
    Request(u64),
    /// The driver reports one advance of the initializer.
    Step(u64, Option<T>),
    /// A requester stops waiting.
    Withdraw(u64),
}

/// Whether `e` may happen in state `m`: only the driver reports a step, and the
/// driver neither asks again nor withdraws while it advances the initializer.
pub open spec fn enabled<T>(m: CellModel<T>, e: Event<T>) -> bool {
    match e {
        Event::Request(id) => m.driver != Some(id),
        Event::Step(id, _) => m.driver == Some(id),
        Event::Withdraw(id) => m.driver != Some(id),
    }
}

/// The state after `e`.
pub open spec fn apply<T>(m: CellModel<T>, e: Event<T>) -> CellModel<T> {
    match e {
        Event::Request(id) => m.after_request(id).0,
        Event::Step(id, outcome) => m.after_step(id, outcome).0,
        Event::Withdraw(id) => m.after_withdraw(id).0,
    }
}

/// The state after the events of `es` in turn, where an event that may not happen
/// is passed over.
pub open spec fn run<T>(m: CellModel<T>, es: Seq<Event<T>>) -> CellModel<T>
    decreases es.len(),
{
    if es.len() == 0 {
        m
    } else {
        let next = if enabled(m, es[0]) { apply(m, es[0]) } else { m };
        run(next, es.drop_first())
    }
}

/// Every event that may happen keeps the invariant.
pub proof fn lemma_apply_well_formed<T>(m: CellModel<T>, e: Event<T>)
    requires
        m.well_formed(),
        enabled(m, e),
    ensures
        apply(m, e).well_formed(),
{
    broadcast use vstd::seq_lib::group_filter_ensures;
    match e {
        Event::Request(id) => {
            if m.value is None && m.driver is None {
                let rest = without(m.parked, id);
                if rest.contains(id) {
                    let i = rest.index_of(id);
                    m.parked.lemma_filter_pred(other_than(id), i);
                }
            } else if m.value is None && !m.parked.contains(id) {
                assert(m.parked.push(id)[m.parked.len() as int] == id);
                if let Some(l) = m.lead {
                    let i = m.parked.index_of(l);
                    assert(m.parked.push(id)[i] == l);
                }
            }
        },
        Event::Step(id, outcome) => {
            if outcome is None {
                assert(m.parked.push(id)[m.parked.len() as int] == id);
            }
        },
        Event::Withdraw(id) => {
            if let Some(d) = m.driver {
                if without(m.parked, id).contains(d) {
                    m.parked.lemma_filter_contains_rev(other_than(id), d);
                }
            }
            if let Some(l) = m.lead {
                if l != id {
                    let i = m.parked.index_of(l);
                    m.parked.lemma_filter_contains(other_than(id), i);
                }
            }
        },
    }
}

/// Every run from a well-formed state ends in a well-formed state.
pub proof fn lemma_run_well_formed<T>(m: CellModel<T>, es: Seq<Event<T>>)
    requires
        m.well_formed(),
    ensures
        run(m, es).well_formed(),
    decreases es.len(),
{
    if es.len() > 0 {
        if enabled(m, es[0]) {
            lemma_apply_well_formed(m, es[0]);
        }
        let next = if enabled(m, es[0]) { apply(m, es[0]) } else { m };
        lemma_run_well_formed(next, es.drop_first());
    }
}

/// Running `a` and then `b` is running `a + b`.
pub proof fn lemma_run_append<T>(m: CellModel<T>, a: Seq<Event<T>>, b: Seq<Event<T>>)
    ensures
        run(m, a + b) == run(run(m, a), b),
    decreases a.len(),
{
    if a.len() == 0 {
        assert(a + b =~= b);
    } else {
        let next = if enabled(m, a[0]) { apply(m, a[0]) } else { m };
        assert((a + b)[0] == a[0]);
        assert((a + b).drop_first() =~= a.drop_first() + b);
        lemma_run_append(next, a.drop_first(), b);
    }
}

/// The initializer runs to completion at most once: whatever happens to a fresh
/// cell, the count of completed runs is 0 or 1, and it is 1 exactly when the value
/// is published.
pub proof fn initializer_runs_at_most_once<T>(es: Seq<Event<T>>)
    ensures
        run(fresh::<T>(), es).well_formed(),
        run(fresh::<T>(), es).runs <= 1,
        run(fresh::<T>(), es).runs == 1 <==> run(fresh::<T>(), es).value is Some,
{
    lemma_run_well_formed(fresh::<T>(), es);
}

/// The first request on a fresh cell makes its requester the driver, so the
/// initializer is started as soon as the value is demanded, and not before.
pub proof fn first_request_starts_initializer<T>(id: u64)
    ensures
        fresh::<T>().phase() == Phase::Uninitialized,
        fresh::<T>().after_request(id).1 == Action::Drive,
        fresh::<T>().after_request(id).0.driver == Some(id),
{
}

/// Only one requester at a time holds the right to advance the initializer: a
/// request is told to drive only where nobody holds that right and the value is
/// not published.
pub proof fn drive_is_exclusive<T>(m: CellModel<T>, id: u64)
    requires
        m.after_request(id).1 == Action::Drive,
    ensures
        m.driver is None,
        m.value is None,
        m.after_request(id).0.driver == Some(id),
{
}

/// Once published, the value never changes, whatever happens afterwards.
pub proof fn value_is_permanent<T>(m: CellModel<T>, es: Seq<Event<T>>)
    requires
        m.well_formed(),
        m.value is Some,
    ensures
        run(m, es).value == m.value,
        run(m, es).runs == m.runs,
    decreases es.len(),
{
    if es.len() > 0 {
        let next = if enabled(m, es[0]) { apply(m, es[0]) } else { m };
        assert(next == m) by {
            if enabled(m, es[0]) {
                match es[0] {
                    Event::Request(id) => {},
                    Event::Step(id, outcome) => {},
                    Event::Withdraw(id) => {
                        assert(without(m.parked, id) =~= m.parked);
                    },
                }
            }
        }
        value_is_permanent(next, es.drop_first());
    }
}

/// All requesters see one value: where the value is published after the first
/// `i` events of a run, it is the same value after the first `j >= i` events.
pub proof fn value_is_consistent<T>(m: CellModel<T>, es: Seq<Event<T>>, i: int, j: int)
    requires
        m.well_formed(),
        0 <= i <= j <= es.len(),
        run(m, es.take(i)).value is Some,
    ensures
        run(m, es.take(j)).value == run(m, es.take(i)).value,
{
    let mid = run(m, es.take(i));
    let rest = es.subrange(i, j);
    assert(es.take(j) =~= es.take(i) + rest);
    lemma_run_append(m, es.take(i), rest);
    lemma_run_well_formed(m, es.take(i));
    value_is_permanent(mid, rest);
}

/// A request on a cell whose value is published resolves at once with that
/// value, without taking the driver ticket, parking, or changing the state.
pub proof fn ready_request_is_immediate<T>(m: CellModel<T>, id: u64)
    requires
        m.value is Some,
    ensures
        m.after_request(id) == (m, Action::Resolved),
{
}

/// A request resolves only where the value is published.
pub proof fn resolved_only_when_ready<T>(m: CellModel<T>, id: u64)
    requires
        m.after_request(id).1 == Action::Resolved,
    ensures
        m.value is Some,
{
}

/// When the initializer completes, every parked requester is woken, none stays
/// parked, and each of them then resolves with the value that was published.
pub proof fn completion_wakes_every_waiter<T>(m: CellModel<T>, id: u64, v: T)
    requires
        m.well_formed(),
        m.driver == Some(id),
    ensures
        m.after_step(id, Some(v)).1 == m.parked,
        m.after_step(id, Some(v)).0.parked.len() == 0,
        m.after_step(id, Some(v)).0.value == Some(v),
        m.after_step(id, Some(v)).0.well_formed(),
        forall|w: u64|
            m.after_step(id, Some(v)).0.after_request(w) == (
            m.after_step(id, Some(v)).0,
            Action::Resolved,
        ),
{
    lemma_apply_well_formed(m, Event::Step(id, Some(v)));
}

/// A driver whose advance must wait stays parked as the requester that the
/// initializer wakes, and gives the driver ticket back.
pub proof fn waiting_driver_becomes_lead<T>(m: CellModel<T>, id: u64)
    requires
        m.well_formed(),
        m.driver == Some(id),
    ensures
        m.after_step(id, None).0.lead == Some(id),
        m.after_step(id, None).0.driver is None,
        m.after_step(id, None).0.parked.contains(id),
        m.after_step(id, None).0.value is None,
{
    lemma_apply_well_formed(m, Event::Step(id, None));
}

/// Where the requester that the initializer would wake stops waiting, every other
/// parked requester is woken, so that one of them takes over driving and the
/// cell is not left stuck.
pub proof fn withdrawn_lead_wakes_the_rest<T>(m: CellModel<T>, id: u64)
    requires
        m.well_formed(),
        m.lead == Some(id),
    ensures
        m.after_withdraw(id).0.parked.len() == 0,
        !m.after_withdraw(id).1.contains(id),
        forall|w: u64| w != id && m.parked.contains(w) ==> m.after_withdraw(id).1.contains(w),
{
    broadcast use vstd::seq_lib::group_filter_ensures;
    assert forall|w: u64| w != id && m.parked.contains(w) implies m.after_withdraw(id).1.contains(w) by {
        let i = m.parked.index_of(w);
        m.parked.lemma_filter_contains(other_than(id), i);
    }
    if without(m.parked, id).contains(id) {
        let i = without(m.parked, id).index_of(id);
        m.parked.lemma_filter_pred(other_than(id), i);
    }
}

/// No requester is left parked with nobody to make progress: in every state that a
/// fresh cell reaches, while the value is not published and some requester is
/// parked, either a driver is advancing the initializer or the initializer holds a
/// parked requester to wake.
pub proof fn parked_requesters_are_never_orphaned<T>(es: Seq<Event<T>>)
    ensures
        ({
            let m = run(fresh::<T>(), es);
            m.value is None && m.parked.len() > 0 ==> (m.driver is Some || (m.lead is Some
                && m.parked.contains(m.lead->0)))
        }),
{
    lemma_run_well_formed(fresh::<T>(), es);
}

} // verus!
