//! Many connections at once. Each is driven by a task of its own, and the
//! tasks report their events in whatever order they happen to run. What is
//! shown here is that the order does not matter: a connection fares as if
//! it were the only one.

use crate::connection::{
    lemma_closes_within_three_events, transition, EventView, Phase, StepView,
};
use vstd::prelude::*;

verus! {

/// An event, and the number of the connection it is reported for.
pub struct Report {
    pub connection: nat,
    pub event: EventView,
}

/// The phase of a connection that was reported `events`, in this order,
/// since it was accepted.
pub open spec fn phase_after(table: Seq<Seq<char>>, events: Seq<EventView>) -> Phase
    decreases events.len(),
{
    if events.len() == 0 {
        Phase::Reading
    } else {
        transition(phase_after(table, events.drop_last()), table, events.last()).next
    }
}

/// The phases of all connections after `reports`, which may mix the events
/// of any number of connections in any order.
pub open spec fn phases_after(table: Seq<Seq<char>>, reports: Seq<Report>) -> Map<nat, Phase>
    decreases reports.len(),
{
    if reports.len() == 0 {
        Map::total(|connection: nat| Phase::Reading)
    } else {
        let before = phases_after(table, reports.drop_last());
        let last = reports.last();
        before.insert(last.connection, transition(before[last.connection], table, last.event).next)
    }
}

/// The decision that the last of `reports` is met with.
pub open spec fn last_decision(table: Seq<Seq<char>>, reports: Seq<Report>) -> StepView {
    let last = reports.last();
    transition(phases_after(table, reports.drop_last())[last.connection], table, last.event)
}

/// The events among `reports` that are for `connection`, in order.
pub open spec fn events_of(reports: Seq<Report>, connection: nat) -> Seq<EventView>
    decreases reports.len(),
{
    if reports.len() == 0 {
        Seq::empty()
    } else if reports.last().connection == connection {
        events_of(reports.drop_last(), connection).push(reports.last().event)
    } else {
        events_of(reports.drop_last(), connection)
    }
}

/// The phase of a connection depends on its own events only, not on what
/// other connections do in between.
pub proof fn lemma_phase_depends_on_own_events(
    table: Seq<Seq<char>>,
    reports: Seq<Report>,
    connection: nat,
)
    ensures
        phases_after(table, reports).dom().contains(connection),
        phases_after(table, reports)[connection] == phase_after(
            table,
            events_of(reports, connection),
        ),
    decreases reports.len(),
{
    if reports.len() > 0 {
        lemma_phase_depends_on_own_events(table, reports.drop_last(), connection);
        lemma_phase_depends_on_own_events(table, reports.drop_last(), reports.last().connection);
        if reports.last().connection == connection {
            let own = events_of(reports, connection);
            assert(own.drop_last() =~= events_of(reports.drop_last(), connection));
        }
    }
}

/// No cross-talk: what a connection is told to do, the bytes it is to
/// write among it, is decided by its own events alone.
pub proof fn lemma_decision_depends_on_own_events(table: Seq<Seq<char>>, reports: Seq<Report>)
    requires
        reports.len() > 0,
    ensures
        ({
            let own = events_of(reports, reports.last().connection);
            last_decision(table, reports) == transition(
                phase_after(table, own.drop_last()),
                table,
                own.last(),
            )
        }),
{
    let connection = reports.last().connection;
    lemma_phase_depends_on_own_events(table, reports.drop_last(), connection);
    let own = events_of(reports, connection);
    assert(own.drop_last() =~= events_of(reports.drop_last(), connection));
}

/// A connection is closed once three events were reported for it, and
/// stays so.
pub proof fn lemma_closed_after_three_events(table: Seq<Seq<char>>, events: Seq<EventView>)
    requires
        events.len() >= 3,
    ensures
        phase_after(table, events) == Phase::Closed,
    decreases events.len(),
{
    if events.len() == 3 {
        let two = events.drop_last();
        let one = two.drop_last();
        assert(phase_after(table, one.drop_last()) == Phase::Reading);
        assert(phase_after(table, one) == transition(Phase::Reading, table, one.last()).next);
        assert(phase_after(table, two) == transition(
            phase_after(table, one),
            table,
            two.last(),
        ).next);
        lemma_closes_within_three_events(table, one.last(), two.last(), events.last());
    } else {
        lemma_closed_after_three_events(table, events.drop_last());
    }
}

/// Every connection reaches `Closed`, whatever happens on the others: a
/// handler that fails elsewhere, or a peer that never finishes, holds
/// nobody up.
pub proof fn lemma_every_connection_closes(
    table: Seq<Seq<char>>,
    reports: Seq<Report>,
    connection: nat,
)
    requires
        events_of(reports, connection).len() >= 3,
    ensures
        phases_after(table, reports)[connection] == Phase::Closed,
{
    lemma_phase_depends_on_own_events(table, reports, connection);
    lemma_closed_after_three_events(table, events_of(reports, connection));
}

} // verus!
