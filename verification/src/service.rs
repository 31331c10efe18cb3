//! The service as a whole: one listener and the sessions it has dispatched.
//!
//! A driver holds the listener that [`WebSocketHandlerWorker::start`] gave it
//! and, for every connection that the listener has it dispatch, a session
//! from [`WebSocketHandlerWorker::open_session`]. Each of them advances when
//! its own action has turned out, in whatever order that happens. This module
//! states what holds of all of them together.
//!
//! [`WebSocketHandlerWorker::start`]: crate::websocket::WebSocketHandlerWorker::start
//! [`WebSocketHandlerWorker::open_session`]: crate::websocket::WebSocketHandlerWorker::open_session

use crate::listener::{ListenerModel, ListenerOutcome, ListenerState};
use crate::session::{
    lemma_next_keeps_session, lemma_phase_after_handshake, phase_after, phase_at_record, Outcome,
    SessionModel, SessionRequest,
};
use crate::websocket::Configuration;
use vstd::prelude::*;

verus! {

/// Something that happened to one part of the service.
pub enum ServiceEvent {
    /// The listener's action turned out so.
    Listener(ListenerOutcome),
    /// The action of the session at this place turned out so.
    Session(nat, Outcome),
}

/// A service as a mathematical value: what it is configured with, its
/// listener, and its sessions in the order in which they were dispatched.
pub struct ServiceModel {
    pub configuration: Configuration,
    pub listener: ListenerModel,
    pub sessions: Seq<SessionModel>,
}

impl ServiceModel {
    /// A service that has not bound its socket yet and has no sessions.
    pub open spec fn initial(configuration: Configuration) -> ServiceModel {
        ServiceModel {
            configuration,
            listener: ListenerModel::initial(configuration.address),
            sessions: Seq::empty(),
        }
    }

    /// The session that a newly accepted connection gets.
    pub open spec fn fresh_session(self) -> SessionModel {
        SessionModel::initial(self.configuration.records, self.configuration.interval)
    }

    /// Every session streams the configured records with the configured
    /// pause, and stands within them.
    pub open spec fn wf(self) -> bool {
        forall|i: int|
            0 <= i < self.sessions.len() ==> {
                &&& (#[trigger] self.sessions[i]).records == self.configuration.records
                &&& self.sessions[i].interval == self.configuration.interval
                &&& self.sessions[i].wf()
            }
    }

    /// The service after one event.
    ///
    /// An event of the listener moves the listener, and where it answers a
    /// dispatch, a session that has not begun joins the others. An event of a
    /// session moves that session and nothing else; one for a session that
    /// does not exist changes nothing.
    pub open spec fn next(self, event: ServiceEvent) -> ServiceModel {
        match event {
            ServiceEvent::Listener(outcome) => ServiceModel {
                listener: self.listener.next(outcome),
                sessions: if self.listener.state == ListenerState::Dispatching {
                    self.sessions.push(self.fresh_session())
                } else {
                    self.sessions
                },
                ..self
            },
            ServiceEvent::Session(index, outcome) => if index < self.sessions.len() {
                ServiceModel {
                    sessions: self.sessions.update(
                        index as int,
                        self.sessions[index as int].next(outcome),
                    ),
                    ..self
                }
            } else {
                self
            },
        }
    }

    /// The service after a run of events, in the order in which they came.
    pub open spec fn run(self, events: Seq<ServiceEvent>) -> ServiceModel
        decreases events.len(),
    {
        if events.len() == 0 {
            self
        } else {
            self.run(events.drop_last()).next(events.last())
        }
    }
}

/// The outcomes that a run of events holds for the session at `index`, in
/// their order.
pub open spec fn outcomes_of_session(events: Seq<ServiceEvent>, index: nat) -> Seq<Outcome>
    decreases events.len(),
{
    if events.len() == 0 {
        Seq::empty()
    } else {
        let earlier = outcomes_of_session(events.drop_last(), index);
        match events.last() {
            ServiceEvent::Session(at, outcome) => if at == index {
                earlier.push(outcome)
            } else {
                earlier
            },
            ServiceEvent::Listener(_) => earlier,
        }
    }
}

/// The outcomes that a run of events holds for the listener, in their order.
pub open spec fn outcomes_of_listener(events: Seq<ServiceEvent>) -> Seq<ListenerOutcome>
    decreases events.len(),
{
    if events.len() == 0 {
        Seq::empty()
    } else {
        let earlier = outcomes_of_listener(events.drop_last());
        match events.last() {
            ServiceEvent::Listener(outcome) => earlier.push(outcome),
            ServiceEvent::Session(_, _) => earlier,
        }
    }
}

/// Whatever happens, every session goes on streaming the configured records
/// with the configured pause: all sessions see the same records in the same
/// order. No session is ever removed or replaced by another.
pub proof fn lemma_sessions_share_the_records(service: ServiceModel, events: Seq<ServiceEvent>)
    requires
        service.wf(),
    ensures
        service.run(events).wf(),
        service.run(events).configuration == service.configuration,
        service.run(events).sessions.len() >= service.sessions.len(),
    decreases events.len(),
{
    if events.len() > 0 {
        let before = service.run(events.drop_last());
        lemma_sessions_share_the_records(service, events.drop_last());
        match events.last() {
            ServiceEvent::Session(index, outcome) => {
                if index < before.sessions.len() {
                    lemma_next_keeps_session(before.sessions[index as int], outcome);
                }
            },
            ServiceEvent::Listener(_) => {},
        }
    }
}

/// A connection that is accepted after others starts afresh: the session it
/// gets has not begun, asks for the handshake, and after it for the first
/// record, wherever the sessions before it stand and whether or not they
/// have ended; and they stay where they are.
pub proof fn lemma_new_connection_starts_afresh(service: ServiceModel, outcome: ListenerOutcome)
    requires
        service.listener.state == ListenerState::Dispatching,
    ensures
        ({
            let after = service.next(ServiceEvent::Listener(outcome));
            let records = service.configuration.records;
            let begun = after.sessions.last().next(Outcome::Succeeded);
            &&& after.sessions == service.sessions.push(service.fresh_session())
            &&& after.sessions.last().pending() == SessionRequest::Handshake
            &&& begun.phase == phase_at_record(0, records.len())
            &&& records.len() > 0 ==> begun.pending() == SessionRequest::SendText(records[0])
            &&& records.len() == 0 ==> begun.pending() == SessionRequest::SendClose
        }),
{
}

/// Sessions do not interfere: where a session stands after any run of events
/// is where it would stand had it met its own outcomes alone. What happens to
/// other sessions or to the listener, and whether there are other sessions
/// at all, changes nothing for it.
pub proof fn lemma_sessions_do_not_interfere(
    service: ServiceModel,
    events: Seq<ServiceEvent>,
    index: nat,
)
    requires
        index < service.sessions.len(),
    ensures
        index < service.run(events).sessions.len(),
        service.run(events).sessions[index as int] == service.sessions[index as int].run(
            outcomes_of_session(events, index),
        ),
    decreases events.len(),
{
    if events.len() > 0 {
        lemma_sessions_do_not_interfere(service, events.drop_last(), index);
        let earlier = outcomes_of_session(events.drop_last(), index);
        match events.last() {
            ServiceEvent::Session(at, outcome) => {
                if at == index {
                    assert(earlier.push(outcome).drop_last() == earlier);
                }
            },
            ServiceEvent::Listener(_) => {},
        }
    }
}

/// No session holds the listener up: where the listener stands after any run
/// of events is where it would stand had there been no session at all.
pub proof fn lemma_listener_is_not_held_up(service: ServiceModel, events: Seq<ServiceEvent>)
    ensures
        service.run(events).listener == service.listener.run(outcomes_of_listener(events)),
    decreases events.len(),
{
    if events.len() > 0 {
        lemma_listener_is_not_held_up(service, events.drop_last());
        let earlier = outcomes_of_listener(events.drop_last());
        match events.last() {
            ServiceEvent::Listener(outcome) => {
                assert(earlier.push(outcome).drop_last() == earlier);
            },
            ServiceEvent::Session(_, _) => {},
        }
    }
}

/// Every client whose handshake succeeds is served the same script, however
/// many clients there are and however their sessions interleave: a session
/// that had not begun stands, after any run of events, where the number of
/// its own outcomes puts it.
pub proof fn lemma_every_client_is_served_alike(
    service: ServiceModel,
    events: Seq<ServiceEvent>,
    index: nat,
)
    requires
        index < service.sessions.len(),
        service.sessions[index as int] == service.fresh_session(),
        outcomes_of_session(events, index).len() > 0 ==> outcomes_of_session(events, index)[0]
            == Outcome::Succeeded,
    ensures
        index < service.run(events).sessions.len(),
        service.run(events).sessions[index as int] == (SessionModel {
            phase: phase_after(
                service.configuration.records.len(),
                outcomes_of_session(events, index).len(),
            ),
            ..service.fresh_session()
        }),
{
    lemma_sessions_do_not_interfere(service, events, index);
    lemma_phase_after_handshake(
        service.configuration.records,
        service.configuration.interval,
        outcomes_of_session(events, index),
    );
}

} // verus!
