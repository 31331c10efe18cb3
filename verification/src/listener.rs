//! The listener: bind once, then accept connections and hand each to a
//! session of its own, until the listening socket is lost.
//!
//! Like a session, the listener does no input or output. It says which action
//! is due ([`Listener::pending`]) and is told how it turned out
//! ([`Listener::advance`]).

use crate::notice::Notice;
use vstd::prelude::*;

verus! {

/// The listening socket could not be bound.
#[derive(Clone, Copy, PartialEq, Eq, Debug, Structural)]
pub struct BindError {}

/// Where the listener stands.
#[derive(Clone, Copy, PartialEq, Eq, Debug, Structural)]
pub enum ListenerState {
    /// The socket is to be bound.
    Binding,
    /// The next connection is awaited.
    Accepting,
    /// A connection has arrived and is to be handed to a new session.
    Dispatching,
    /// The listener has stopped accepting for good.
    Stopped,
    /// The socket could not be bound, and nothing was ever accepted.
    BindFailed,
}

/// How the listener's action turned out.
#[derive(Clone, Copy, PartialEq, Eq, Debug, Structural)]
pub enum ListenerOutcome {
    /// It was carried out.
    Succeeded,
    /// It failed for the connection in hand; the listening socket is intact.
    ConnectionLost,
    /// It failed because the listening socket is closed or cannot be used.
    ListenerLost,
}

/// Why accepting a connection failed.
#[derive(Clone, Copy, PartialEq, Eq, Debug, Structural)]
pub enum AcceptFailure {
    /// The peer refused the connection.
    ConnectionRefused,
    /// The peer reset the connection.
    ConnectionReset,
    /// The connection was aborted before it was accepted.
    ConnectionAborted,
    /// The call was interrupted.
    Interrupted,
    /// No connection was ready.
    WouldBlock,
    /// The call timed out.
    TimedOut,
    /// Anything else: the listening socket is closed or cannot be used.
    Other,
}

impl AcceptFailure {
    /// What the failure means for the listener. A failure of the connection
    /// in hand, or of this one call, leaves the listening socket intact;
    /// anything else counts as its loss.
    pub open spec fn outcome_of(self) -> ListenerOutcome {
        match self {
            AcceptFailure::Other => ListenerOutcome::ListenerLost,
            _ => ListenerOutcome::ConnectionLost,
        }
    }

    /// The outcome to tell the listener when accepting has failed in this
    /// way.
    pub fn outcome(&self) -> (outcome: ListenerOutcome)
        ensures
            outcome == self.outcome_of(),
    {
        match self {
            AcceptFailure::Other => ListenerOutcome::ListenerLost,
            _ => ListenerOutcome::ConnectionLost,
        }
    }
}

/// What the listener asks for, as a mathematical value.
pub enum ListenerRequest {
    /// Bind a listening socket at this address.
    Bind(Seq<char>),
    /// Wait for the next connection.
    Accept,
    /// Start a session of its own for the connection that arrived, and do not
    /// wait for it.
    Dispatch,
    /// Nothing more: return this result.
    Finish(Result<(), BindError>),
}

/// A listener as a mathematical value: its address and where it stands.
pub struct ListenerModel {
    pub address: Seq<char>,
    pub state: ListenerState,
}

impl ListenerModel {
    /// A listener that has not bound its socket yet.
    pub open spec fn initial(address: Seq<char>) -> ListenerModel {
        ListenerModel { address, state: ListenerState::Binding }
    }

    /// The listener will accept nothing any more.
    pub open spec fn is_over(self) -> bool {
        self.state == ListenerState::Stopped || self.state == ListenerState::BindFailed
    }

    /// The listener is in its accept loop.
    pub open spec fn is_serving(self) -> bool {
        self.state == ListenerState::Accepting || self.state == ListenerState::Dispatching
    }

    /// The action that is due.
    pub open spec fn pending(self) -> ListenerRequest {
        match self.state {
            ListenerState::Binding => ListenerRequest::Bind(self.address),
            ListenerState::Accepting => ListenerRequest::Accept,
            ListenerState::Dispatching => ListenerRequest::Dispatch,
            ListenerState::Stopped => ListenerRequest::Finish(Ok(())),
            ListenerState::BindFailed => ListenerRequest::Finish(Err(BindError {  })),
        }
    }

    /// Where the listener stands once the action that was due has turned out
    /// as `outcome` says.
    ///
    /// A bind that fails in any way is final. A failed accept is tried again
    /// unless the listening socket itself is lost. After a dispatch the
    /// listener accepts again, whatever became of the session.
    pub open spec fn next(self, outcome: ListenerOutcome) -> ListenerModel {
        let state = match self.state {
            ListenerState::Binding => match outcome {
                ListenerOutcome::Succeeded => ListenerState::Accepting,
                _ => ListenerState::BindFailed,
            },
            ListenerState::Accepting => match outcome {
                ListenerOutcome::Succeeded => ListenerState::Dispatching,
                ListenerOutcome::ConnectionLost => ListenerState::Accepting,
                ListenerOutcome::ListenerLost => ListenerState::Stopped,
            },
            ListenerState::Dispatching => ListenerState::Accepting,
            ListenerState::Stopped => ListenerState::Stopped,
            ListenerState::BindFailed => ListenerState::BindFailed,
        };
        ListenerModel { state, ..self }
    }

    /// What is reported when the action that was due has turned out as
    /// `outcome` says.
    pub open spec fn notice(self, outcome: ListenerOutcome) -> Option<Notice> {
        match self.state {
            ListenerState::Binding => match outcome {
                ListenerOutcome::Succeeded => Some(Notice::BindSucceeded),
                _ => Some(Notice::BindFailed),
            },
            ListenerState::Accepting => match outcome {
                ListenerOutcome::Succeeded => Some(Notice::ConnectionAccepted),
                ListenerOutcome::ConnectionLost => Some(Notice::AcceptFailed),
                ListenerOutcome::ListenerLost => Some(Notice::ListenerStopped),
            },
            _ => None,
        }
    }

    /// The listener once it has been told to stop: it accepts nothing more.
    /// A failed bind stays a failed bind.
    pub open spec fn stopped(self) -> ListenerModel {
        if self.state == ListenerState::BindFailed {
            self
        } else {
            ListenerModel { state: ListenerState::Stopped, ..self }
        }
    }

    /// Where the listener stands after a run of outcomes, each answering the
    /// action that was due when it came.
    pub open spec fn run(self, outcomes: Seq<ListenerOutcome>) -> ListenerModel
        decreases outcomes.len(),
    {
        if outcomes.len() == 0 {
            self
        } else {
            self.run(outcomes.drop_last()).next(outcomes.last())
        }
    }

    /// The actions that the listener asks for in the course of a run: the
    /// action at `k` is the one that `outcomes[k]` answers.
    pub open spec fn requests(self, outcomes: Seq<ListenerOutcome>) -> Seq<ListenerRequest> {
        Seq::new(outcomes.len(), |k: int| self.run(outcomes.take(k)).pending())
    }
}

/// What the listener asks its driver to do.
#[derive(PartialEq, Eq, Debug)]
pub enum ListenerAction {
    /// Bind a listening socket at this address.
    Bind(String),
    /// Wait for the next connection.
    Accept,
    /// Start a session of its own for the connection that arrived, and do not
    /// wait for it.
    Dispatch,
    /// Nothing more: return this result.
    Finish(Result<(), BindError>),
}

impl View for ListenerAction {
    type V = ListenerRequest;

    open spec fn view(&self) -> ListenerRequest {
        match *self {
            ListenerAction::Bind(address) => ListenerRequest::Bind(address@),
            ListenerAction::Accept => ListenerRequest::Accept,
            ListenerAction::Dispatch => ListenerRequest::Dispatch,
            ListenerAction::Finish(result) => ListenerRequest::Finish(result),
        }
    }
}

/// The listener of one service.
pub struct Listener {
    address: String,
    state: ListenerState,
}

impl View for Listener {
    type V = ListenerModel;

    closed spec fn view(&self) -> ListenerModel {
        ListenerModel { address: self.address@, state: self.state }
    }
}

impl Listener {
    /// A listener for `address` that has not bound its socket yet.
    pub fn new(address: String) -> (listener: Listener)
        ensures
            listener@ == ListenerModel::initial(address@),
    {
        Listener { address, state: ListenerState::Binding }
    }

    /// Where the listener stands.
    pub fn state(&self) -> (state: ListenerState)
        ensures
            state == self@.state,
    {
        self.state
    }

    /// The action that is due. Asking again changes nothing.
    pub fn pending(&self) -> (action: ListenerAction)
        ensures
            action@ == self@.pending(),
    {
        match self.state {
            ListenerState::Binding => ListenerAction::Bind(self.address.clone()),
            ListenerState::Accepting => ListenerAction::Accept,
            ListenerState::Dispatching => ListenerAction::Dispatch,
            ListenerState::Stopped => ListenerAction::Finish(Ok(())),
            ListenerState::BindFailed => ListenerAction::Finish(Err(BindError {  })),
        }
    }

    /// Takes note of how the action that was due turned out, and returns what
    /// is to be logged about it.
    pub fn advance(&mut self, outcome: ListenerOutcome) -> (notice: Option<Notice>)
        ensures
            final(self)@ == old(self)@.next(outcome),
            notice == old(self)@.notice(outcome),
    {
        match self.state {
            ListenerState::Binding => match outcome {
                ListenerOutcome::Succeeded => {
                    self.state = ListenerState::Accepting;
                    Some(Notice::BindSucceeded)
                },
                _ => {
                    self.state = ListenerState::BindFailed;
                    Some(Notice::BindFailed)
                },
            },
            ListenerState::Accepting => match outcome {
                ListenerOutcome::Succeeded => {
                    self.state = ListenerState::Dispatching;
                    Some(Notice::ConnectionAccepted)
                },
                ListenerOutcome::ConnectionLost => Some(Notice::AcceptFailed),
                ListenerOutcome::ListenerLost => {
                    self.state = ListenerState::Stopped;
                    Some(Notice::ListenerStopped)
                },
            },
            ListenerState::Dispatching => {
                self.state = ListenerState::Accepting;
                None
            },
            ListenerState::Stopped => None,
            ListenerState::BindFailed => None,
        }
    }

    /// Tells the listener to stop: from now on nothing is accepted. What a
    /// failed bind has to report is kept.
    pub fn shutdown(&mut self)
        ensures
            final(self)@ == old(self)@.stopped(),
    {
        match self.state {
            ListenerState::BindFailed => {},
            _ => {
                self.state = ListenerState::Stopped;
            },
        }
    }
}

/// A listener that has ended stays as it is, whatever it is told.
pub proof fn lemma_ended_listener_stays(listener: ListenerModel, outcomes: Seq<ListenerOutcome>)
    requires
        listener.is_over(),
    ensures
        listener.run(outcomes) == listener,
    decreases outcomes.len(),
{
    if outcomes.len() > 0 {
        lemma_ended_listener_stays(listener, outcomes.drop_last());
    }
}

/// A bind that fails is reported and is final: the listener's result is the
/// error, and it never asks to accept or to dispatch a connection.
pub proof fn lemma_failed_bind_is_final(address: Seq<char>, outcomes: Seq<ListenerOutcome>)
    requires
        outcomes.len() > 0,
        outcomes[0] != ListenerOutcome::Succeeded,
    ensures
        ListenerModel::initial(address).notice(outcomes[0]) == Some(Notice::BindFailed),
        ListenerModel::initial(address).run(outcomes).state == ListenerState::BindFailed,
        ListenerModel::initial(address).run(outcomes).pending() == ListenerRequest::Finish(
            Err(BindError {  }),
        ),
        forall|k: int|
            1 <= k < outcomes.len() ==> #[trigger] ListenerModel::initial(address).requests(
                outcomes,
            )[k] == ListenerRequest::Finish(Err(BindError {  })),
{
    let listener = ListenerModel::initial(address);
    let failed = listener.next(outcomes[0]);
    assert forall|k: int| 1 <= k <= outcomes.len() implies #[trigger] listener.run(
        outcomes.take(k),
    ) == failed by {
        let later = outcomes.take(k).subrange(1, k);
        lemma_run_from_first(listener, outcomes.take(k));
        lemma_ended_listener_stays(failed, later);
    }
    assert(outcomes.take(outcomes.len() as int) == outcomes);
}

/// A run is its first step followed by the run of the rest.
pub proof fn lemma_run_from_first(listener: ListenerModel, outcomes: Seq<ListenerOutcome>)
    requires
        outcomes.len() > 0,
    ensures
        listener.run(outcomes) == listener.next(outcomes[0]).run(
            outcomes.subrange(1, outcomes.len() as int),
        ),
    decreases outcomes.len(),
{
    let rest = outcomes.subrange(1, outcomes.len() as int);
    if outcomes.len() == 1 {
        assert(listener.run(outcomes.drop_last()) == listener);
    } else {
        lemma_run_from_first(listener, outcomes.drop_last());
        assert(outcomes.drop_last().subrange(1, outcomes.len() - 1) == rest.drop_last());
    }
}

/// Once bound, the listener stays in its accept loop for as long as the
/// listening socket is not lost: a connection that goes wrong while it is
/// accepted does not end the loop, and neither does anything that happens to
/// a session.
pub proof fn lemma_listener_keeps_serving(listener: ListenerModel, outcomes: Seq<ListenerOutcome>)
    requires
        listener.is_serving(),
        forall|k: int| 0 <= k < outcomes.len() ==> outcomes[k] != ListenerOutcome::ListenerLost,
    ensures
        listener.run(outcomes).is_serving(),
    decreases outcomes.len(),
{
    if outcomes.len() > 0 {
        lemma_listener_keeps_serving(listener, outcomes.drop_last());
    }
}

/// What follows an accept: a connection that arrived is dispatched, a failure
/// of the connection in hand is logged and the accept tried again, and the
/// loss of the listening socket ends the loop without an error.
pub proof fn lemma_accept_is_followed_up(listener: ListenerModel, outcome: ListenerOutcome)
    requires
        listener.state == ListenerState::Accepting,
    ensures
        outcome == ListenerOutcome::Succeeded <==> listener.next(outcome).pending()
            == ListenerRequest::Dispatch,
        outcome == ListenerOutcome::ConnectionLost <==> listener.next(outcome).pending()
            == ListenerRequest::Accept,
        outcome == ListenerOutcome::ConnectionLost <==> listener.notice(outcome) == Some(
            Notice::AcceptFailed,
        ),
        outcome == ListenerOutcome::ListenerLost <==> listener.next(outcome).pending()
            == ListenerRequest::Finish(Ok(())),
{
}

/// The listener does not wait for the session that it dispatches: whatever
/// it is told after a dispatch, it accepts again.
pub proof fn lemma_dispatch_does_not_wait(listener: ListenerModel, outcome: ListenerOutcome)
    requires
        listener.state == ListenerState::Dispatching,
    ensures
        listener.next(outcome).state == ListenerState::Accepting,
        listener.next(outcome).pending() == ListenerRequest::Accept,
        listener.notice(outcome) == None::<Notice>,
{
}

/// A listener that was told to stop has ended, and stays so.
pub proof fn lemma_stopped_listener_is_over(listener: ListenerModel, outcomes: Seq<ListenerOutcome>)
    ensures
        listener.stopped().is_over(),
        listener.stopped().run(outcomes) == listener.stopped(),
        listener.stopped().pending() is Finish,
{
    lemma_ended_listener_stays(listener.stopped(), outcomes);
}

} // verus!
