//! One client's session: handshake, the records one by one with a pause after
//! each, a close frame, and the end.
//!
//! The session does no input or output. It says which action is due
//! ([`Session::pending`]), is told how that action turned out
//! ([`Session::advance`]), and moves on. Whoever owns the socket performs the
//! actions.

use crate::notice::Notice;
use std::sync::Arc;
use vstd::prelude::*;

verus! {

/// How the action that was due turned out.
#[derive(Clone, Copy, PartialEq, Eq, Debug, Structural)]
pub enum Outcome {
    /// It was carried out.
    Succeeded,
    /// It failed.
    Failed,
}

/// Where a session stands, as a mathematical value.
pub enum SessionPhase {
    /// The handshake is due.
    Handshaking,
    /// Streaming: the record at this index is due.
    Sending(nat),
    /// Streaming: the pause after the record at this index is due.
    Pausing(nat),
    /// The close frame is due.
    Closing,
    /// The session ended after its close frame was attempted.
    Closed,
    /// The session ended because the handshake failed.
    Failed,
}

/// What a session asks for, as a mathematical value.
pub enum SessionRequest {
    /// Perform the handshake.
    Handshake,
    /// Send this text as one text frame.
    SendText(Seq<char>),
    /// Wait this many milliseconds.
    Pause(nat),
    /// Send a close frame.
    SendClose,
    /// Nothing more: release the connection.
    Finish,
}

/// A session as a mathematical value: the records it streams, the pause after
/// each of them in milliseconds, and where it stands.
pub struct SessionModel {
    pub records: Seq<Seq<char>>,
    pub interval: nat,
    pub phase: SessionPhase,
}

/// The phase in which the record at `index` comes up: it is sent if there is
/// one, and else the stream is over.
pub open spec fn phase_at_record(index: nat, count: nat) -> SessionPhase {
    if index < count {
        SessionPhase::Sending(index)
    } else {
        SessionPhase::Closing
    }
}

impl SessionModel {
    /// A session that has not begun.
    pub open spec fn initial(records: Seq<Seq<char>>, interval: nat) -> SessionModel {
        SessionModel { records, interval, phase: SessionPhase::Handshaking }
    }

    /// While the session streams, its index points at a record.
    pub open spec fn wf(self) -> bool {
        match self.phase {
            SessionPhase::Sending(index) => index < self.records.len(),
            SessionPhase::Pausing(index) => index < self.records.len(),
            _ => true,
        }
    }

    /// The session has ended.
    pub open spec fn is_over(self) -> bool {
        self.phase is Closed || self.phase is Failed
    }

    /// The action that is due.
    pub open spec fn pending(self) -> SessionRequest {
        match self.phase {
            SessionPhase::Handshaking => SessionRequest::Handshake,
            SessionPhase::Sending(index) => SessionRequest::SendText(self.records[index as int]),
            SessionPhase::Pausing(_) => SessionRequest::Pause(self.interval),
            SessionPhase::Closing => SessionRequest::SendClose,
            SessionPhase::Closed => SessionRequest::Finish,
            SessionPhase::Failed => SessionRequest::Finish,
        }
    }

    /// Where the session stands once the action that was due has turned out
    /// as `outcome` says.
    ///
    /// Only the handshake's outcome matters. A record that could not be sent
    /// is dropped and followed by the same pause as one that was sent; a
    /// pause always ends; and the session is closed whether or not the close
    /// frame went out.
    pub open spec fn next(self, outcome: Outcome) -> SessionModel {
        let phase = match self.phase {
            SessionPhase::Handshaking => match outcome {
                Outcome::Succeeded => phase_at_record(0, self.records.len()),
                Outcome::Failed => SessionPhase::Failed,
            },
            SessionPhase::Sending(index) => SessionPhase::Pausing(index),
            SessionPhase::Pausing(index) => phase_at_record(index + 1, self.records.len()),
            SessionPhase::Closing => SessionPhase::Closed,
            SessionPhase::Closed => SessionPhase::Closed,
            SessionPhase::Failed => SessionPhase::Failed,
        };
        SessionModel { phase, ..self }
    }

    /// What is reported when the action that was due has turned out as
    /// `outcome` says.
    pub open spec fn notice(self, outcome: Outcome) -> Option<Notice> {
        match (self.phase, outcome) {
            (SessionPhase::Handshaking, Outcome::Succeeded) => Some(Notice::ConnectionEstablished),
            (SessionPhase::Handshaking, Outcome::Failed) => Some(Notice::HandshakeFailed),
            (SessionPhase::Sending(_), Outcome::Failed) => Some(Notice::SendFailed),
            (SessionPhase::Closing, Outcome::Succeeded) => Some(Notice::ConnectionClosed),
            (SessionPhase::Closing, Outcome::Failed) => Some(Notice::CloseFailed),
            _ => None,
        }
    }

    /// Where the session stands after a run of outcomes, each answering the
    /// action that was due when it came.
    pub open spec fn run(self, outcomes: Seq<Outcome>) -> SessionModel
        decreases outcomes.len(),
    {
        if outcomes.len() == 0 {
            self
        } else {
            self.run(outcomes.drop_last()).next(outcomes.last())
        }
    }

    /// The actions that the session asks for in the course of a run: the
    /// action at `k` is the one that `outcomes[k]` answers.
    pub open spec fn requests(self, outcomes: Seq<Outcome>) -> Seq<SessionRequest> {
        Seq::new(outcomes.len(), |k: int| self.run(outcomes.take(k)).pending())
    }

    /// The texts that went out in the course of a run: those of the records
    /// whose sending succeeded, in the order in which they were sent.
    pub open spec fn delivered(self, outcomes: Seq<Outcome>) -> Seq<Seq<char>>
        decreases outcomes.len(),
    {
        if outcomes.len() == 0 {
            Seq::empty()
        } else {
            let before = self.run(outcomes.drop_last());
            let earlier = self.delivered(outcomes.drop_last());
            match (before.phase, outcomes.last()) {
                (SessionPhase::Sending(index), Outcome::Succeeded) => earlier.push(
                    self.records[index as int],
                ),
                _ => earlier,
            }
        }
    }
}

/// Where a session stands.
#[derive(Clone, Copy, PartialEq, Eq, Debug, Structural)]
pub enum SessionState {
    /// The handshake is due.
    Handshaking,
    /// Streaming: the record at `index` is due.
    Sending { index: usize },
    /// Streaming: the pause after the record at `index` is due.
    Pausing { index: usize },
    /// The close frame is due.
    Closing,
    /// The session ended after its close frame was attempted.
    Closed,
    /// The session ended because the handshake failed.
    Failed,
}

impl View for SessionState {
    type V = SessionPhase;

    open spec fn view(&self) -> SessionPhase {
        match *self {
            SessionState::Handshaking => SessionPhase::Handshaking,
            SessionState::Sending { index } => SessionPhase::Sending(index as nat),
            SessionState::Pausing { index } => SessionPhase::Pausing(index as nat),
            SessionState::Closing => SessionPhase::Closing,
            SessionState::Closed => SessionPhase::Closed,
            SessionState::Failed => SessionPhase::Failed,
        }
    }
}

/// What a session asks its driver to do.
#[derive(PartialEq, Eq, Debug)]
pub enum SessionAction {
    /// Perform the handshake.
    Handshake,
    /// Send this text as one text frame.
    SendText(String),
    /// Wait this many milliseconds.
    Pause(u64),
    /// Send a close frame.
    SendClose,
    /// Nothing more: release the connection.
    Finish,
}

impl View for SessionAction {
    type V = SessionRequest;

    open spec fn view(&self) -> SessionRequest {
        match *self {
            SessionAction::Handshake => SessionRequest::Handshake,
            SessionAction::SendText(text) => SessionRequest::SendText(text@),
            SessionAction::Pause(millis) => SessionRequest::Pause(millis as nat),
            SessionAction::SendClose => SessionRequest::SendClose,
            SessionAction::Finish => SessionRequest::Finish,
        }
    }
}

impl DeepView for SessionAction {
    type V = SessionRequest;

    open spec fn deep_view(&self) -> SessionRequest {
        self@
    }
}

/// One client's session over a shared set of records.
pub struct Session {
    records: Arc<Vec<String>>,
    interval: u64,
    state: SessionState,
}

impl View for Session {
    type V = SessionModel;

    closed spec fn view(&self) -> SessionModel {
        SessionModel {
            records: self.records.deep_view(),
            interval: self.interval as nat,
            phase: self.state@,
        }
    }
}

impl Session {
    #[verifier::type_invariant]
    spec fn well_formed(&self) -> bool {
        self@.wf()
    }

    /// A session that has not begun, over `records` and with a pause of
    /// `interval` milliseconds after each of them.
    pub fn new(records: Arc<Vec<String>>, interval: u64) -> (session: Session)
        ensures
            session@ == SessionModel::initial(records.deep_view(), interval as nat),
    {
        Session { records, interval, state: SessionState::Handshaking }
    }

    /// Where the session stands.
    pub fn state(&self) -> (state: SessionState)
        ensures
            state@ == self@.phase,
            self@.wf(),
    {
        proof {
            use_type_invariant(self);
        }
        self.state
    }

    /// Whether the session has ended.
    pub fn is_over(&self) -> (over: bool)
        ensures
            over == self@.is_over(),
    {
        match self.state {
            SessionState::Closed | SessionState::Failed => true,
            _ => false,
        }
    }

    /// The action that is due. Asking again changes nothing.
    pub fn pending(&self) -> (action: SessionAction)
        ensures
            action@ == self@.pending(),
    {
        proof {
            use_type_invariant(self);
        }
        match self.state {
            SessionState::Handshaking => SessionAction::Handshake,
            SessionState::Sending { index } => {
                let text = self.records[index].clone();
                SessionAction::SendText(text)
            },
            SessionState::Pausing { .. } => SessionAction::Pause(self.interval),
            SessionState::Closing => SessionAction::SendClose,
            SessionState::Closed => SessionAction::Finish,
            SessionState::Failed => SessionAction::Finish,
        }
    }

    /// Takes note of how the action that was due turned out, and returns what
    /// is to be logged about it.
    pub fn advance(&mut self, outcome: Outcome) -> (notice: Option<Notice>)
        ensures
            final(self)@ == old(self)@.next(outcome),
            notice == old(self)@.notice(outcome),
    {
        proof {
            use_type_invariant(&*self);
        }
        let count = self.records.len();
        match self.state {
            SessionState::Handshaking => match outcome {
                Outcome::Succeeded => {
                    self.state = if 0 < count {
                        SessionState::Sending { index: 0 }
                    } else {
                        SessionState::Closing
                    };
                    Some(Notice::ConnectionEstablished)
                },
                Outcome::Failed => {
                    self.state = SessionState::Failed;
                    Some(Notice::HandshakeFailed)
                },
            },
            SessionState::Sending { index } => {
                self.state = SessionState::Pausing { index };
                match outcome {
                    Outcome::Succeeded => None,
                    Outcome::Failed => Some(Notice::SendFailed),
                }
            },
            SessionState::Pausing { index } => {
                self.state = if index + 1 < count {
                    SessionState::Sending { index: index + 1 }
                } else {
                    SessionState::Closing
                };
                None
            },
            SessionState::Closing => {
                self.state = SessionState::Closed;
                match outcome {
                    Outcome::Succeeded => Some(Notice::ConnectionClosed),
                    Outcome::Failed => Some(Notice::CloseFailed),
                }
            },
            SessionState::Closed => None,
            SessionState::Failed => None,
        }
    }

    /// Runs the session over outcomes that are already known, as a driver
    /// would that met them one by one, and returns the actions that the
    /// session asked for on the way: the action at `k` is the one that
    /// `outcomes[k]` answers.
    pub fn replay(&mut self, outcomes: &[Outcome]) -> (actions: Vec<SessionAction>)
        ensures
            final(self)@ == old(self)@.run(outcomes@),
            actions.deep_view() == old(self)@.requests(outcomes@),
    {
        let mut actions: Vec<SessionAction> = Vec::new();
        let mut k: usize = 0;
        while k < outcomes.len()
            invariant
                k <= outcomes.len(),
                self@ == old(self)@.run(outcomes@.take(k as int)),
                actions.len() == k,
                forall|j: int|
                    0 <= j < k ==> (#[trigger] actions[j])@ == old(self)@.requests(outcomes@)[j],
            decreases outcomes.len() - k,
        {
            let action = self.pending();
            actions.push(action);
            self.advance(outcomes[k]);
            proof {
                assert(outcomes@.take(k + 1).drop_last() == outcomes@.take(k as int));
            }
            k += 1;
        }
        proof {
            assert(outcomes@.take(k as int) == outcomes@);
        }
        actions
    }
}

/// The action at place `k` in the course of a session whose handshake
/// succeeds: the handshake, then each record followed by a pause, then the
/// close frame, and from then on nothing.
pub open spec fn scripted(records: Seq<Seq<char>>, interval: nat, k: nat) -> SessionRequest {
    if k == 0 {
        SessionRequest::Handshake
    } else if k <= 2 * records.len() {
        if k % 2 == 1 {
            SessionRequest::SendText(records[(k - 1) / 2])
        } else {
            SessionRequest::Pause(interval)
        }
    } else if k == 2 * records.len() + 1 {
        SessionRequest::SendClose
    } else {
        SessionRequest::Finish
    }
}

/// The whole course of a session whose handshake succeeds, up to and with the
/// close frame.
pub open spec fn script(records: Seq<Seq<char>>, interval: nat) -> Seq<SessionRequest> {
    Seq::new(2 * records.len() + 2, |k: int| scripted(records, interval, k as nat))
}

/// The time that a run of actions takes at least: the sum of its pauses, in
/// milliseconds.
pub open spec fn pause_total(requests: Seq<SessionRequest>) -> nat
    decreases requests.len(),
{
    if requests.len() == 0 {
        0
    } else {
        let earlier = pause_total(requests.drop_last());
        match requests.last() {
            SessionRequest::Pause(millis) => earlier + millis,
            _ => earlier,
        }
    }
}

/// Where a session over `count` records stands after `k` outcomes, the first
/// of which was a successful handshake.
pub open spec fn phase_after(count: nat, k: nat) -> SessionPhase {
    if k == 0 {
        SessionPhase::Handshaking
    } else if k <= 2 * count {
        if k % 2 == 1 {
            SessionPhase::Sending(((k - 1) / 2) as nat)
        } else {
            SessionPhase::Pausing(((k - 2) / 2) as nat)
        }
    } else if k == 2 * count + 1 {
        SessionPhase::Closing
    } else {
        SessionPhase::Closed
    }
}

/// The first `upto` records without those whose sending failed. The outcome
/// of sending the record at `i` stands at `2 * i + 1`: after the handshake's,
/// and after a send's and a pause's for each record before it.
pub open spec fn kept(records: Seq<Seq<char>>, outcomes: Seq<Outcome>, upto: nat) -> Seq<Seq<char>>
    decreases upto,
{
    if upto == 0 {
        Seq::empty()
    } else {
        let earlier = kept(records, outcomes, (upto - 1) as nat);
        if outcomes[2 * (upto - 1) + 1] == Outcome::Succeeded {
            earlier.push(records[upto - 1])
        } else {
            earlier
        }
    }
}

/// The number of records whose sending has been attempted after `k` outcomes,
/// the first of which was a successful handshake.
pub open spec fn attempted(count: nat, k: nat) -> nat {
    if k / 2 < count {
        k / 2
    } else {
        count
    }
}

/// A step changes neither the records nor the interval, and leaves the
/// session's index within the records.
pub proof fn lemma_next_keeps_session(session: SessionModel, outcome: Outcome)
    requires
        session.wf(),
    ensures
        session.next(outcome).wf(),
        session.next(outcome).records == session.records,
        session.next(outcome).interval == session.interval,
{
}

/// A run changes neither the records nor the interval, and leaves the
/// session's index within the records.
pub proof fn lemma_run_keeps_session(session: SessionModel, outcomes: Seq<Outcome>)
    requires
        session.wf(),
    ensures
        session.run(outcomes).wf(),
        session.run(outcomes).records == session.records,
        session.run(outcomes).interval == session.interval,
    decreases outcomes.len(),
{
    if outcomes.len() > 0 {
        lemma_run_keeps_session(session, outcomes.drop_last());
        lemma_next_keeps_session(session.run(outcomes.drop_last()), outcomes.last());
    }
}

/// Once the handshake has succeeded, where the session stands depends only on
/// how many outcomes it has seen, not on what they were.
pub proof fn lemma_phase_after_handshake(
    records: Seq<Seq<char>>,
    interval: nat,
    outcomes: Seq<Outcome>,
)
    requires
        outcomes.len() > 0 ==> outcomes[0] == Outcome::Succeeded,
    ensures
        SessionModel::initial(records, interval).run(outcomes) == (SessionModel {
            records,
            interval,
            phase: phase_after(records.len(), outcomes.len()),
        }),
    decreases outcomes.len(),
{
    if outcomes.len() > 0 {
        lemma_phase_after_handshake(records, interval, outcomes.drop_last());
    }
}

/// A session whose handshake succeeds follows its script: the handshake, then
/// each record in the records' order, each followed by one pause of the
/// interval, then the close frame. Whether a record or the close frame could
/// be sent changes nothing in this.
pub proof fn lemma_session_follows_script(
    records: Seq<Seq<char>>,
    interval: nat,
    outcomes: Seq<Outcome>,
)
    requires
        outcomes.len() > 0 ==> outcomes[0] == Outcome::Succeeded,
    ensures
        forall|k: int|
            0 <= k < outcomes.len() ==> #[trigger] SessionModel::initial(
                records,
                interval,
            ).requests(outcomes)[k] == scripted(records, interval, k as nat),
        outcomes.len() == 2 * records.len() + 2 ==> SessionModel::initial(
            records,
            interval,
        ).requests(outcomes) == script(records, interval),
        outcomes.len() >= 2 * records.len() + 2 <==> SessionModel::initial(records, interval).run(
            outcomes,
        ).is_over(),
{
    let session = SessionModel::initial(records, interval);
    assert forall|k: int| 0 <= k < outcomes.len() implies #[trigger] session.requests(outcomes)[k]
        == scripted(records, interval, k as nat) by {
        lemma_phase_after_handshake(records, interval, outcomes.take(k));
    }
    lemma_phase_after_handshake(records, interval, outcomes);
}

/// A session whose handshake fails ends at once: it asks for nothing more,
/// and no text goes out.
pub proof fn lemma_failed_handshake_ends_session(
    records: Seq<Seq<char>>,
    interval: nat,
    outcomes: Seq<Outcome>,
)
    requires
        outcomes.len() > 0,
        outcomes[0] == Outcome::Failed,
    ensures
        SessionModel::initial(records, interval).run(outcomes).phase == SessionPhase::Failed,
        SessionModel::initial(records, interval).delivered(outcomes) == Seq::<Seq<char>>::empty(),
        forall|k: int|
            1 <= k < outcomes.len() ==> #[trigger] SessionModel::initial(
                records,
                interval,
            ).requests(outcomes)[k] == SessionRequest::Finish,
    decreases outcomes.len(),
{
    let session = SessionModel::initial(records, interval);
    if outcomes.len() > 1 {
        lemma_failed_handshake_ends_session(records, interval, outcomes.drop_last());
        assert forall|k: int| 1 <= k < outcomes.len() implies #[trigger] session.requests(
            outcomes,
        )[k] == SessionRequest::Finish by {
            if k < outcomes.len() - 1 {
                assert(outcomes.take(k) == outcomes.drop_last().take(k));
                assert(session.requests(outcomes.drop_last())[k] == SessionRequest::Finish);
            }
        }
    } else {
        assert(session.run(outcomes.drop_last()) == session);
        assert(session.delivered(outcomes.drop_last()) == Seq::<Seq<char>>::empty());
    }
}

/// A record that could not be sent is skipped, not retried, and the session
/// goes on as if it had been sent: the same pause follows, and after it the
/// next record, or the close frame after the last.
pub proof fn lemma_failed_send_is_skipped(session: SessionModel, index: nat)
    requires
        session.wf(),
        session.phase == SessionPhase::Sending(index),
    ensures
        session.next(Outcome::Failed) == session.next(Outcome::Succeeded),
        session.notice(Outcome::Failed) == Some(Notice::SendFailed),
        !session.next(Outcome::Failed).is_over(),
        session.next(Outcome::Failed).pending() == SessionRequest::Pause(session.interval),
        forall|after: Outcome|
            index + 1 < session.records.len() ==> #[trigger] session.next(Outcome::Failed).next(
                after,
            ).pending() == SessionRequest::SendText(session.records[index + 1 as int]),
        forall|after: Outcome|
            index + 1 == session.records.len() ==> #[trigger] session.next(Outcome::Failed).next(
                after,
            ).pending() == SessionRequest::SendClose,
{
}

proof fn lemma_kept_of_prefix(
    records: Seq<Seq<char>>,
    outcomes: Seq<Outcome>,
    shorter: Seq<Outcome>,
    upto: nat,
)
    requires
        shorter.len() <= outcomes.len(),
        forall|k: int| 0 <= k < shorter.len() ==> shorter[k] == outcomes[k],
        2 * upto <= shorter.len(),
    ensures
        kept(records, outcomes, upto) == kept(records, shorter, upto),
    decreases upto,
{
    if upto > 0 {
        lemma_kept_of_prefix(records, outcomes, shorter, (upto - 1) as nat);
    }
}

/// What goes out in a session whose handshake succeeds is the records whose
/// sending succeeded, each once and in the records' order.
pub proof fn lemma_delivered_is_kept(
    records: Seq<Seq<char>>,
    interval: nat,
    outcomes: Seq<Outcome>,
)
    requires
        outcomes.len() > 0 ==> outcomes[0] == Outcome::Succeeded,
    ensures
        SessionModel::initial(records, interval).delivered(outcomes) == kept(
            records,
            outcomes,
            attempted(records.len(), outcomes.len()),
        ),
    decreases outcomes.len(),
{
    if outcomes.len() > 0 {
        let shorter = outcomes.drop_last();
        let done = attempted(records.len(), shorter.len());
        lemma_delivered_is_kept(records, interval, shorter);
        lemma_phase_after_handshake(records, interval, shorter);
        lemma_kept_of_prefix(records, outcomes, shorter, done);
    }
}

proof fn lemma_kept_all(records: Seq<Seq<char>>, outcomes: Seq<Outcome>, upto: nat)
    requires
        upto <= records.len(),
        2 * upto <= outcomes.len(),
        forall|k: int| 0 <= k < outcomes.len() ==> outcomes[k] == Outcome::Succeeded,
    ensures
        kept(records, outcomes, upto) == records.take(upto as int),
    decreases upto,
{
    if upto > 0 {
        lemma_kept_all(records, outcomes, (upto - 1) as nat);
    }
}

/// A client that stays for the whole session, with nothing failing, receives
/// every record, each once and in the records' order: after `2 * i + 2`
/// outcomes the first `i + 1` records have gone out, and once the last record
/// has been sent, all of them have.
pub proof fn lemma_all_records_are_delivered(
    records: Seq<Seq<char>>,
    interval: nat,
    outcomes: Seq<Outcome>,
)
    requires
        forall|k: int| 0 <= k < outcomes.len() ==> outcomes[k] == Outcome::Succeeded,
    ensures
        SessionModel::initial(records, interval).delivered(outcomes) == records.take(
            attempted(records.len(), outcomes.len()) as int,
        ),
        outcomes.len() >= 2 * records.len() ==> SessionModel::initial(records, interval).delivered(
            outcomes,
        ) == records,
{
    lemma_delivered_is_kept(records, interval, outcomes);
    lemma_kept_all(records, outcomes, attempted(records.len(), outcomes.len()));
}

/// The pace of a session: before the record at `i` is sent, the pauses add up
/// to `i` intervals, and before the close frame to one interval for each
/// record. So two records that follow each other are one interval apart, and
/// the close frame is one interval after the last record.
pub proof fn lemma_records_are_an_interval_apart(records: Seq<Seq<char>>, interval: nat, i: nat)
    requires
        i <= records.len(),
    ensures
        ({
            let whole = script(records, interval);
            let place = (2 * i + 1) as int;
            &&& pause_total(whole.take(place)) == i * interval
            &&& i < records.len() ==> whole[place] == SessionRequest::SendText(
                records[i as int],
            )
            &&& i == records.len() ==> whole[place] == SessionRequest::SendClose
        }),
    decreases i,
{
    let whole = script(records, interval);
    if i == 0 {
        assert(pause_total(whole.take(1).drop_last()) == 0);
    } else {
        lemma_records_are_an_interval_apart(records, interval, (i - 1) as nat);
        let upto = whole.take(2 * i + 1 as int);
        let sent = upto.drop_last();
        assert(sent.drop_last() == whole.take(2 * (i - 1) + 1));
        assert(pause_total(upto) == pause_total(sent) + interval);
        assert(i * interval == (i - 1) * interval + interval) by (nonlinear_arith);
    }
}

} // verus!
