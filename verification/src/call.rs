//! One identity query as a state machine.
//!
//! A call goes `Idle → Connecting → Sending → AwaitingReply → Decoding` and
//! ends in `Succeeded` or `Failed`. The machine does no I/O. It tells the
//! transport what to do next, the transport does it and reports what happened
//! together with the time that has passed since the call began, and the
//! machine decides how the call goes on. The reply may come in pieces: the
//! machine puts them together and decodes them only when the daemon has
//! closed its side. One deadline covers the whole exchange: each step gets
//! what is left of it, and a report that comes after it has passed fails the
//! call whatever it says.

use vstd::prelude::*;
use crate::decode::{decode, decode_spec};
use crate::error::{ClientError, IoCause, ProtocolError, Stage};
use crate::response::{IdentityResponse, IdentityView};

verus! {

/// Where a call stands.
#[derive(Clone, Copy, Debug, PartialEq, Eq, Structural)]
pub enum Phase {
    Idle,
    Connecting,
    Sending,
    AwaitingReply,
    Decoding,
    Succeeded,
    Failed,
}

/// What the transport reports.
#[derive(Clone, Debug, PartialEq, Eq)]
pub enum Event {
    /// The caller wants the exchange to begin.
    Started,
    /// The connection is open.
    Connected,
    /// The payload has been written in full.
    Sent,
    /// The next piece of the reply has been read.
    Data(Vec<u8>),
    /// The daemon has closed its side: the reply is complete.
    EndOfReply,
    /// The connection is closed.
    Closed,
    /// The operating system refused or broke off the current step.
    Failed(IoCause),
    /// The current step used up its budget.
    Expired,
}

/// What the transport has to do next.
#[derive(Clone, Copy, Debug, PartialEq, Eq, Structural)]
pub enum Action {
    /// Open a connection to the socket within `budget_ms` milliseconds.
    Connect { budget_ms: u64 },
    /// Write the payload within `budget_ms` milliseconds and, where
    /// `half_close` is set, shut down the writing side afterwards.
    Send { budget_ms: u64, half_close: bool },
    /// Read the next piece of the reply within `budget_ms` milliseconds, and
    /// report it as `Data`, or as `EndOfReply` where the stream has ended.
    Receive { budget_ms: u64 },
    /// Close the connection if one is open, and report `Closed`.
    Close,
    /// Nothing is left to do: the call has ended.
    Finish,
}

/// The model of an [`Event`].
pub ghost enum EventModel {
    Started,
    Connected,
    Sent,
    Data(Seq<u8>),
    EndOfReply,
    Closed,
    Failed(IoCause),
    Expired,
}

impl View for Event {
    type V = EventModel;

    open spec fn view(&self) -> EventModel {
        match self {
            Event::Started => EventModel::Started,
            Event::Connected => EventModel::Connected,
            Event::Sent => EventModel::Sent,
            Event::Data(bytes) => EventModel::Data(bytes@),
            Event::EndOfReply => EventModel::EndOfReply,
            Event::Closed => EventModel::Closed,
            Event::Failed(cause) => EventModel::Failed(*cause),
            Event::Expired => EventModel::Expired,
        }
    }
}

/// The state of a call, with what it holds in that state.
pub ghost enum StateModel {
    Idle,
    Connecting,
    Sending,
    /// The reply is being read: these are its bytes so far.
    AwaitingReply(Seq<u8>),
    /// The reply has arrived whole and is about to be decoded.
    Decoding(Seq<u8>),
    Succeeded(IdentityView),
    Failed(ClientError),
}

/// The model of a [`Call`].
pub ghost struct CallModel {
    /// Where the daemon listens.
    pub socket_path: Seq<char>,
    /// The deadline for the whole exchange, in milliseconds from its start.
    pub limit_ms: u64,
    /// The encoded request.
    pub payload: Seq<u8>,
    pub state: StateModel,
}

impl StateModel {
    /// The phase that a state belongs to.
    pub open spec fn phase(self) -> Phase {
        match self {
            StateModel::Idle => Phase::Idle,
            StateModel::Connecting => Phase::Connecting,
            StateModel::Sending => Phase::Sending,
            StateModel::AwaitingReply(_) => Phase::AwaitingReply,
            StateModel::Decoding(_) => Phase::Decoding,
            StateModel::Succeeded(_) => Phase::Succeeded,
            StateModel::Failed(_) => Phase::Failed,
        }
    }

    /// The states in which a step of the exchange is under way.
    pub open spec fn in_flight(self) -> bool {
        self is Connecting || self is Sending || self is AwaitingReply
    }

    /// The states in which the call has ended.
    pub open spec fn terminal(self) -> bool {
        self is Succeeded || self is Failed
    }

    /// The step that is under way in an in-flight state.
    pub open spec fn stage(self) -> Stage {
        match self {
            StateModel::Sending => Stage::Send,
            StateModel::AwaitingReply(_) => Stage::Receive,
            _ => Stage::Connect,
        }
    }
}

/// The state in which a call ends once its reply is decoded.
pub open spec fn settle(reply: Seq<u8>) -> StateModel {
    match decode_spec(reply) {
        Ok(response) => StateModel::Succeeded(response),
        Err(fault) => StateModel::Failed(ClientError::Protocol(fault)),
    }
}

/// How an in-flight call whose deadline has not passed goes on.
pub open spec fn proceed(c: CallModel, event: EventModel, elapsed_ms: u64) -> (StateModel, Action) {
    let broken = (
        StateModel::Failed(
            ClientError::Connection { stage: c.state.stage(), cause: IoCause::Other },
        ),
        Action::Close,
    );
    let late = (StateModel::Failed(ClientError::Timeout { limit_ms: c.limit_ms }), Action::Close);
    let budget = (c.limit_ms - elapsed_ms) as u64;
    match event {
        EventModel::Failed(cause) => (
            StateModel::Failed(ClientError::Connection { stage: c.state.stage(), cause }),
            Action::Close,
        ),
        EventModel::Connected => if !(c.state is Connecting) {
            broken
        } else if elapsed_ms == c.limit_ms {
            late
        } else {
            (
                StateModel::Sending,
                Action::Send { budget_ms: budget, half_close: c.payload.len() > 0 },
            )
        },
        EventModel::Sent => if !(c.state is Sending) {
            broken
        } else if elapsed_ms == c.limit_ms {
            late
        } else {
            (StateModel::AwaitingReply(Seq::empty()), Action::Receive { budget_ms: budget })
        },
        EventModel::Data(piece) => match c.state {
            StateModel::AwaitingReply(so_far) => if elapsed_ms == c.limit_ms {
                late
            } else {
                (StateModel::AwaitingReply(so_far + piece), Action::Receive { budget_ms: budget })
            },
            _ => broken,
        },
        EventModel::EndOfReply => match c.state {
            StateModel::AwaitingReply(reply) => (StateModel::Decoding(reply), Action::Close),
            _ => broken,
        },
        _ => broken,
    }
}

/// The state that follows `c.state` on `event`, reported `elapsed_ms`
/// milliseconds after the call began, and what the transport has to do then.
pub open spec fn advance(c: CallModel, event: EventModel, elapsed_ms: u64) -> (StateModel, Action) {
    match c.state {
        StateModel::Idle => if !(event is Started) {
            (
                StateModel::Failed(
                    ClientError::Connection { stage: Stage::Connect, cause: IoCause::Other },
                ),
                Action::Finish,
            )
        } else if c.limit_ms == 0 {
            (StateModel::Failed(ClientError::Timeout { limit_ms: c.limit_ms }), Action::Finish)
        } else {
            (StateModel::Connecting, Action::Connect { budget_ms: c.limit_ms })
        },
        StateModel::Decoding(reply) => (settle(reply), Action::Finish),
        StateModel::Succeeded(_) => (c.state, Action::Finish),
        StateModel::Failed(_) => (c.state, Action::Finish),
        _ => if elapsed_ms > c.limit_ms || event is Expired {
            (StateModel::Failed(ClientError::Timeout { limit_ms: c.limit_ms }), Action::Close)
        } else {
            proceed(c, event, elapsed_ms)
        },
    }
}

/// A response that was decoded from a reply, and is therefore valid.
struct Accepted {
    response: IdentityResponse,
}

impl Accepted {
    #[verifier::type_invariant]
    spec fn valid(&self) -> bool {
        self.response@.wf()
    }
}

enum Progress {
    Idle,
    Connecting,
    Sending,
    AwaitingReply,
    Decoding,
    Succeeded(Accepted),
    Failed(ClientError),
}

impl Progress {
    spec fn model(self, reply: Seq<u8>) -> StateModel {
        match self {
            Progress::Idle => StateModel::Idle,
            Progress::Connecting => StateModel::Connecting,
            Progress::Sending => StateModel::Sending,
            Progress::AwaitingReply => StateModel::AwaitingReply(reply),
            Progress::Decoding => StateModel::Decoding(reply),
            Progress::Succeeded(accepted) => StateModel::Succeeded(accepted.response@),
            Progress::Failed(error) => StateModel::Failed(error),
        }
    }
}

/// One identity query: what is to be sent where, by when, and how far the
/// exchange has come.
pub struct Call {
    socket_path: String,
    limit_ms: u64,
    payload: Vec<u8>,
    progress: Progress,
    reply: Vec<u8>,
}

impl View for Call {
    type V = CallModel;

    closed spec fn view(&self) -> CallModel {
        CallModel {
            socket_path: self.socket_path@,
            limit_ms: self.limit_ms,
            payload: self.payload@,
            state: self.progress.model(self.reply@),
        }
    }
}

impl Call {
    /// A call that has not begun.
    pub fn new(socket_path: String, limit_ms: u64, payload: Vec<u8>) -> (call: Call)
        ensures
            call@ == (CallModel {
                socket_path: socket_path@,
                limit_ms,
                payload: payload@,
                state: StateModel::Idle,
            }),
    {
        Call { socket_path, limit_ms, payload, progress: Progress::Idle, reply: Vec::new() }
    }

    /// Where the daemon listens.
    pub fn socket_path(&self) -> (path: &str)
        ensures
            path@ == self@.socket_path,
    {
        self.socket_path.as_str()
    }

    /// The deadline for the whole exchange, in milliseconds from its start.
    pub fn limit_ms(&self) -> (limit: u64)
        ensures
            limit == self@.limit_ms,
    {
        self.limit_ms
    }

    /// The bytes to be sent.
    pub fn payload(&self) -> (bytes: &Vec<u8>)
        ensures
            bytes@ == self@.payload,
    {
        &self.payload
    }

    /// Where the call stands.
    pub fn phase(&self) -> (p: Phase)
        ensures
            p == self@.state.phase(),
    {
        match &self.progress {
            Progress::Idle => Phase::Idle,
            Progress::Connecting => Phase::Connecting,
            Progress::Sending => Phase::Sending,
            Progress::AwaitingReply => Phase::AwaitingReply,
            Progress::Decoding => Phase::Decoding,
            Progress::Succeeded(_) => Phase::Succeeded,
            Progress::Failed(_) => Phase::Failed,
        }
    }

    fn stage(&self) -> (s: Stage)
        ensures
            s == self@.state.stage(),
    {
        match &self.progress {
            Progress::Sending => Stage::Send,
            Progress::AwaitingReply => Stage::Receive,
            _ => Stage::Connect,
        }
    }

    /// Takes the report of the transport and says what it has to do next.
    pub fn step(&mut self, event: Event, elapsed_ms: u64) -> (action: Action)
        ensures
            final(self)@.socket_path == old(self)@.socket_path,
            final(self)@.limit_ms == old(self)@.limit_ms,
            final(self)@.payload == old(self)@.payload,
            (final(self)@.state, action) == advance(old(self)@, event@, elapsed_ms),
    {
        let limit: u64 = self.limit_ms;
        let late = ClientError::Timeout { limit_ms: limit };
        match &self.progress {
            Progress::Idle => {
                match event {
                    Event::Started => {
                        if limit == 0 {
                            self.progress = Progress::Failed(late);
                            Action::Finish
                        } else {
                            self.progress = Progress::Connecting;
                            Action::Connect { budget_ms: limit }
                        }
                    },
                    _ => {
                        self.progress = Progress::Failed(
                            ClientError::Connection {
                                stage: Stage::Connect,
                                cause: IoCause::Other,
                            },
                        );
                        Action::Finish
                    },
                }
            },
            Progress::Decoding => {
                let decoded = decode(self.reply.as_slice());
                match decoded {
                    Ok(response) => {
                        self.progress = Progress::Succeeded(Accepted { response });
                    },
                    Err(fault) => {
                        self.progress = Progress::Failed(ClientError::Protocol(fault));
                    },
                }
                Action::Finish
            },
            Progress::Succeeded(_) => Action::Finish,
            Progress::Failed(_) => Action::Finish,
            _ => {
                let stage = self.stage();
                let connecting = self.phase() == Phase::Connecting;
                let sending = self.phase() == Phase::Sending;
                let awaiting = self.phase() == Phase::AwaitingReply;
                let broken = ClientError::Connection { stage, cause: IoCause::Other };
                if elapsed_ms > limit {
                    self.progress = Progress::Failed(late);
                    return Action::Close;
                }
                match event {
                    Event::Expired => {
                        self.progress = Progress::Failed(late);
                        Action::Close
                    },
                    Event::Failed(cause) => {
                        self.progress = Progress::Failed(ClientError::Connection { stage, cause });
                        Action::Close
                    },
                    Event::Connected => {
                        if !connecting {
                            self.progress = Progress::Failed(broken);
                            Action::Close
                        } else if elapsed_ms == limit {
                            self.progress = Progress::Failed(late);
                            Action::Close
                        } else {
                            self.progress = Progress::Sending;
                            Action::Send {
                                budget_ms: limit - elapsed_ms,
                                half_close: self.payload.len() > 0,
                            }
                        }
                    },
                    Event::Sent => {
                        if !sending {
                            self.progress = Progress::Failed(broken);
                            Action::Close
                        } else if elapsed_ms == limit {
                            self.progress = Progress::Failed(late);
                            Action::Close
                        } else {
                            self.reply.clear();
                            self.progress = Progress::AwaitingReply;
                            Action::Receive { budget_ms: limit - elapsed_ms }
                        }
                    },
                    Event::Data(piece) => {
                        if !awaiting {
                            self.progress = Progress::Failed(broken);
                            Action::Close
                        } else if elapsed_ms == limit {
                            self.progress = Progress::Failed(late);
                            Action::Close
                        } else {
                            let mut piece = piece;
                            self.reply.append(&mut piece);
                            Action::Receive { budget_ms: limit - elapsed_ms }
                        }
                    },
                    Event::EndOfReply => {
                        if !awaiting {
                            self.progress = Progress::Failed(broken);
                            Action::Close
                        } else {
                            self.progress = Progress::Decoding;
                            Action::Close
                        }
                    },
                    _ => {
                        self.progress = Progress::Failed(broken);
                        Action::Close
                    },
                }
            },
        }
    }

    /// Takes a series of reports one after the other, as [`Call::step`]
    /// would, and says what is to be done after the last of them.
    pub fn replay(&mut self, reports: Vec<(Event, u64)>) -> (last: Option<Action>)
        ensures
            final(self)@ == run(old(self)@, reports_view(reports@)),
            last is None <==> reports@.len() == 0,
            last matches Some(action) ==> action == advance(
                run_to(old(self)@, reports_view(reports@), reports@.len() - 1),
                reports@.last().0@,
                reports@.last().1,
            ).1,
    {
        let ghost all = reports_view(reports@);
        let ghost start = self@;
        let mut last: Option<Action> = None;
        for report in it: reports
            invariant
                it.seq() == reports@,
                all == reports_view(reports@),
                self@ == run_to(start, all, it.index() as int),
                last is None <==> it.index() == 0,
                last matches Some(action) ==> action == advance(
                    run_to(start, all, it.index() - 1),
                    all[it.index() - 1].0,
                    all[it.index() - 1].1,
                ).1,
        {
            let (event, elapsed_ms) = report;
            let action = self.step(event, elapsed_ms);
            last = Some(action);
        }
        last
    }

    /// The result of the call: `Some` once the call has ended, `None` while
    /// it is still under way.
    pub fn finish(self) -> (outcome: Option<Result<IdentityResponse, ClientError>>)
        ensures
            match outcome {
                Some(Ok(response)) => self@.state == StateModel::Succeeded(response@)
                    && response@.wf(),
                Some(Err(error)) => self@.state == StateModel::Failed(error),
                None => !self@.state.terminal(),
            },
    {
        match self.progress {
            Progress::Succeeded(accepted) => {
                proof {
                    use_type_invariant(&accepted);
                }
                Some(Ok(accepted.response))
            },
            Progress::Failed(error) => Some(Err(error)),
            _ => None,
        }
    }
}

/// The call after the first `n` of the given reports, each a pair of what
/// happened and the milliseconds that had passed by then.
pub open spec fn run_to(c: CallModel, reports: Seq<(EventModel, u64)>, n: int) -> CallModel
    decreases n,
{
    if n <= 0 {
        c
    } else {
        let before = run_to(c, reports, n - 1);
        CallModel { state: advance(before, reports[n - 1].0, reports[n - 1].1).0, ..before }
    }
}

/// The models of a series of reports.
pub open spec fn reports_view(reports: Seq<(Event, u64)>) -> Seq<(EventModel, u64)> {
    Seq::new(reports.len(), |i: int| (reports[i].0@, reports[i].1))
}

/// The call after all the given reports.
pub open spec fn run(c: CallModel, reports: Seq<(EventModel, u64)>) -> CallModel {
    run_to(c, reports, reports.len() as int)
}

/// The first `n` of the given pieces, put together in their order.
pub open spec fn joined(pieces: Seq<(Seq<u8>, u64)>, n: int) -> Seq<u8>
    decreases n,
{
    if n <= 0 {
        Seq::empty()
    } else {
        joined(pieces, n - 1) + pieces[n - 1].0
    }
}

/// The timing of an exchange in which every step succeeds: when the
/// connection was open, when the payload was out, when the daemon closed its
/// side, and when the connection was closed, in milliseconds from the start.
pub ghost struct Timing {
    pub connected_ms: u64,
    pub sent_ms: u64,
    pub ended_ms: u64,
    pub closed_ms: u64,
}

/// The reports of an exchange in which every step succeeds and the reply
/// comes in the given pieces, each with the time at which it was read.
pub open spec fn exchange(timing: Timing, pieces: Seq<(Seq<u8>, u64)>) -> Seq<(EventModel, u64)> {
    seq![
        (EventModel::Started, 0u64),
        (EventModel::Connected, timing.connected_ms),
        (EventModel::Sent, timing.sent_ms),
    ] + Seq::new(pieces.len(), |i: int| (EventModel::Data(pieces[i].0), pieces[i].1)) + seq![
        (EventModel::EndOfReply, timing.ended_ms),
        (EventModel::Closed, timing.closed_ms),
    ]
}

/// Every step of the exchange is reported before the deadline has passed,
/// and every step but the last while some time is left.
pub open spec fn in_time(limit_ms: u64, timing: Timing, pieces: Seq<(Seq<u8>, u64)>) -> bool {
    &&& timing.connected_ms < limit_ms
    &&& timing.sent_ms < limit_ms
    &&& forall|i: int| 0 <= i < pieces.len() ==> (#[trigger] pieces[i]).1 < limit_ms
    &&& timing.ended_ms <= limit_ms
}

/// Whatever is reported after the deadline fails a call that is under way
/// with a timeout, a reply that arrives late included, and the connection is
/// closed.
pub proof fn lemma_late_report_times_out(c: CallModel, event: EventModel, elapsed_ms: u64)
    requires
        c.state.in_flight(),
        elapsed_ms > c.limit_ms,
    ensures
        advance(c, event, elapsed_ms) == (
            StateModel::Failed(ClientError::Timeout { limit_ms: c.limit_ms }),
            Action::Close,
        ),
{
}

/// A call succeeds only out of the decoding state, and only with the
/// response that the whole reply denotes.
pub proof fn lemma_success_is_decoded(c: CallModel, event: EventModel, elapsed_ms: u64)
    requires
        !(c.state is Succeeded),
        advance(c, event, elapsed_ms).0 is Succeeded,
    ensures
        c.state is Decoding,
        decode_spec(c.state->Decoding_0) == Ok::<IdentityView, ProtocolError>(
            advance(c, event, elapsed_ms).0->Succeeded_0,
        ),
{
}

/// A call that has ended stays as it is, whatever is reported.
pub proof fn lemma_ended_stays(c: CallModel, event: EventModel, elapsed_ms: u64)
    requires
        c.state.terminal(),
    ensures
        advance(c, event, elapsed_ms) == (c.state, Action::Finish),
{
}

impl Phase {
    /// How far along a phase is: the phases in the order in which a call goes
    /// through them, the two ends last.
    pub open spec fn rank(self) -> nat {
        match self {
            Phase::Idle => 0,
            Phase::Connecting => 1,
            Phase::Sending => 2,
            Phase::AwaitingReply => 3,
            Phase::Decoding => 4,
            Phase::Succeeded => 5,
            Phase::Failed => 5,
        }
    }
}

/// A call never goes back: every report leaves it where it is or takes it
/// further, and a call that has ended stays ended.
pub proof fn lemma_moves_forward(c: CallModel, event: EventModel, elapsed_ms: u64)
    ensures
        c.state.phase().rank() <= advance(c, event, elapsed_ms).0.phase().rank(),
        c.state.terminal() ==> advance(c, event, elapsed_ms).0 == c.state,
{
}

/// A connection is opened once per call: only a call that has not begun
/// starts to connect, and nothing makes it connect again.
pub proof fn lemma_connects_once(c: CallModel, event: EventModel, elapsed_ms: u64)
    ensures
        ({
            let (next, action) = advance(c, event, elapsed_ms);
            (next is Connecting || action is Connect) ==> (c.state is Idle && event is Started)
        }),
{
}

/// When nothing is left to do, the call has ended.
pub proof fn lemma_finish_means_ended(c: CallModel, event: EventModel, elapsed_ms: u64)
    ensures
        advance(c, event, elapsed_ms).1 is Finish ==> advance(c, event, elapsed_ms).0.terminal(),
{
}

/// A call that is under way either goes on with the exchange or has the
/// connection closed: it never ends, nor starts to decode, with the
/// connection left open.
pub proof fn lemma_leaving_closes(c: CallModel, event: EventModel, elapsed_ms: u64)
    requires
        c.state.in_flight(),
    ensures
        ({
            let (next, action) = advance(c, event, elapsed_ms);
            ||| (c.state is Connecting && next is Sending && action is Send)
            ||| (c.state is Sending && next is AwaitingReply && action is Receive)
            ||| (c.state is AwaitingReply && next is AwaitingReply && action is Receive)
            ||| ((next is Failed || next is Decoding) && action == Action::Close)
        }),
{
}

/// No step is given more time than is left of the deadline, and none is
/// given no time at all.
pub proof fn lemma_budget_within_deadline(c: CallModel, event: EventModel, elapsed_ms: u64)
    ensures
        match advance(c, event, elapsed_ms).1 {
            Action::Connect { budget_ms } => budget_ms == c.limit_ms && budget_ms > 0,
            Action::Send { budget_ms, half_close } => 0 < budget_ms && budget_ms + elapsed_ms
                == c.limit_ms && half_close == (c.payload.len() > 0),
            Action::Receive { budget_ms } => 0 < budget_ms && budget_ms + elapsed_ms == c.limit_ms,
            _ => true,
        },
{
}

/// The first `n` pieces were each read while some time was left.
pub open spec fn pieces_in_time(limit_ms: u64, pieces: Seq<(Seq<u8>, u64)>, n: int) -> bool {
    forall|i: int| 0 <= i < n ==> (#[trigger] pieces[i]).1 < limit_ms
}

/// While the reply comes in, the call holds exactly the pieces read so far,
/// in their order, unless one of them came too late.
pub proof fn lemma_reply_assembles(
    c: CallModel,
    timing: Timing,
    pieces: Seq<(Seq<u8>, u64)>,
    n: int,
)
    requires
        c.state is Idle,
        timing.connected_ms < c.limit_ms,
        timing.sent_ms < c.limit_ms,
        0 <= n <= pieces.len(),
    ensures
        run_to(c, exchange(timing, pieces), 3 + n).state == (if pieces_in_time(
            c.limit_ms,
            pieces,
            n,
        ) {
            StateModel::AwaitingReply(joined(pieces, n))
        } else {
            StateModel::Failed(ClientError::Timeout { limit_ms: c.limit_ms })
        }),
        run_to(c, exchange(timing, pieces), 3 + n).limit_ms == c.limit_ms,
    decreases n,
{
    let reports = exchange(timing, pieces);
    if n == 0 {
        assert(run_to(c, reports, 0) == c);
        assert(run_to(c, reports, 1).state is Connecting);
        assert(run_to(c, reports, 2).state is Sending);
        assert(run_to(c, reports, 3).state == StateModel::AwaitingReply(Seq::empty()));
    } else {
        lemma_reply_assembles(c, timing, pieces, n - 1);
        assert(reports[3 + n - 1] == (EventModel::Data(pieces[n - 1].0), pieces[n - 1].1));
        if pieces_in_time(c.limit_ms, pieces, n - 1) {
            if pieces[n - 1].1 < c.limit_ms {
                assert(pieces_in_time(c.limit_ms, pieces, n));
            } else {
                assert(!pieces_in_time(c.limit_ms, pieces, n));
            }
        } else {
            assert(!pieces_in_time(c.limit_ms, pieces, n));
        }
    }
}

/// How an exchange ends in which no step is refused: as the whole reply
/// decides where every step was in time, and with a timeout otherwise.
pub open spec fn outcome(limit_ms: u64, timing: Timing, pieces: Seq<(Seq<u8>, u64)>) -> StateModel {
    if in_time(limit_ms, timing, pieces) {
        settle(joined(pieces, pieces.len() as int))
    } else {
        StateModel::Failed(ClientError::Timeout { limit_ms })
    }
}

/// An exchange in which no step is refused ends as the reply decides, with
/// the response that the whole reply denotes or with the fault that is wrong
/// with it, provided that every step was in time; and it ends with a timeout
/// if any step was not. Neither the request nor the pieces in which the
/// reply came have a say in it.
pub proof fn lemma_exchange_outcome(c: CallModel, timing: Timing, pieces: Seq<(Seq<u8>, u64)>)
    requires
        c.state is Idle,
    ensures
        run(c, exchange(timing, pieces)).state == outcome(c.limit_ms, timing, pieces),
{
    let reports = exchange(timing, pieces);
    let n = pieces.len() as int;
    let late = StateModel::Failed(ClientError::Timeout { limit_ms: c.limit_ms });
    assert(reports.len() == n + 5);
    assert(run_to(c, reports, 0) == c);
    if c.limit_ms == 0 {
        assert(run_to(c, reports, 1).state == late);
        lemma_ended_run(c, reports, 1, n + 5);
    } else if timing.connected_ms >= c.limit_ms {
        assert(run_to(c, reports, 1).state is Connecting);
        assert(run_to(c, reports, 2).state == late);
        lemma_ended_run(c, reports, 2, n + 5);
    } else if timing.sent_ms >= c.limit_ms {
        assert(run_to(c, reports, 1).state is Connecting);
        assert(run_to(c, reports, 2).state is Sending);
        assert(run_to(c, reports, 3).state == late);
        lemma_ended_run(c, reports, 3, n + 5);
    } else {
        lemma_reply_assembles(c, timing, pieces, n);
        assert(reports[n + 3] == (EventModel::EndOfReply, timing.ended_ms));
        assert(reports[n + 4] == (EventModel::Closed, timing.closed_ms));
        if !pieces_in_time(c.limit_ms, pieces, n) {
            lemma_ended_run(c, reports, n + 3, n + 5);
        } else if timing.ended_ms > c.limit_ms {
            assert(run_to(c, reports, n + 4).state == late);
            lemma_ended_run(c, reports, n + 4, n + 5);
        } else {
            assert(run_to(c, reports, n + 4).state == StateModel::Decoding(joined(pieces, n)));
            assert(run_to(c, reports, n + 5).state == settle(joined(pieces, n)));
        }
    }
}

/// A call that has ended after some of the reports is the same after more
/// of them.
pub proof fn lemma_ended_run(c: CallModel, reports: Seq<(EventModel, u64)>, from: int, to: int)
    requires
        0 <= from <= to,
        run_to(c, reports, from).state.terminal(),
    ensures
        run_to(c, reports, to) == run_to(c, reports, from),
    decreases to - from,
{
    if from < to {
        lemma_ended_run(c, reports, from, to - 1);
    }
}

/// A reply that is complete only after the deadline, or any step that takes
/// the call to the deadline before the reply is complete, ends the call with
/// a timeout: it never ends with a response.
pub proof fn lemma_late_exchange_times_out(
    c: CallModel,
    timing: Timing,
    pieces: Seq<(Seq<u8>, u64)>,
)
    requires
        c.state is Idle,
        !in_time(c.limit_ms, timing, pieces),
    ensures
        run(c, exchange(timing, pieces)).state == StateModel::Failed(
            ClientError::Timeout { limit_ms: c.limit_ms },
        ),
{
    lemma_exchange_outcome(c, timing, pieces);
}

/// Two transports that carry out a query each in its own time, for whatever
/// request and with the reply cut into whatever pieces, end with the same
/// outcome when the daemon gives them the same reply.
pub proof fn lemma_transports_agree(
    first: CallModel,
    first_timing: Timing,
    first_pieces: Seq<(Seq<u8>, u64)>,
    second: CallModel,
    second_timing: Timing,
    second_pieces: Seq<(Seq<u8>, u64)>,
)
    requires
        first.state is Idle,
        in_time(first.limit_ms, first_timing, first_pieces),
        second.state is Idle,
        in_time(second.limit_ms, second_timing, second_pieces),
        joined(first_pieces, first_pieces.len() as int) == joined(
            second_pieces,
            second_pieces.len() as int,
        ),
    ensures
        run(first, exchange(first_timing, first_pieces)).state == run(
            second,
            exchange(second_timing, second_pieces),
        ).state,
{
    lemma_exchange_outcome(first, first_timing, first_pieces);
    lemma_exchange_outcome(second, second_timing, second_pieces);
}

} // verus!
