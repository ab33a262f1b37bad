//! Connection session: the per-connection protocol state machine.
//!
//! One session owns one upgraded connection end to end. Its lifecycle is
//! `Connecting → AwaitingAuth → CheckingAuth → Authenticated → Closing →
//! Closed` (the two middle phases refine the unauthenticated state: first
//! waiting for the client's single authentication frame, then waiting for
//! the authenticator's verdict). The driver loop owns the I/O: it feeds each
//! event (a frame, the authenticator's verdict, a search outcome, the
//! heartbeat deadline) into [`Session::step`] and performs the returned
//! actions in order. `step` is specified exactly by [`spec_step`], so every
//! protocol decision — what is sent, when the timer is rearmed, when the
//! connection dies — is pinned down for every reachable state.
//!
//! Heartbeat liveness: the session keeps an `awaiting_ack` flag. Any inbound
//! text frame counts as liveness evidence and rearms the timer. When the
//! deadline elapses with evidence present, one probe is sent and the flag
//! cleared; when it elapses with none, the connection is declared dead. A
//! silent peer is thus detected after at most two timeout periods, and an
//! active one never sees a probe.

use vstd::prelude::*;

use crate::codec::{
    decode_inbound, encode_auth_error, encode_auth_success, encode_heartbeat_frame,
    encode_search_failure, encode_search_success, lemma_failure_round_trip,
    lemma_success_round_trip, spec_auth_error, spec_auth_success, spec_decode_inbound,
    spec_decode_response, spec_heartbeat_frame, spec_search_failure, spec_search_success,
    InboundModel, InboundMsg, SearchResponseModel,
};

verus! {

/// Where a session stands in its lifecycle.
#[derive(Debug, PartialEq, Eq, Structural, Clone, Copy)]
pub enum Phase {
    /// The upgrade handshake has not completed yet.
    Connecting,
    /// Waiting for the client's single authentication frame.
    AwaitingAuth,
    /// The authentication payload has been handed to the authenticator.
    CheckingAuth,
    /// Serving: racing inbound frames against the heartbeat deadline.
    Authenticated,
    /// The close handshake is being driven; nothing more is sent.
    Closing,
    /// The connection is released.
    Closed,
}

/// One event fed to the session by its driver loop.
#[derive(Debug, PartialEq, Eq)]
pub enum Event {
    /// The upgrade handshake completed.
    UpgradeDone,
    /// An inbound text frame.
    TextFrame(Vec<u8>),
    /// The authenticator's verdict on the payload it was handed.
    AuthVerdict(Result<(), Vec<u8>>),
    /// The outcome of the search the session asked for: the matched
    /// usernames in backend order, or a failure message.
    SearchDone(Result<Vec<Vec<u8>>, Vec<u8>>),
    /// A transport ping carrying a payload to echo.
    PingFrame(Vec<u8>),
    /// A transport pong.
    PongFrame,
    /// The peer sent a close frame.
    CloseFrame,
    /// The peer sent a frame kind the transport does not support here.
    UnsupportedFrame,
    /// The stream ended or failed.
    StreamEnd,
    /// The heartbeat deadline elapsed.
    DeadlineElapsed,
    /// The close handshake finished (well or not; close is terminal).
    CloseDone,
}

/// Ghost mirror of `Event` over byte sequences.
pub enum EventModel {
    UpgradeDone,
    TextFrame(Seq<u8>),
    AuthVerdict(Result<(), Seq<u8>>),
    SearchDone(Result<Seq<Seq<u8>>, Seq<u8>>),
    PingFrame(Seq<u8>),
    PongFrame,
    CloseFrame,
    UnsupportedFrame,
    StreamEnd,
    DeadlineElapsed,
    CloseDone,
}

pub open spec fn event_view(ev: Event) -> EventModel {
    match ev {
        Event::UpgradeDone => EventModel::UpgradeDone,
        Event::TextFrame(f) => EventModel::TextFrame(f@),
        Event::AuthVerdict(v) => EventModel::AuthVerdict(
            match v {
                Ok(u) => Ok(u),
                Err(e) => Err(e@),
            },
        ),
        Event::SearchDone(v) => EventModel::SearchDone(
            match v {
                Ok(hits) => Ok(hits.deep_view()),
                Err(e) => Err(e@),
            },
        ),
        Event::PingFrame(p) => EventModel::PingFrame(p@),
        Event::PongFrame => EventModel::PongFrame,
        Event::CloseFrame => EventModel::CloseFrame,
        Event::UnsupportedFrame => EventModel::UnsupportedFrame,
        Event::StreamEnd => EventModel::StreamEnd,
        Event::DeadlineElapsed => EventModel::DeadlineElapsed,
        Event::CloseDone => EventModel::CloseDone,
    }
}

/// One action the driver loop must perform, in order.
#[derive(Debug, PartialEq, Eq, Clone)]
pub enum Action {
    /// Hand the authentication payload to the authenticator.
    Authenticate(Vec<u8>),
    /// Submit one outbound text frame.
    SendFrame(Vec<u8>),
    /// Answer a transport ping with a pong carrying the same payload.
    SendPong(Vec<u8>),
    /// Ask the search backend for usernames matching the prefix, then feed
    /// the outcome back as `Event::SearchDone`.
    StartSearch { id: Vec<u8>, prefix: Vec<u8> },
    /// Rearm the heartbeat deadline one timeout period from now.
    SetTimer,
    /// Drive the best-effort close handshake, then feed `Event::CloseDone`.
    Close,
}

/// Ghost mirror of `Action` over byte sequences.
pub enum ActionModel {
    Authenticate(Seq<u8>),
    SendFrame(Seq<u8>),
    SendPong(Seq<u8>),
    StartSearch { id: Seq<u8>, prefix: Seq<u8> },
    SetTimer,
    Close,
}

pub open spec fn action_view(a: Action) -> ActionModel {
    match a {
        Action::Authenticate(p) => ActionModel::Authenticate(p@),
        Action::SendFrame(f) => ActionModel::SendFrame(f@),
        Action::SendPong(p) => ActionModel::SendPong(p@),
        Action::StartSearch { id, prefix } => ActionModel::StartSearch {
            id: id@,
            prefix: prefix@,
        },
        Action::SetTimer => ActionModel::SetTimer,
        Action::Close => ActionModel::Close,
    }
}

pub open spec fn actions_view(v: Seq<Action>) -> Seq<ActionModel> {
    Seq::new(v.len(), |i: int| action_view(v[i]))
}

/// The session's abstract state.
pub struct SessionModel {
    pub phase: Phase,
    /// Liveness evidence seen since the last probe (or since entering the
    /// serving state).
    pub awaiting_ack: bool,
    /// The correlation id of the in-flight search query, if one is pending.
    pub pending_search: Option<Seq<u8>>,
}

/// A pending search exists only while serving.
pub open spec fn wf(s: SessionModel) -> bool {
    s.pending_search is Some ==> s.phase == Phase::Authenticated
}

/// Which events the driver may feed in which state. This encodes the serve
/// loop's discipline: frames are processed one at a time, a search blocks
/// the loop until its outcome is fed back, the authenticator is consulted
/// exactly between the first frame and its verdict, and no timer runs
/// before the serving state.
pub open spec fn enabled(s: SessionModel, ev: EventModel) -> bool {
    match s.phase {
        Phase::Connecting => ev is UpgradeDone || ev is StreamEnd,
        Phase::AwaitingAuth => ev is TextFrame || ev is PingFrame || ev is PongFrame
            || ev is CloseFrame || ev is UnsupportedFrame || ev is StreamEnd,
        Phase::CheckingAuth => ev is AuthVerdict,
        Phase::Authenticated => if s.pending_search is Some {
            ev is SearchDone
        } else {
            ev is TextFrame || ev is PingFrame || ev is PongFrame || ev is CloseFrame
                || ev is UnsupportedFrame || ev is StreamEnd || ev is DeadlineElapsed
        },
        Phase::Closing => !(ev is UpgradeDone || ev is AuthVerdict || ev is SearchDone),
        Phase::Closed => !(ev is UpgradeDone || ev is AuthVerdict || ev is SearchDone),
    }
}

/// The transition function: next state and the ordered actions to perform.
pub open spec fn spec_step(s: SessionModel, ev: EventModel) -> (SessionModel, Seq<ActionModel>) {
    match s.phase {
        Phase::Connecting => match ev {
            EventModel::UpgradeDone => (
                SessionModel { phase: Phase::AwaitingAuth, ..s },
                Seq::empty(),
            ),
            _ => (SessionModel { phase: Phase::Closed, ..s }, Seq::empty()),
        },
        Phase::AwaitingAuth => match ev {
            EventModel::TextFrame(payload) => (
                SessionModel { phase: Phase::CheckingAuth, ..s },
                seq![ActionModel::Authenticate(payload)],
            ),
            _ => (SessionModel { phase: Phase::Closing, ..s }, seq![ActionModel::Close]),
        },
        Phase::CheckingAuth => match ev {
            EventModel::AuthVerdict(Ok(_)) => (
                SessionModel { phase: Phase::Authenticated, awaiting_ack: true, ..s },
                seq![
                    ActionModel::SendFrame(spec_auth_success()),
                    ActionModel::SetTimer,
                ],
            ),
            EventModel::AuthVerdict(Err(reason)) => (
                SessionModel { phase: Phase::Closing, ..s },
                seq![
                    ActionModel::SendFrame(spec_auth_error(reason)),
                    ActionModel::Close,
                ],
            ),
            _ => (SessionModel { phase: Phase::Closing, ..s }, seq![ActionModel::Close]),
        },
        Phase::Authenticated => match ev {
            EventModel::TextFrame(text) => {
                let s1 = SessionModel { awaiting_ack: true, ..s };
                match spec_decode_inbound(text) {
                    Some(InboundModel::Query { id, prefix }) => (
                        SessionModel { pending_search: Some(id), ..s1 },
                        seq![ActionModel::SetTimer, ActionModel::StartSearch { id, prefix }],
                    ),
                    _ => (s1, seq![ActionModel::SetTimer]),
                }
            },
            EventModel::SearchDone(outcome) => {
                let id = s.pending_search->Some_0;
                let frame = match outcome {
                    Ok(hits) => spec_search_success(id, hits),
                    Err(msg) => spec_search_failure(id, msg),
                };
                (
                    SessionModel { pending_search: None, ..s },
                    seq![ActionModel::SendFrame(frame)],
                )
            },
            EventModel::PingFrame(p) => (s, seq![ActionModel::SendPong(p)]),
            EventModel::PongFrame => (s, Seq::empty()),
            EventModel::DeadlineElapsed => if s.awaiting_ack {
                (
                    SessionModel { awaiting_ack: false, ..s },
                    seq![
                        ActionModel::SendFrame(spec_heartbeat_frame()),
                        ActionModel::SetTimer,
                    ],
                )
            } else {
                (SessionModel { phase: Phase::Closing, ..s }, seq![ActionModel::Close])
            },
            _ => (SessionModel { phase: Phase::Closing, ..s }, seq![ActionModel::Close]),
        },
        Phase::Closing => match ev {
            EventModel::CloseDone => (
                SessionModel { phase: Phase::Closed, ..s },
                Seq::empty(),
            ),
            _ => (s, Seq::empty()),
        },
        Phase::Closed => (s, Seq::empty()),
    }
}

/// The state of a fresh, not yet upgraded connection.
pub open spec fn init_model() -> SessionModel {
    SessionModel { phase: Phase::Connecting, awaiting_ack: true, pending_search: None }
}

/// One per-connection session.
pub struct Session {
    phase: Phase,
    awaiting_ack: bool,
    pending_search: Option<Vec<u8>>,
}

impl Session {
    /// The session's abstract state.
    pub closed spec fn model(&self) -> SessionModel {
        SessionModel {
            phase: self.phase,
            awaiting_ack: self.awaiting_ack,
            pending_search: match self.pending_search {
                Some(id) => Some(id@),
                None => None,
            },
        }
    }

    pub fn new() -> (s: Session)
        ensures
            s.model() == init_model(),
    {
        Session { phase: Phase::Connecting, awaiting_ack: true, pending_search: None }
    }

    /// The current lifecycle phase.
    pub fn phase(&self) -> (p: Phase)
        ensures
            p == self.model().phase,
    {
        self.phase
    }

    /// Feed one event; returns the actions the driver must perform, in
    /// order.
    pub fn step(&mut self, ev: Event) -> (acts: Vec<Action>)
        requires
            wf(old(self).model()),
            enabled(old(self).model(), event_view(ev)),
        ensures
            final(self).model() == spec_step(old(self).model(), event_view(ev)).0,
            actions_view(acts@) == spec_step(old(self).model(), event_view(ev)).1,
            wf(final(self).model()),
    {
        let ghost target = spec_step(old(self).model(), event_view(ev));
        let mut acts: Vec<Action> = Vec::new();
        match self.phase {
            Phase::Connecting => {
                match ev {
                    Event::UpgradeDone => {
                        self.phase = Phase::AwaitingAuth;
                    },
                    _ => {
                        self.phase = Phase::Closed;
                    },
                }
            },
            Phase::AwaitingAuth => {
                match ev {
                    Event::TextFrame(payload) => {
                        self.phase = Phase::CheckingAuth;
                        acts.push(Action::Authenticate(payload));
                    },
                    _ => {
                        self.phase = Phase::Closing;
                        acts.push(Action::Close);
                    },
                }
            },
            Phase::CheckingAuth => {
                match ev {
                    Event::AuthVerdict(Ok(_)) => {
                        self.phase = Phase::Authenticated;
                        self.awaiting_ack = true;
                        acts.push(Action::SendFrame(encode_auth_success()));
                        acts.push(Action::SetTimer);
                    },
                    Event::AuthVerdict(Err(reason)) => {
                        self.phase = Phase::Closing;
                        acts.push(Action::SendFrame(encode_auth_error(&reason)));
                        acts.push(Action::Close);
                    },
                    _ => {
                        self.phase = Phase::Closing;
                        acts.push(Action::Close);
                    },
                }
            },
            Phase::Authenticated => {
                match ev {
                    Event::TextFrame(text) => {
                        self.awaiting_ack = true;
                        acts.push(Action::SetTimer);
                        match decode_inbound(&text) {
                            Some(InboundMsg::Query { id, prefix }) => {
                                let id_for_action = id.clone();
                                proof {
                                    assert(id_for_action@ == id@);
                                }
                                self.pending_search = Some(id);
                                acts.push(Action::StartSearch { id: id_for_action, prefix });
                            },
                            _ => {},
                        }
                    },
                    Event::SearchDone(outcome) => {
                        let mut id_opt: Option<Vec<u8>> = None;
                        core::mem::swap(&mut id_opt, &mut self.pending_search);
                        let id = match id_opt {
                            Some(id) => id,
                            None => vstd::pervasive::unreached(),
                        };
                        let frame = match outcome {
                            Ok(hits) => encode_search_success(&id, &hits),
                            Err(msg) => encode_search_failure(&id, &msg),
                        };
                        acts.push(Action::SendFrame(frame));
                    },
                    Event::PingFrame(p) => {
                        acts.push(Action::SendPong(p));
                    },
                    Event::PongFrame => {},
                    Event::DeadlineElapsed => {
                        if self.awaiting_ack {
                            self.awaiting_ack = false;
                            acts.push(Action::SendFrame(encode_heartbeat_frame()));
                            acts.push(Action::SetTimer);
                        } else {
                            self.phase = Phase::Closing;
                            acts.push(Action::Close);
                        }
                    },
                    _ => {
                        self.phase = Phase::Closing;
                        acts.push(Action::Close);
                    },
                }
            },
            Phase::Closing => {
                match ev {
                    Event::CloseDone => {
                        self.phase = Phase::Closed;
                    },
                    _ => {},
                }
            },
            Phase::Closed => {},
        }
        proof {
            assert(actions_view(acts@) =~= target.1);
        }
        acts
    }
}

// ---------------------------------------------------------------------------
// Runs: folding a sequence of events through the machine.

/// The state after feeding `evs` in order.
pub open spec fn run(s: SessionModel, evs: Seq<EventModel>) -> SessionModel
    decreases evs.len(),
{
    if evs.len() == 0 {
        s
    } else {
        run(spec_step(s, evs[0]).0, evs.skip(1))
    }
}

/// Every event of `evs` is enabled when it is fed.
pub open spec fn run_valid(s: SessionModel, evs: Seq<EventModel>) -> bool
    decreases evs.len(),
{
    evs.len() == 0 || (enabled(s, evs[0]) && run_valid(spec_step(s, evs[0]).0, evs.skip(1)))
}

/// Every action emitted while feeding `evs`, in order.
pub open spec fn run_out(s: SessionModel, evs: Seq<EventModel>) -> Seq<ActionModel>
    decreases evs.len(),
{
    if evs.len() == 0 {
        Seq::empty()
    } else {
        spec_step(s, evs[0]).1 + run_out(spec_step(s, evs[0]).0, evs.skip(1))
    }
}

// ---------------------------------------------------------------------------
// Protocol laws.

/// How far along the lifecycle a phase is.
pub open spec fn phase_rank(p: Phase) -> int {
    match p {
        Phase::Connecting => 0,
        Phase::AwaitingAuth => 1,
        Phase::CheckingAuth => 2,
        Phase::Authenticated => 3,
        Phase::Closing => 4,
        Phase::Closed => 5,
    }
}

/// The lifecycle only moves forward. In particular a session that has
/// authenticated never returns to an unauthenticated phase, and since the
/// authenticator is consulted only on the move from `AwaitingAuth` to
/// `CheckingAuth`, it is consulted at most once per connection.
pub proof fn lemma_phase_monotone(s: SessionModel, ev: EventModel)
    ensures
        phase_rank(spec_step(s, ev).0.phase) >= phase_rank(s.phase),
        spec_step(s, ev).1.contains(ActionModel::Authenticate(ev->TextFrame_0))
            ==> s.phase == Phase::AwaitingAuth && spec_step(s, ev).0.phase == Phase::CheckingAuth,
{
}

/// Stepping an enabled event preserves well-formedness.
pub proof fn lemma_wf_preserved(s: SessionModel, ev: EventModel)
    requires
        wf(s),
        enabled(s, ev),
    ensures
        wf(spec_step(s, ev).0),
{
}

/// An accepted authentication: the very next frame sent to the client is
/// the success acknowledgment, and the session enters the serving state
/// with the heartbeat timer armed.
pub proof fn lemma_auth_accept(s: SessionModel)
    requires
        s.phase == Phase::CheckingAuth,
    ensures
        ({
            let (s1, out) = spec_step(s, EventModel::AuthVerdict(Ok(())));
            &&& s1.phase == Phase::Authenticated
            &&& s1.awaiting_ack
            &&& out =~= seq![
                ActionModel::SendFrame(spec_auth_success()),
                ActionModel::SetTimer,
            ]
        }),
{
}

/// A rejected authentication: the client receives exactly one failure frame
/// carrying the rejection reason, the connection is closed, and nothing is
/// ever sent afterwards (see `lemma_closing_quiet`).
pub proof fn lemma_auth_reject(s: SessionModel, reason: Seq<u8>)
    requires
        s.phase == Phase::CheckingAuth,
    ensures
        ({
            let (s1, out) = spec_step(s, EventModel::AuthVerdict(Err(reason)));
            &&& s1.phase == Phase::Closing
            &&& out =~= seq![
                ActionModel::SendFrame(spec_auth_error(reason)),
                ActionModel::Close,
            ]
        }),
{
}

/// Once a session is closing (or closed) it emits nothing more, whatever
/// else arrives, and never leaves the closing phases.
pub proof fn lemma_closing_quiet(s: SessionModel, evs: Seq<EventModel>)
    requires
        s.phase == Phase::Closing || s.phase == Phase::Closed,
    ensures
        run_out(s, evs) == Seq::<ActionModel>::empty(),
        run(s, evs).phase == Phase::Closing || run(s, evs).phase == Phase::Closed,
    decreases evs.len(),
{
    if evs.len() > 0 {
        let s1 = spec_step(s, evs[0]).0;
        lemma_closing_quiet(s1, evs.skip(1));
        assert(run_out(s, evs) =~= Seq::<ActionModel>::empty());
    }
}

/// A silent peer: if the heartbeat deadline elapses twice in a row with no
/// traffic in between, the session sends exactly one liveness probe at the
/// first deadline and declares the connection dead at the second.
pub proof fn lemma_silent_connection_closes(s: SessionModel)
    requires
        s.phase == Phase::Authenticated,
        s.awaiting_ack,
        s.pending_search is None,
    ensures
        ({
            let evs = seq![EventModel::DeadlineElapsed, EventModel::DeadlineElapsed];
            &&& run_valid(s, evs)
            &&& run(s, evs).phase == Phase::Closing
            &&& run_out(s, evs) =~= seq![
                ActionModel::SendFrame(spec_heartbeat_frame()),
                ActionModel::SetTimer,
                ActionModel::Close,
            ]
        }),
{
    let de = EventModel::DeadlineElapsed;
    let evs = seq![de, de];
    let one = seq![de];
    let none = Seq::<EventModel>::empty();
    assert(evs[0] == de);
    assert(one[0] == de);
    assert(evs.skip(1) =~= one);
    assert(one.skip(1) =~= none);
    let s1 = spec_step(s, de).0;
    let s2 = spec_step(s1, de).0;
    assert(s1.phase == Phase::Authenticated && !s1.awaiting_ack && s1.pending_search is None);
    assert(s2.phase == Phase::Closing);
    assert(run(s1, one) == run(s2, none));
    assert(run(s2, none) == s2);
    assert(run(s, evs) == s2);
    assert(run_valid(s2, none));
    assert(run_valid(s1, one));
    assert(run_valid(s, evs));
    assert(run_out(s2, none) =~= Seq::<ActionModel>::empty());
    assert(run_out(s1, one) == spec_step(s1, de).1 + run_out(s2, none));
    assert(run_out(s, evs) == spec_step(s, de).1 + run_out(s1, one));
    assert(run_out(s, evs) =~= seq![
        ActionModel::SendFrame(spec_heartbeat_frame()),
        ActionModel::SetTimer,
        ActionModel::Close,
    ]);
}

/// No search response frame can be mistaken for the heartbeat probe.
pub proof fn lemma_response_is_not_probe(id: Seq<u8>, hits: Seq<Seq<u8>>, msg: Seq<u8>)
    ensures
        spec_search_success(id, hits) != spec_heartbeat_frame(),
        spec_search_failure(id, msg) != spec_heartbeat_frame(),
{
    assert(spec_search_success(id, hits)[2] == 105u8);
    assert(spec_search_failure(id, msg)[2] == 105u8);
    assert(spec_heartbeat_frame()[2] == 116u8);
}

/// An action that keeps the connection open and silent on the liveness
/// side: not a close, and not the heartbeat probe.
pub open spec fn keeps_open(a: ActionModel) -> bool {
    &&& !(a is Close)
    &&& a != ActionModel::SendFrame(spec_heartbeat_frame())
}

/// An active connection: while every event in a window is application
/// traffic (a text frame, a transport ping or pong, or the outcome of a
/// search the session requested), the session stays in the serving state,
/// never closes, and never sends a liveness probe.
pub proof fn lemma_active_connection_stays_open(s: SessionModel, evs: Seq<EventModel>)
    requires
        s.phase == Phase::Authenticated,
        run_valid(s, evs),
        forall|i: int| 0 <= i < evs.len() ==> (#[trigger] evs[i] is TextFrame
            || evs[i] is SearchDone || evs[i] is PingFrame || evs[i] is PongFrame),
    ensures
        run(s, evs).phase == Phase::Authenticated,
        forall|k: int| 0 <= k < run_out(s, evs).len() ==> keeps_open(#[trigger] run_out(s, evs)[k]),
    decreases evs.len(),
{
    if evs.len() > 0 {
        let ev0 = evs[0];
        let s1 = spec_step(s, ev0).0;
        let out0 = spec_step(s, ev0).1;
        assert(s1.phase == Phase::Authenticated);
        assert forall|k: int| 0 <= k < out0.len() implies keeps_open(out0[k]) by {
            match ev0 {
                EventModel::SearchDone(outcome) => {
                    let id = s.pending_search->Some_0;
                    match outcome {
                        Ok(hits) => lemma_response_is_not_probe(id, hits, Seq::empty()),
                        Err(msg) => lemma_response_is_not_probe(id, Seq::empty(), msg),
                    }
                },
                _ => {},
            }
        }
        lemma_active_connection_stays_open(s1, evs.skip(1));
        assert(run_out(s, evs) == out0 + run_out(s1, evs.skip(1)));
        assert forall|k: int| 0 <= k < run_out(s, evs).len() implies keeps_open(
            run_out(s, evs)[k],
        ) by {
            if k < out0.len() {
                assert(run_out(s, evs)[k] == out0[k]);
            } else {
                assert(run_out(s, evs)[k] == run_out(s1, evs.skip(1))[k - out0.len()]);
            }
        }
    }
}

/// The id of a decoded search response.
pub open spec fn response_model_id(r: SearchResponseModel) -> Seq<u8> {
    match r {
        SearchResponseModel::Success { id, hits } => id,
        SearchResponseModel::Failure { id, error } => id,
    }
}

/// Whatever the backend outcome, the session answers the pending query with
/// exactly one response frame; that frame decodes back to a response that
/// carries the query's own correlation id, and the pending query is
/// settled (so no second response can follow).
pub proof fn lemma_search_response_correlated(
    s: SessionModel,
    outcome: Result<Seq<Seq<u8>>, Seq<u8>>,
)
    requires
        s.phase == Phase::Authenticated,
        s.pending_search is Some,
    ensures
        ({
            let id = s.pending_search->Some_0;
            let (s1, out) = spec_step(s, EventModel::SearchDone(outcome));
            &&& out.len() == 1
            &&& out[0] is SendFrame
            &&& (outcome matches Ok(hits) ==> out[0]
                == ActionModel::SendFrame(spec_search_success(id, hits)))
            &&& (outcome matches Err(msg) ==> out[0]
                == ActionModel::SendFrame(spec_search_failure(id, msg)))
            &&& spec_decode_response(out[0]->SendFrame_0) matches Some(r)
                && response_model_id(r) == id
            &&& s1.pending_search is None
            &&& s1.phase == Phase::Authenticated
        }),
{
    let id = s.pending_search->Some_0;
    match outcome {
        Ok(hits) => lemma_success_round_trip(id, hits),
        Err(msg) => lemma_failure_round_trip(id, msg),
    }
}

/// How many actions of `out` consult the authenticator.
pub open spec fn count_auth(out: Seq<ActionModel>) -> int
    decreases out.len(),
{
    if out.len() == 0 {
        0
    } else {
        (if out[0] is Authenticate { 1int } else { 0int }) + count_auth(out.skip(1))
    }
}

/// Counting distributes over concatenation.
pub proof fn lemma_count_auth_add(a: Seq<ActionModel>, b: Seq<ActionModel>)
    ensures
        count_auth(a + b) == count_auth(a) + count_auth(b),
    decreases a.len(),
{
    if a.len() == 0 {
        assert(a + b =~= b);
    } else {
        assert((a + b)[0] == a[0]);
        assert((a + b).skip(1) =~= a.skip(1) + b);
        lemma_count_auth_add(a.skip(1), b);
    }
}

/// Once the session is past the unauthenticated phases, no run ever
/// consults the authenticator again.
pub proof fn lemma_no_auth_after_auth(s: SessionModel, evs: Seq<EventModel>)
    requires
        phase_rank(s.phase) >= 2,
    ensures
        count_auth(run_out(s, evs)) == 0,
    decreases evs.len(),
{
    if evs.len() > 0 {
        let (s1, out0) = spec_step(s, evs[0]);
        lemma_phase_monotone(s, evs[0]);
        lemma_no_auth_after_auth(s1, evs.skip(1));
        assert(count_auth(out0) == 0) by {
            assert(forall|k: int| 0 <= k < out0.len() ==> !(#[trigger] out0[k] is Authenticate));
            lemma_count_auth_only(out0);
        }
        lemma_count_auth_add(out0, run_out(s1, evs.skip(1)));
    }
}

/// A list with no authenticate action counts zero.
proof fn lemma_count_auth_only(out: Seq<ActionModel>)
    requires
        forall|k: int| 0 <= k < out.len() ==> !(#[trigger] out[k] is Authenticate),
    ensures
        count_auth(out) == 0,
    decreases out.len(),
{
    if out.len() > 0 {
        assert(forall|k: int| 0 <= k < out.skip(1).len() ==> #[trigger] out.skip(1)[k]
            == out[k + 1]);
        lemma_count_auth_only(out.skip(1));
    }
}

/// A connection never has more than one authentication attempt: whatever
/// events its driver feeds it, a session consults the authenticator at most
/// once over its whole lifetime.
pub proof fn lemma_auth_at_most_once(s: SessionModel, evs: Seq<EventModel>)
    ensures
        count_auth(run_out(s, evs)) <= 1,
        phase_rank(s.phase) >= 2 ==> count_auth(run_out(s, evs)) == 0,
    decreases evs.len(),
{
    if phase_rank(s.phase) >= 2 {
        lemma_no_auth_after_auth(s, evs);
    } else if evs.len() > 0 {
        let (s1, out0) = spec_step(s, evs[0]);
        lemma_auth_at_most_once(s1, evs.skip(1));
        lemma_count_auth_add(out0, run_out(s1, evs.skip(1)));
        if s.phase == Phase::AwaitingAuth && evs[0] is TextFrame {
            // the one consultation; afterwards the phase is past rank 1
            assert(out0.len() == 1 && out0[0] is Authenticate);
            assert(out0.skip(1) =~= Seq::<ActionModel>::empty());
            assert(count_auth(out0.skip(1)) == 0);
            assert(count_auth(out0) == 1);
            lemma_no_auth_after_auth(s1, evs.skip(1));
        } else {
            assert(count_auth(out0) == 0) by {
                assert(forall|k: int| 0 <= k < out0.len() ==> !(#[trigger] out0[k] is Authenticate));
                lemma_count_auth_only(out0);
            }
        }
    }
}

/// A search query opens exactly one in-flight search, and nothing else
/// does: a step asks the backend exactly when a well-formed query frame
/// arrives with no search pending, and the pending id it keeps is the id
/// the backend was asked about.
pub proof fn lemma_one_search_per_query(s: SessionModel, text: Seq<u8>)
    requires
        s.phase == Phase::Authenticated,
        s.pending_search is None,
    ensures
        ({
            let (s1, out) = spec_step(s, EventModel::TextFrame(text));
            match spec_decode_inbound(text) {
                Some(InboundModel::Query { id, prefix }) => {
                    &&& out =~= seq![
                        ActionModel::SetTimer,
                        ActionModel::StartSearch { id, prefix },
                    ]
                    &&& s1.pending_search == Some(id)
                },
                _ => {
                    &&& out =~= seq![ActionModel::SetTimer]
                    &&& s1.pending_search is None
                },
            }
        }),
{
}

/// How many actions of `out` ask the backend for a search.
pub open spec fn count_starts(out: Seq<ActionModel>) -> int
    decreases out.len(),
{
    if out.len() == 0 {
        0
    } else {
        (if out[0] is StartSearch { 1int } else { 0int }) + count_starts(out.skip(1))
    }
}

/// How many events of `evs` complete a search.
pub open spec fn count_done(evs: Seq<EventModel>) -> int
    decreases evs.len(),
{
    if evs.len() == 0 {
        0
    } else {
        (if evs[0] is SearchDone { 1int } else { 0int }) + count_done(evs.skip(1))
    }
}

/// Counting distributes over concatenation.
pub proof fn lemma_count_starts_add(a: Seq<ActionModel>, b: Seq<ActionModel>)
    ensures
        count_starts(a + b) == count_starts(a) + count_starts(b),
    decreases a.len(),
{
    if a.len() == 0 {
        assert(a + b =~= b);
    } else {
        assert((a + b)[0] == a[0]);
        assert((a + b).skip(1) =~= a.skip(1) + b);
        lemma_count_starts_add(a.skip(1), b);
    }
}

/// One step's bookkeeping: the searches it starts, less the one a
/// `SearchDone` settles, is exactly the change in the pending query.
pub proof fn lemma_step_search_balance(s: SessionModel, ev: EventModel)
    requires
        wf(s),
        enabled(s, ev),
    ensures
        ({
            let (s1, out) = spec_step(s, ev);
            count_starts(out) - (if ev is SearchDone { 1int } else { 0int })
                == (if s1.pending_search is Some { 1int } else { 0int })
                    - (if s.pending_search is Some { 1int } else { 0int })
        }),
{
    let (s1, out) = spec_step(s, ev);
    match s.phase {
        Phase::Authenticated => match ev {
            EventModel::TextFrame(text) => {
                match spec_decode_inbound(text) {
                    Some(InboundModel::Query { id, prefix }) => {
                        assert(out =~= seq![
                            ActionModel::SetTimer,
                            ActionModel::StartSearch { id, prefix },
                        ]);
                        assert(out.skip(1) =~= seq![ActionModel::StartSearch { id, prefix }]);
                        assert(out.skip(1).skip(1) =~= Seq::<ActionModel>::empty());
                        assert(count_starts(out.skip(1).skip(1)) == 0);
                        assert(out.skip(1)[0] is StartSearch);
                        assert(count_starts(out.skip(1)) == 1);
                        assert(!(out[0] is StartSearch));
                        assert(count_starts(out) == 1);
                    },
                    _ => {
                        assert(out =~= seq![ActionModel::SetTimer]);
                        assert(out.skip(1) =~= Seq::<ActionModel>::empty());
                        assert(count_starts(out.skip(1)) == 0);
                        assert(!(out[0] is StartSearch));
                        assert(count_starts(out) == 0);
                    },
                }
            },
            _ => {
                lemma_count_starts_none(out);
            },
        },
        _ => {
            lemma_count_starts_none(out);
        },
    }
}

/// A list with no search-start action counts zero.
proof fn lemma_count_starts_none(out: Seq<ActionModel>)
    requires
        forall|k: int| 0 <= k < out.len() ==> !(#[trigger] out[k] is StartSearch),
    ensures
        count_starts(out) == 0,
    decreases out.len(),
{
    if out.len() > 0 {
        assert(forall|k: int| 0 <= k < out.skip(1).len() ==> #[trigger] out.skip(1)[k]
            == out[k + 1]);
        lemma_count_starts_none(out.skip(1));
    }
}

/// Every search query is answered exactly once: over any valid run, the
/// number of searches started, less the number completed, equals the change
/// in the pending query — so a run that starts and ends with no query in
/// flight completes exactly as many searches as it starts, and (by
/// `lemma_search_response_correlated`) each completion produces exactly one
/// response frame.
pub proof fn lemma_search_conservation(s: SessionModel, evs: Seq<EventModel>)
    requires
        wf(s),
        run_valid(s, evs),
    ensures
        count_starts(run_out(s, evs)) - count_done(evs)
            == (if run(s, evs).pending_search is Some { 1int } else { 0int })
                - (if s.pending_search is Some { 1int } else { 0int }),
    decreases evs.len(),
{
    if evs.len() > 0 {
        let (s1, out0) = spec_step(s, evs[0]);
        lemma_step_search_balance(s, evs[0]);
        lemma_wf_preserved(s, evs[0]);
        lemma_search_conservation(s1, evs.skip(1));
        lemma_count_starts_add(out0, run_out(s1, evs.skip(1)));
    }
}

} // verus!
