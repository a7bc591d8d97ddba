//! The session layer: what the controller does with each message of a
//! worker's connection.

use crate::agents::{AgentInfo, AgentView};
use crate::deps::{
    is_uuid_text, items_view, json_document, json_flag_at, json_flags, json_integer_at, json_integers, json_list_at,
    json_lists, json_string_at, json_strings, lookup, mint_uuid, now_millis, parse_json,
};
use crate::dispatch::{dispatched_view, Dispatched, DispatchedView, Lease, LeaseView};
use crate::jobs::JobStatus;
use crate::state::{token_length, AppState, StateView};
use crate::text::{contains_name, opt_view, str_eq};
use vstd::prelude::*;

verus! {

/// A message from a worker, as far as the controller reads it. A field is
/// `None` where the message lacks it or holds a value of another type.
#[derive(Debug)]
pub enum WorkerMessage {
    Register {
        token: Option<String>,
        id: Option<String>,
        name: Option<String>,
        concurrency: Option<u64>,
        /// The strings among the items of the message's encoder list.
        encoders: Vec<String>,
    },
    Heartbeat { id: Option<String>, mem_used: Option<u64>, mem_total: Option<u64> },
    Progress { job_id: Option<String> },
    Complete { job_id: Option<String>, agent_id: Option<String>, success: Option<bool> },
    /// Anything else: no JSON, no type, or a type the controller ignores.
    Other,
}

pub enum WorkerMessageView {
    Register {
        token: Option<Seq<char>>,
        id: Option<Seq<char>>,
        name: Option<Seq<char>>,
        concurrency: Option<u64>,
        encoders: Seq<Seq<char>>,
    },
    Heartbeat { id: Option<Seq<char>>, mem_used: Option<u64>, mem_total: Option<u64> },
    Progress { job_id: Option<Seq<char>> },
    Complete { job_id: Option<Seq<char>>, agent_id: Option<Seq<char>>, success: Option<bool> },
    Other,
}

impl View for WorkerMessage {
    type V = WorkerMessageView;

    open spec fn view(&self) -> WorkerMessageView {
        match *self {
            WorkerMessage::Register { token, id, name, concurrency, encoders } => {
                WorkerMessageView::Register {
                    token: opt_view(token),
                    id: opt_view(id),
                    name: opt_view(name),
                    concurrency: concurrency,
                    encoders: encoders.deep_view(),
                }
            },
            WorkerMessage::Heartbeat { id, mem_used, mem_total } => WorkerMessageView::Heartbeat {
                id: opt_view(id),
                mem_used: mem_used,
                mem_total: mem_total,
            },
            WorkerMessage::Progress { job_id } => WorkerMessageView::Progress {
                job_id: opt_view(job_id),
            },
            WorkerMessage::Complete { job_id, agent_id, success } => WorkerMessageView::Complete {
                job_id: opt_view(job_id),
                agent_id: opt_view(agent_id),
                success: success,
            },
            WorkerMessage::Other => WorkerMessageView::Other,
        }
    }
}

/// A message from the controller to a worker.
#[derive(Debug)]
pub enum ServerMessage {
    /// Sent once when a connection is accepted.
    Hello,
    Registered { id: String },
    /// Followed by the end of the session.
    Error { error: String },
    Lease(Lease),
}

pub enum ServerMessageView {
    Hello,
    Registered { id: Seq<char> },
    Error { error: Seq<char> },
    Lease(LeaseView),
}

impl View for ServerMessage {
    type V = ServerMessageView;

    open spec fn view(&self) -> ServerMessageView {
        match *self {
            ServerMessage::Hello => ServerMessageView::Hello,
            ServerMessage::Registered { id } => ServerMessageView::Registered { id: id@ },
            ServerMessage::Error { error } => ServerMessageView::Error { error: error@ },
            ServerMessage::Lease(l) => ServerMessageView::Lease(l@),
        }
    }
}

pub open spec fn replies_view(v: Seq<ServerMessage>) -> Seq<ServerMessageView> {
    Seq::new(v.len(), |i: int| v[i]@)
}

/// What one worker connection has come to: the identifier it registered
/// under, if it has registered.
#[derive(Debug)]
pub struct Session {
    pub current_id: Option<String>,
}

pub struct SessionView {
    pub current_id: Option<Seq<char>>,
}

impl View for Session {
    type V = SessionView;

    open spec fn view(&self) -> SessionView {
        SessionView { current_id: opt_view(self.current_id) }
    }
}

/// What the controller does in answer to a message.
#[derive(Debug)]
pub struct Reaction {
    /// Messages for the session's own sink, in order. They go out before
    /// the leases.
    pub replies: Vec<ServerMessage>,
    /// Leases, in order, each for the sink of the agent it names.
    pub leases: Vec<Dispatched>,
    /// Whether the session ends here.
    pub close: bool,
}

pub struct ReactionView {
    pub replies: Seq<ServerMessageView>,
    pub leases: Seq<DispatchedView>,
    pub close: bool,
}

impl View for Reaction {
    type V = ReactionView;

    open spec fn view(&self) -> ReactionView {
        ReactionView {
            replies: replies_view(self.replies@),
            leases: dispatched_view(self.leases@),
            close: self.close,
        }
    }
}

impl ReactionView {
    /// No reply, no lease, the session goes on.
    pub open spec fn nothing() -> ReactionView {
        ReactionView { replies: Seq::empty(), leases: Seq::empty(), close: false }
    }
}

/// The strings among the items of a list, in order.
pub open spec fn strings_among(items: Seq<Option<Seq<char>>>) -> Seq<Seq<char>>
    decreases items.len(),
{
    if items.len() == 0 {
        Seq::empty()
    } else {
        match items.last() {
            Some(s) => strings_among(items.drop_last()).push(s),
            None => strings_among(items.drop_last()),
        }
    }
}

/// The message that a JSON document stands for. The `type` member selects
/// the kind; the fields are read from the `payload` member.
pub open spec fn message_of(doc: serde_json::Value) -> WorkerMessageView {
    let strings = json_strings(doc);
    let integers = json_integers(doc);
    let kind = lookup(strings, "/type"@);
    if kind == Some("register"@) {
        WorkerMessageView::Register {
            token: lookup(strings, "/payload/token"@),
            id: lookup(strings, "/payload/id"@),
            name: lookup(strings, "/payload/name"@),
            concurrency: lookup(integers, "/payload/concurrency"@),
            encoders: match lookup(json_lists(doc), "/payload/encoders"@) {
                Some(items) => strings_among(items),
                None => Seq::empty(),
            },
        }
    } else if kind == Some("heartbeat"@) {
        WorkerMessageView::Heartbeat {
            id: lookup(strings, "/payload/id"@),
            mem_used: lookup(integers, "/payload/memUsed"@),
            mem_total: lookup(integers, "/payload/memTotal"@),
        }
    } else if kind == Some("progress"@) {
        WorkerMessageView::Progress { job_id: lookup(strings, "/payload/jobId"@) }
    } else if kind == Some("complete"@) {
        WorkerMessageView::Complete {
            job_id: lookup(strings, "/payload/jobId"@),
            agent_id: lookup(strings, "/payload/agentId"@),
            success: lookup(json_flags(doc), "/payload/success"@),
        }
    } else {
        WorkerMessageView::Other
    }
}

/// The message that a text frame stands for.
pub open spec fn decoded(text: Seq<char>) -> WorkerMessageView {
    match json_document(text) {
        Some(doc) => message_of(doc),
        None => WorkerMessageView::Other,
    }
}

/// A token that registration accepts: 25 long, and one of the paired tokens.
pub open spec fn token_accepted(tokens: Set<Seq<char>>, token: Option<Seq<char>>) -> bool {
    token matches Some(t) && token_length(t) == 25 && tokens.contains(t)
}

/// The message is a registration that names no identifier, so that the
/// controller mints one.
pub open spec fn registers_without_id(msg: WorkerMessageView) -> bool {
    msg matches WorkerMessageView::Register { id, .. } && id is None
}

/// The concurrency of an agent that declares `c`: at least 1, and at most
/// what 32 bits hold.
pub open spec fn declared_concurrency(c: u64) -> u32 {
    if c < 1 {
        1
    } else if c > u32::MAX {
        u32::MAX
    } else {
        c as u32
    }
}

/// The record of an agent that registers. What the message lacks is
/// filled in: the minted identifier, the name `agent`, concurrency 1.
pub open spec fn registration(
    id: Option<Seq<char>>,
    name: Option<Seq<char>>,
    concurrency: Option<u64>,
    encoders: Seq<Seq<char>>,
    minted_id: Seq<char>,
    now: i64,
) -> AgentView {
    AgentView {
        id: match id {
            Some(i) => i,
            None => minted_id,
        },
        name: match name {
            Some(n) => n,
            None => "agent"@,
        },
        concurrency: match concurrency {
            Some(c) => declared_concurrency(c),
            None => 1,
        },
        encoders: encoders,
        active_jobs: 0,
        last_heartbeat: now,
        mem_used: 0,
        mem_total: 0,
    }
}

impl StateView {
    /// The agent's telemetry is replaced by what a heartbeat reports.
    pub open spec fn with_telemetry(
        self,
        id: Seq<char>,
        mem_used: Option<u64>,
        mem_total: Option<u64>,
    ) -> StateView {
        match self.agent_index(id) {
            Some(i) => StateView {
                agents: self.agents.update(
                    i,
                    AgentView {
                        mem_used: match mem_used {
                            Some(m) => m,
                            None => self.agents[i].mem_used,
                        },
                        mem_total: match mem_total {
                            Some(m) => m,
                            None => self.agents[i].mem_total,
                        },
                        ..self.agents[i]
                    },
                ),
                ..self
            },
            None => self,
        }
    }

    /// A heartbeat refreshes the agent's `last_heartbeat` and its telemetry.
    pub open spec fn after_heartbeat(
        self,
        id: Option<Seq<char>>,
        mem_used: Option<u64>,
        mem_total: Option<u64>,
        now: i64,
    ) -> StateView {
        match id {
            Some(i) => self.with_heartbeat(i, now).with_telemetry(i, mem_used, mem_total),
            None => self,
        }
    }

    /// The job with this identifier is under lease: assigned or running.
    pub open spec fn in_flight(self, id: Seq<char>) -> bool {
        self.job(id) matches Some(j) && (j.status == JobStatus::Assigned || j.status
            == JobStatus::Running)
    }

    /// A progress report makes a job that is under lease `Running`. A
    /// report on any other job, or on none, changes nothing.
    pub open spec fn after_progress(self, job_id: Option<Seq<char>>, now: i64) -> StateView {
        match job_id {
            Some(j) => if self.in_flight(j) {
                self.with_job_status(j, JobStatus::Running, now)
            } else {
                self
            },
            None => self,
        }
    }

    /// A completion report before the sweep that follows it. The report
    /// counts where it names a job that is under lease: the load of the
    /// agent it names goes down by one, and the job is `Uploaded` or
    /// `Failed`. A report on any other job, or on none, changes nothing.
    pub open spec fn completed(
        self,
        job_id: Option<Seq<char>>,
        agent_id: Option<Seq<char>>,
        success: Option<bool>,
        now: i64,
    ) -> StateView {
        match job_id {
            Some(j) => if self.in_flight(j) {
                let released = match agent_id {
                    Some(a) => self.with_load_dec(a),
                    None => self,
                };
                released.with_job_status(
                    j,
                    if success == Some(true) {
                        JobStatus::Uploaded
                    } else {
                        JobStatus::Failed
                    },
                    now,
                )
            } else {
                self
            },
            None => self,
        }
    }

    /// The state, the session and the reaction after a message.
    ///
    /// `minted_id` is the identifier for an agent that registers without one.
    pub open spec fn after_message(
        self,
        session: SessionView,
        msg: WorkerMessageView,
        minted_id: Seq<char>,
        now: i64,
    ) -> (StateView, SessionView, ReactionView) {
        match msg {
            WorkerMessageView::Register { token, id, name, concurrency, encoders } => {
                if token_accepted(self.tokens, token) {
                    let info = registration(id, name, concurrency, encoders, minted_id, now);
                    let swept = self.with_agent(info).sweep(now);
                    (
                        swept.0,
                        SessionView { current_id: Some(info.id) },
                        ReactionView {
                            replies: seq![ServerMessageView::Registered { id: info.id }],
                            leases: swept.1,
                            close: false,
                        },
                    )
                } else {
                    (
                        self,
                        session,
                        ReactionView {
                            replies: seq![ServerMessageView::Error { error: "unauthorized"@ }],
                            leases: Seq::empty(),
                            close: true,
                        },
                    )
                }
            },
            WorkerMessageView::Heartbeat { id, mem_used, mem_total } => (
                self.after_heartbeat(id, mem_used, mem_total, now),
                session,
                ReactionView::nothing(),
            ),
            WorkerMessageView::Progress { job_id } => (
                self.after_progress(job_id, now),
                session,
                ReactionView::nothing(),
            ),
            WorkerMessageView::Complete { job_id, agent_id, success } => {
                let swept = self.completed(job_id, agent_id, success, now).sweep(now);
                (
                    swept.0,
                    session,
                    ReactionView { replies: Seq::empty(), leases: swept.1, close: false },
                )
            },
            WorkerMessageView::Other => (self, session, ReactionView::nothing()),
        }
    }
}

pub(crate) fn keep_strings(items: Vec<Option<String>>) -> (r: Vec<String>)
    ensures
        r.deep_view() == strings_among(items_view(items@)),
{
    let ghost all = items_view(items@);
    let mut r: Vec<String> = Vec::new();
    let mut i: usize = 0;
    assert(all.take(0) =~= Seq::empty());
    assert(r.deep_view() =~= Seq::<Seq<char>>::empty());
    while i < items.len()
        invariant
            i <= items.len(),
            all == items_view(items@),
            r.deep_view() == strings_among(all.take(i as int)),
        decreases items.len() - i,
    {
        let ghost before = r.deep_view();
        assert(all.take(i as int + 1).drop_last() =~= all.take(i as int));
        assert(all.take(i as int + 1).last() == opt_view(items@[i as int]));
        match &items[i] {
            Some(s) => {
                r.push(s.clone());
                assert(r.deep_view() =~= before.push(s@));
            },
            None => {},
        }
        i += 1;
    }
    assert(all.take(i as int) =~= all);
    r
}

/// Reads a text frame as a worker's message.
pub fn decode_message(text: &str) -> (m: WorkerMessage)
    ensures
        m@ == decoded(text@),
{
    let doc = match parse_json(text) {
        Some(d) => d,
        None => {
            return WorkerMessage::Other;
        },
    };
    let kind = match json_string_at(&doc, "/type") {
        Some(k) => k,
        None => {
            return WorkerMessage::Other;
        },
    };
    if str_eq(kind.as_str(), "register") {
        let encoders = match json_list_at(&doc, "/payload/encoders") {
            Some(items) => keep_strings(items),
            None => {
                let none: Vec<String> = Vec::new();
                assert(none.deep_view() =~= Seq::<Seq<char>>::empty());
                none
            },
        };
        WorkerMessage::Register {
            token: json_string_at(&doc, "/payload/token"),
            id: json_string_at(&doc, "/payload/id"),
            name: json_string_at(&doc, "/payload/name"),
            concurrency: json_integer_at(&doc, "/payload/concurrency"),
            encoders: encoders,
        }
    } else if str_eq(kind.as_str(), "heartbeat") {
        WorkerMessage::Heartbeat {
            id: json_string_at(&doc, "/payload/id"),
            mem_used: json_integer_at(&doc, "/payload/memUsed"),
            mem_total: json_integer_at(&doc, "/payload/memTotal"),
        }
    } else if str_eq(kind.as_str(), "progress") {
        WorkerMessage::Progress { job_id: json_string_at(&doc, "/payload/jobId") }
    } else if str_eq(kind.as_str(), "complete") {
        WorkerMessage::Complete {
            job_id: json_string_at(&doc, "/payload/jobId"),
            agent_id: json_string_at(&doc, "/payload/agentId"),
            success: json_flag_at(&doc, "/payload/success"),
        }
    } else {
        WorkerMessage::Other
    }
}

impl Session {
    /// A session for a connection that was just accepted, and the greeting
    /// to send on it.
    pub fn open() -> (r: (Session, ServerMessage))
        ensures
            r.0@ == (SessionView { current_id: None }),
            r.1@ == ServerMessageView::Hello,
    {
        (Session { current_id: None }, ServerMessage::Hello)
    }
}

impl AppState {
    /// Whether registration accepts the token.
    pub fn accepts_token(&self, token: &Option<String>) -> (r: bool)
        ensures
            r == token_accepted(self@.tokens, opt_view(*token)),
    {
        match token {
            Some(t) => t.as_str().as_bytes().len() == 25 && contains_name(
                self.allowed_tokens.as_slice(),
                t.as_str(),
            ),
            None => false,
        }
    }

    /// Whether the job with this identifier is under lease.
    pub fn is_in_flight(&self, id: &str) -> (r: bool)
        ensures
            r == self@.in_flight(id@),
    {
        match self.find_job(id) {
            Some(i) => match self.jobs[i].status {
                JobStatus::Assigned => true,
                JobStatus::Running => true,
                _ => false,
            },
            None => false,
        }
    }

    /// Replaces an agent's telemetry by what a heartbeat reports.
    pub fn update_telemetry(&mut self, id: &str, mem_used: Option<u64>, mem_total: Option<u64>)
        ensures
            final(self)@ == old(self)@.with_telemetry(id@, mem_used, mem_total),
    {
        match self.find_agent(id) {
            Some(i) => {
                match mem_used {
                    Some(m) => {
                        self.agents[i].mem_used = m;
                    },
                    None => {},
                }
                match mem_total {
                    Some(m) => {
                        self.agents[i].mem_total = m;
                    },
                    None => {},
                }
                assert(self@.agents =~= old(self)@.with_telemetry(id@, mem_used, mem_total).agents);
            },
            None => {},
        }
    }

    /// Handles one message of a session at the time `now`.
    ///
    /// `minted_id` is the identifier for an agent that registers without one.
    pub fn handle_message(
        &mut self,
        session: &mut Session,
        msg: WorkerMessage,
        minted_id: String,
        now: i64,
    ) -> (r: Reaction)
        ensures
            (final(self)@, final(session)@, r@) == old(self)@.after_message(
                old(session)@,
                msg@,
                minted_id@,
                now,
            ),
            old(self)@.wf() ==> final(self)@.wf(),
            old(self)@.valid() ==> final(self)@.valid() && old(self)@.steps_to(final(self)@),
    {
        proof {
            if self@.wf() {
                crate::laws::lemma_message_keeps_wf(self@, session@, msg@, minted_id@, now);
            }
            if self@.valid() {
                crate::laws::lemma_message_keeps_valid(self@, session@, msg@, minted_id@, now);
            }
        }
        let mut replies: Vec<ServerMessage> = Vec::new();
        let mut leases: Vec<Dispatched> = Vec::new();
        let mut close = false;
        assert(replies_view(replies@) =~= Seq::empty());
        assert(dispatched_view(leases@) =~= Seq::empty());
        match msg {
            WorkerMessage::Register { token, id, name, concurrency, encoders } => {
                if self.accepts_token(&token) {
                    let id = match id {
                        Some(i) => i,
                        None => minted_id,
                    };
                    let info = AgentInfo {
                        id: id.clone(),
                        name: match name {
                            Some(n) => n,
                            None => "agent".to_owned(),
                        },
                        concurrency: match concurrency {
                            Some(c) => if c < 1 {
                                1
                            } else if c > 0xffff_ffff {
                                0xffff_ffff
                            } else {
                                c as u32
                            },
                            None => 1,
                        },
                        encoders: encoders,
                        active_jobs: 0,
                        last_heartbeat: now,
                        mem_used: 0,
                        mem_total: 0,
                    };
                    self.register_agent(info);
                    session.current_id = Some(id.clone());
                    let reply = ServerMessage::Registered { id: id };
                    replies.push(reply);
                    assert(replies_view(replies@) =~= seq![reply@]);
                    leases = self.try_dispatch_at(now);
                } else {
                    let reply = ServerMessage::Error { error: "unauthorized".to_owned() };
                    replies.push(reply);
                    assert(replies_view(replies@) =~= seq![reply@]);
                    close = true;
                }
            },
            WorkerMessage::Heartbeat { id, mem_used, mem_total } => {
                match id {
                    Some(i) => {
                        self.update_heartbeat(i.as_str(), now);
                        self.update_telemetry(i.as_str(), mem_used, mem_total);
                    },
                    None => {},
                }
            },
            WorkerMessage::Progress { job_id } => {
                match job_id {
                    Some(j) => {
                        if self.is_in_flight(j.as_str()) {
                            self.update_status(j.as_str(), JobStatus::Running, now);
                        }
                    },
                    None => {},
                }
            },
            WorkerMessage::Complete { job_id, agent_id, success } => {
                match job_id {
                    Some(j) => {
                        if self.is_in_flight(j.as_str()) {
                            match agent_id {
                                Some(a) => {
                                    self.dec_load(a.as_str());
                                },
                                None => {},
                            }
                            let status = match success {
                                Some(true) => JobStatus::Uploaded,
                                _ => JobStatus::Failed,
                            };
                            self.update_status(j.as_str(), status, now);
                        }
                    },
                    None => {},
                }
                leases = self.try_dispatch_at(now);
            },
            WorkerMessage::Other => {},
        }
        Reaction { replies: replies, leases: leases, close: close }
    }

    /// Handles one text frame of a session: reads it as a message, and
    /// handles the message at the present time. An agent that registers
    /// without an identifier is given a random UUID for one.
    pub fn handle_text(&mut self, session: &mut Session, text: &str) -> (r: Reaction)
        ensures
            exists|minted_id: Seq<char>, now: i64|
                (if registers_without_id(decoded(text@)) {
                    is_uuid_text(minted_id)
                } else {
                    minted_id.len() == 0
                }) && (
                    final(self)@,
                    final(session)@,
                    r@,
                ) == #[trigger] old(self)@.after_message(
                    old(session)@,
                    decoded(text@),
                    minted_id,
                    now,
                ),
            old(self)@.wf() ==> final(self)@.wf(),
            old(self)@.valid() ==> final(self)@.valid() && old(self)@.steps_to(final(self)@),
    {
        let msg = decode_message(text);
        let minted_id = match &msg {
            WorkerMessage::Register { token, id, name, concurrency, encoders } => match id {
                Some(_) => String::new(),
                None => mint_uuid(),
            },
            _ => String::new(),
        };
        let now = now_millis();
        self.handle_message(session, msg, minted_id, now)
    }

    /// Ends a session: the sink of the agent it registered is unbound.
    pub fn close_session(&mut self, session: Session)
        ensures
            final(self)@ == match session@.current_id {
                Some(id) => old(self)@.without_sink(id),
                None => old(self)@,
            },
            old(self)@.wf() ==> final(self)@.wf(),
            old(self)@.valid() ==> final(self)@.valid() && old(self)@.steps_to(final(self)@),
    {
        proof {
            crate::laws::lemma_settings_keep_state(
                self@,
                match session@.current_id {
                    Some(id) => id,
                    None => Seq::empty(),
                },
                None,
                None,
            );
        }
        match session.current_id {
            Some(id) => {
                self.deregister(id.as_str());
            },
            None => {},
        }
    }
}

} // verus!
