//! What holds of every state the controller passes through.

use crate::agents::AgentView;
use crate::deps::{
    is_lower_hex, is_unreserved, is_uuid_text, percent_byte, percent_bytes, percent_encoded,
};
use crate::dispatch::{input_url, lease_for, lemma_pick, output_url, DispatchedView};
use crate::ffmpeg::{lemma_first_match, output_ext, preferred_encoder, required};
use crate::jobs::{JobStatus, JobView, MediaType, PlanView};
use crate::manage::{
    credentials_usable, ids_usable, minted_ids, minted_job, CredentialsView, PairError,
};
use crate::session::{
    registration, token_accepted, ReactionView, ServerMessageView, SessionView,
    WorkerMessageView,
};
use crate::state::{lemma_position_found, token_length, StateView};
use crate::stream::{range_end, range_plan, range_start, range_text, RangePlan};
use crate::text::trim_end;
use vstd::prelude::*;
use vstd::utf8::{encode_utf8, is_ascii_chars, is_ascii_chars_encode_utf8};

verus! {

impl StateView {
    /// Every agent takes one lease at a time at least, and holds no more
    /// leases than it takes at a time.
    pub open spec fn loads_bounded(self) -> bool {
        forall|i: int|
            0 <= i < self.agents.len() ==> 1 <= (#[trigger] self.agents[i]).concurrency
                && self.agents[i].active_jobs <= self.agents[i].concurrency
    }

    /// Every paired token is 25 long.
    pub open spec fn tokens_sized(self) -> bool {
        forall|t: Seq<char>| #[trigger] self.tokens.contains(t) ==> token_length(t) == 25
    }

    /// No two jobs and no two agents share an identifier.
    pub open spec fn ids_unique(self) -> bool {
        self.job_ids().no_duplicates() && self.agent_ids().no_duplicates()
    }

    /// The registries are well formed: identifiers are unique, loads are
    /// within bounds, and tokens have their length.
    pub open spec fn wf(self) -> bool {
        self.ids_unique() && self.loads_bounded() && self.tokens_sized()
    }

    /// The state is one that a controller can be in: the registries are
    /// well formed, and the pending queue holds exactly the pending jobs.
    pub open spec fn valid(self) -> bool {
        self.wf() && self.queue_consistent()
    }

    /// Some job with this identifier is pending.
    pub open spec fn has_pending_job(self, id: Seq<char>) -> bool {
        exists|i: int|
            0 <= i < self.jobs.len() && (#[trigger] self.jobs[i]).id == id && self.jobs[i].status
                == JobStatus::Pending
    }

    /// The pending queue holds the identifiers of the pending jobs, each once.
    pub open spec fn queue_consistent(self) -> bool {
        &&& self.pending.no_duplicates()
        &&& forall|id: Seq<char>| self.pending.contains(id) <==> self.has_pending_job(id)
    }

    /// `next` holds every job of `self`, each with the same identity, plan
    /// and tokens, at a status the lifecycle allows, and assigned to an
    /// agent if it was.
    pub open spec fn steps_to(self, next: StateView) -> bool {
        &&& self.jobs.len() <= next.jobs.len()
        &&& forall|i: int|
            0 <= i < self.jobs.len() ==> {
                let before = #[trigger] self.jobs[i];
                let after = next.jobs[i];
                &&& after.id == before.id
                &&& after.plan == before.plan
                &&& after.input_token == before.input_token
                &&& after.output_token == before.output_token
                &&& after.created_at == before.created_at
                &&& before.status.may_become(after.status)
                &&& before.node_id is Some ==> after.node_id is Some
            }
    }

    /// `next` holds the agents of `self`, each with what it declared, and
    /// the same sinks, tokens and base URL.
    pub open spec fn same_agents_as(self, next: StateView) -> bool {
        &&& self.agents.len() == next.agents.len()
        &&& self.channels == next.channels
        &&& self.tokens == next.tokens
        &&& self.public_base_url == next.public_base_url
        &&& forall|i: int|
            0 <= i < self.agents.len() ==> {
                let before = #[trigger] self.agents[i];
                let after = next.agents[i];
                &&& after.id == before.id
                &&& after.concurrency == before.concurrency
                &&& after.encoders == before.encoders
            }
    }
}

/// A controller starts in a state that a controller can be in: every
/// paired token is 25 long, nothing is registered, nothing waits.
pub proof fn lemma_initial_state(default_token: Seq<char>)
    ensures
        StateView::initial(default_token).valid(),
{
    let s = StateView::initial(default_token);
    assert(s.job_ids() =~= Seq::empty());
    assert(s.agent_ids() =~= Seq::empty());
}

/// What `pick_agent` picks is eligible and is the pick.
pub proof fn lemma_picked(s: StateView, needed: Seq<Seq<char>>)
    ensures
        s.pick_agent(needed) matches Some(a) ==> s.is_pick(a, needed) && s.eligible(a, needed),
        s.pick_agent(needed) is None ==> forall|a: int| !s.is_pick(a, needed),
{
}

/// The step of a sweep that leases a job keeps the registries well formed.
pub proof fn lemma_assigned_wf(s: StateView, j: int, a: int, now: i64)
    requires
        s.wf(),
        0 <= j < s.jobs.len(),
        0 <= a < s.agents.len(),
        s.agents[a].has_capacity(),
    ensures
        s.assigned(j, a, now).wf(),
        s.same_agents_as(s.assigned(j, a, now)),
        s.assigned(j, a, now).job_ids() == s.job_ids(),
        s.assigned(j, a, now).agent_ids() == s.agent_ids(),
{
    let t = s.assigned(j, a, now);
    assert(t.job_ids() =~= s.job_ids());
    assert(t.agent_ids() =~= s.agent_ids());
}

/// A sweep keeps the registries well formed, changes no agent but in
/// its load, and drops no job.
pub proof fn lemma_sweep_wf(s: StateView, now: i64)
    requires
        s.wf(),
    ensures
        s.sweep(now).0.wf(),
        s.same_agents_as(s.sweep(now).0),
        s.sweep(now).0.job_ids() == s.job_ids(),
        s.sweep(now).0.agent_ids() == s.agent_ids(),
    decreases s.pending.len(),
{
    if s.pending.len() == 0 {
    } else {
        let id = s.pending[0];
        let rest = s.without_head();
        assert(rest.job_ids() =~= s.job_ids());
        assert(rest.agent_ids() =~= s.agent_ids());
        match s.job_index(id) {
            None => {
                lemma_sweep_wf(rest, now);
            },
            Some(j) => {
                lemma_position_found(s.job_ids(), id);
                let needed = required(s.jobs[j].plan.media_type, s.jobs[j].plan.codec);
                lemma_picked(s, needed);
                match s.pick_agent(needed) {
                    None => {
                        assert(rest.requeued(id).job_ids() =~= s.job_ids());
                        assert(rest.requeued(id).agent_ids() =~= s.agent_ids());
                    },
                    Some(a) => {
                        let next = rest.assigned(j, a, now);
                        lemma_assigned_wf(rest, j, a, now);
                        lemma_sweep_wf(next, now);
                    },
                }
            },
        }
    }
}

/// Where some agent is eligible, one of them is picked.
pub proof fn lemma_pick_exists(s: StateView, needed: Seq<Seq<char>>)
    requires
        exists|a: int| s.eligible(a, needed),
    ensures
        s.pick_agent(needed) is Some,
{
    let w = choose|a: int| s.eligible(a, needed);
    let b = lemma_best_among(s, needed, s.agents.len() as int);
    assert(s.is_pick(b, needed));
    lemma_pick(s, needed, b);
}

/// Among the first `n` agents, where one is eligible, one is preferred to
/// all the eligible ones.
proof fn lemma_best_among(s: StateView, needed: Seq<Seq<char>>, n: int) -> (b: int)
    requires
        0 <= n <= s.agents.len(),
        exists|k: int| 0 <= k < n && s.eligible(k, needed),
    ensures
        0 <= b < n,
        s.eligible(b, needed),
        forall|k: int| 0 <= k < n && #[trigger] s.eligible(k, needed) ==> s.ranks_before(b, k),
    decreases n,
{
    if exists|k: int| 0 <= k < n - 1 && s.eligible(k, needed) {
        let b0 = lemma_best_among(s, needed, n - 1);
        if s.eligible(n - 1, needed) && s.agents[n - 1].active_jobs < s.agents[b0].active_jobs {
            n - 1
        } else {
            b0
        }
    } else {
        n - 1
    }
}

/// A job at the head of the queue that some agent can take is leased by
/// the next sweep, first of all, to the least loaded of the agents that
/// can take it.
pub proof fn lemma_head_is_leased(s: StateView, now: i64, j: int)
    requires
        s.pending.len() > 0,
        s.job_index(s.pending[0]) == Some(j),
        exists|a: int|
            s.eligible(a, required(s.jobs[j].plan.media_type, s.jobs[j].plan.codec)),
    ensures
        s.pick_agent(required(s.jobs[j].plan.media_type, s.jobs[j].plan.codec)) matches Some(a)
            && s.sweep(now).1.len() > 0 && s.sweep(now).1[0] == s.dispatch_of(j, a) && s.sweep(
            now,
        ).1[0].lease.job_id == s.pending[0],
{
    let needed = required(s.jobs[j].plan.media_type, s.jobs[j].plan.codec);
    lemma_pick_exists(s, needed);
    lemma_position_found(s.job_ids(), s.pending[0]);
}

/// The number of leases in a list that go to one agent.
pub open spec fn leases_for(leases: Seq<DispatchedView>, agent_id: Seq<char>) -> nat
    decreases leases.len(),
{
    if leases.len() == 0 {
        0
    } else {
        leases_for(leases.drop_first(), agent_id) + if leases[0].agent_id == agent_id {
            1nat
        } else {
            0nat
        }
    }
}

/// A sweep raises an agent's load by the number of leases it grants to it.
pub proof fn lemma_sweep_counts_leases(s: StateView, now: i64, a: int)
    requires
        s.wf(),
        0 <= a < s.agents.len(),
    ensures
        s.sweep(now).0.agents[a].active_jobs == s.agents[a].active_jobs + leases_for(
            s.sweep(now).1,
            s.agents[a].id,
        ),
    decreases s.pending.len(),
{
    if s.pending.len() == 0 {
    } else {
        let id = s.pending[0];
        let rest = s.without_head();
        assert(rest.job_ids() =~= s.job_ids());
        assert(rest.agent_ids() =~= s.agent_ids());
        match s.job_index(id) {
            None => {
                lemma_sweep_counts_leases(rest, now, a);
            },
            Some(j) => {
                lemma_position_found(s.job_ids(), id);
                let needed = required(s.jobs[j].plan.media_type, s.jobs[j].plan.codec);
                lemma_picked(s, needed);
                match s.pick_agent(needed) {
                    None => {},
                    Some(b) => {
                        let next = rest.assigned(j, b, now);
                        lemma_assigned_wf(rest, j, b, now);
                        lemma_sweep_counts_leases(next, now, a);
                        let first = s.dispatch_of(j, b);
                        let more = next.sweep(now).1;
                        assert((seq![first] + more).drop_first() =~= more);
                        assert((seq![first] + more)[0] == first);
                        if b != a {
                            assert(s.agent_ids()[a] != s.agent_ids()[b]);
                        }
                    },
                }
            },
        }
    }
}

/// A sweep grants an agent no more leases than it has room for. An agent
/// that takes one job at a time gets one lease at most, however long the
/// queue is.
pub proof fn lemma_sweep_respects_capacity(s: StateView, now: i64, a: int)
    requires
        s.wf(),
        0 <= a < s.agents.len(),
    ensures
        leases_for(s.sweep(now).1, s.agents[a].id) <= s.agents[a].concurrency
            - s.agents[a].active_jobs,
        s.agents[a].concurrency == 1 ==> leases_for(s.sweep(now).1, s.agents[a].id) <= 1,
{
    lemma_sweep_counts_leases(s, now, a);
    lemma_sweep_wf(s, now);
    let f = s.sweep(now).0;
    assert(f.agents[a].active_jobs <= f.agents[a].concurrency);
    assert(f.agents[a].concurrency == s.agents[a].concurrency);
}

/// Every lease of a sweep names a job of the registry, and its output
/// extension is the one the argument planner gives for that job.
pub proof fn lemma_sweep_lease_extension(s: StateView, now: i64, k: int)
    requires
        0 <= k < s.sweep(now).1.len(),
    ensures
        exists|j: int|
            0 <= j < s.jobs.len() && (#[trigger] s.jobs[j]).id == s.sweep(now).1[k].lease.job_id
                && s.sweep(now).1[k].lease.output_ext == output_ext(
                s.jobs[j].plan.media_type,
                s.jobs[j].plan.codec,
            ),
    decreases s.pending.len(),
{
    if s.pending.len() == 0 {
    } else {
        let id = s.pending[0];
        let rest = s.without_head();
        match s.job_index(id) {
            None => {
                lemma_sweep_lease_extension(rest, now, k);
                let j = choose|j: int|
                    0 <= j < rest.jobs.len() && (#[trigger] rest.jobs[j]).id == rest.sweep(
                        now,
                    ).1[k].lease.job_id && rest.sweep(now).1[k].lease.output_ext == output_ext(
                        rest.jobs[j].plan.media_type,
                        rest.jobs[j].plan.codec,
                    );
                assert(s.jobs[j].id == s.sweep(now).1[k].lease.job_id);
            },
            Some(j) => {
                lemma_position_found(s.job_ids(), id);
                let needed = required(s.jobs[j].plan.media_type, s.jobs[j].plan.codec);
                lemma_picked(s, needed);
                match s.pick_agent(needed) {
                    None => {},
                    Some(a) => {
                        let next = rest.assigned(j, a, now);
                        let first = s.dispatch_of(j, a);
                        let more = next.sweep(now).1;
                        if k == 0 {
                            assert((seq![first] + more)[0] == first);
                            assert(s.jobs[j].id == first.lease.job_id);
                        } else {
                            assert((seq![first] + more)[k] == more[k - 1]);
                            lemma_sweep_lease_extension(next, now, k - 1);
                            let i = choose|i: int|
                                0 <= i < next.jobs.len() && (#[trigger] next.jobs[i]).id
                                    == more[k - 1].lease.job_id && more[k - 1].lease.output_ext
                                    == output_ext(
                                    next.jobs[i].plan.media_type,
                                    next.jobs[i].plan.codec,
                                );
                            assert(s.jobs[i].id == next.jobs[i].id);
                            assert(s.jobs[i].plan == next.jobs[i].plan);
                        }
                    },
                }
            },
        }
    }
}

/// Registering an agent keeps the registries well formed.
pub proof fn lemma_with_agent_wf(s: StateView, info: AgentView)
    requires
        s.wf(),
        1 <= info.concurrency,
        info.active_jobs <= info.concurrency,
    ensures
        s.with_agent(info).wf(),
        s.with_agent(info).jobs == s.jobs,
        s.with_agent(info).pending == s.pending,
{
    let t = s.with_agent(info);
    assert(t.job_ids() =~= s.job_ids());
    lemma_position_found(s.agent_ids(), info.id);
    match s.agent_index(info.id) {
        Some(i) => {
            assert(t.agent_ids() =~= s.agent_ids());
        },
        None => {
            assert(t.agent_ids() =~= s.agent_ids().push(info.id));
            assert forall|a: int, b: int|
                0 <= a < t.agent_ids().len() && 0 <= b < t.agent_ids().len() && a
                    != b implies t.agent_ids()[a] != t.agent_ids()[b] by {
                if a < s.agents.len() && b < s.agents.len() {
                    assert(s.agent_ids()[a] != s.agent_ids()[b]);
                } else if a < s.agents.len() {
                    assert(s.agent_ids()[a] == t.agent_ids()[a]);
                } else {
                    assert(s.agent_ids()[b] == t.agent_ids()[b]);
                }
            }
        },
    }
}

/// Setting a job's status changes nothing else.
pub proof fn lemma_with_job_status(s: StateView, id: Seq<char>, status: JobStatus, now: i64)
    ensures
        s.with_job_status(id, status, now).job_ids() == s.job_ids(),
        s.with_job_status(id, status, now).agents == s.agents,
        s.with_job_status(id, status, now).pending == s.pending,
        s.with_job_status(id, status, now).jobs.len() == s.jobs.len(),
        s.wf() ==> s.with_job_status(id, status, now).wf(),
        forall|i: int|
            0 <= i < s.jobs.len() && s.job_index(id) != Some(i) ==> s.with_job_status(
                id,
                status,
                now,
            ).jobs[i] == s.jobs[i],
        s.job_index(id) matches Some(i) ==> 0 <= i < s.jobs.len() && s.jobs[i].id == id
            && s.with_job_status(id, status, now).jobs[i] == (JobView {
            status: status,
            updated_at: now,
            ..s.jobs[i]
        }),
{
    let t = s.with_job_status(id, status, now);
    lemma_position_found(s.job_ids(), id);
    assert(t.job_ids() =~= s.job_ids());
    assert(t.agent_ids() =~= s.agent_ids());
}

/// Changing an agent's load downwards, its heartbeat or its telemetry
/// keeps the registries well formed and touches no job.
pub proof fn lemma_agent_updates(
    s: StateView,
    id: Seq<char>,
    mem_used: Option<u64>,
    mem_total: Option<u64>,
    now: i64,
)
    requires
        s.wf(),
    ensures
        s.with_load_dec(id).wf(),
        s.with_load_dec(id).jobs == s.jobs,
        s.with_load_dec(id).pending == s.pending,
        s.with_heartbeat(id, now).wf(),
        s.with_heartbeat(id, now).jobs == s.jobs,
        s.with_heartbeat(id, now).pending == s.pending,
        s.with_telemetry(id, mem_used, mem_total).wf(),
        s.with_telemetry(id, mem_used, mem_total).jobs == s.jobs,
        s.with_telemetry(id, mem_used, mem_total).pending == s.pending,
{
    lemma_position_found(s.agent_ids(), id);
    assert(s.with_load_dec(id).agent_ids() =~= s.agent_ids());
    assert(s.with_load_dec(id).job_ids() =~= s.job_ids());
    assert(s.with_heartbeat(id, now).agent_ids() =~= s.agent_ids());
    assert(s.with_heartbeat(id, now).job_ids() =~= s.job_ids());
    assert(s.with_telemetry(id, mem_used, mem_total).agent_ids() =~= s.agent_ids());
    assert(s.with_telemetry(id, mem_used, mem_total).job_ids() =~= s.job_ids());
}

/// A completion report, before the sweep that follows it, keeps the
/// registries well formed.
pub proof fn lemma_completed_wf(
    s: StateView,
    job_id: Option<Seq<char>>,
    agent_id: Option<Seq<char>>,
    success: Option<bool>,
    now: i64,
)
    requires
        s.wf(),
    ensures
        s.completed(job_id, agent_id, success, now).wf(),
{
    if job_id is Some && s.in_flight(job_id->0) {
        let released = match agent_id {
            Some(a) => s.with_load_dec(a),
            None => s,
        };
        if agent_id is Some {
            lemma_agent_updates(s, agent_id->0, None, None, now);
        }
        let status = if success == Some(true) {
            JobStatus::Uploaded
        } else {
            JobStatus::Failed
        };
        lemma_with_job_status(released, job_id->0, status, now);
    }
}

/// Whatever message arrives, the registries stay well formed: no agent
/// holds more leases than it takes at a time, and no identifier occurs twice.
pub proof fn lemma_message_keeps_wf(
    s: StateView,
    session: SessionView,
    msg: WorkerMessageView,
    minted_id: Seq<char>,
    now: i64,
)
    requires
        s.wf(),
    ensures
        s.after_message(session, msg, minted_id, now).0.wf(),
{
    match msg {
        WorkerMessageView::Register { token, id, name, concurrency, encoders } => {
            if token_accepted(s.tokens, token) {
                let info = registration(id, name, concurrency, encoders, minted_id, now);
                lemma_with_agent_wf(s, info);
                lemma_sweep_wf(s.with_agent(info), now);
            }
        },
        WorkerMessageView::Heartbeat { id, mem_used, mem_total } => {
            if id is Some {
                lemma_agent_updates(s, id->0, mem_used, mem_total, now);
                lemma_agent_updates(s.with_heartbeat(id->0, now), id->0, mem_used, mem_total, now);
            }
        },
        WorkerMessageView::Progress { job_id } => {
            if job_id is Some && s.in_flight(job_id->0) {
                lemma_with_job_status(s, job_id->0, JobStatus::Running, now);
            }
        },
        WorkerMessageView::Complete { job_id, agent_id, success } => {
            lemma_completed_wf(s, job_id, agent_id, success, now);
            lemma_sweep_wf(s.completed(job_id, agent_id, success, now), now);
        },
        WorkerMessageView::Other => {},
    }
}

/// Ending a session, pairing a token and changing the base URL leave the
/// state one that a controller can be in, and touch no job.
pub proof fn lemma_settings_keep_state(
    s: StateView,
    id: Seq<char>,
    token: Option<Seq<char>>,
    url: Option<Seq<char>>,
)
    ensures
        s.wf() ==> s.without_sink(id).wf() && s.paired(token).0.wf() && s.settings_changed(
            url,
        ).0.wf(),
        s.queue_consistent() ==> s.without_sink(id).queue_consistent() && s.paired(
            token,
        ).0.queue_consistent() && s.settings_changed(url).0.queue_consistent(),
        s.steps_to(s.without_sink(id)),
        s.steps_to(s.paired(token).0),
        s.steps_to(s.settings_changed(url).0),
{
    let a = s.without_sink(id);
    let b = s.paired(token).0;
    let c = s.settings_changed(url).0;
    assert(a.job_ids() =~= s.job_ids());
    assert(a.agent_ids() =~= s.agent_ids());
    assert(b.job_ids() =~= s.job_ids());
    assert(b.agent_ids() =~= s.agent_ids());
    assert(c.job_ids() =~= s.job_ids());
    assert(c.agent_ids() =~= s.agent_ids());
    if s.queue_consistent() {
        lemma_same_jobs_same_queue(s, a);
        lemma_same_jobs_same_queue(s, b);
        lemma_same_jobs_same_queue(s, c);
    }
}

/// The queue's consistency speaks of the jobs and the queue alone.
pub proof fn lemma_same_jobs_same_queue(s: StateView, t: StateView)
    requires
        s.queue_consistent(),
        s.jobs == t.jobs,
        s.pending == t.pending,
    ensures
        t.queue_consistent(),
{
    assert forall|id: Seq<char>| t.pending.contains(id) <==> t.has_pending_job(id) by {
        assert(s.pending.contains(id) <==> s.has_pending_job(id));
        if s.has_pending_job(id) {
            let i = choose|i: int|
                0 <= i < s.jobs.len() && (#[trigger] s.jobs[i]).id == id && s.jobs[i].status
                    == JobStatus::Pending;
            assert(t.jobs[i].id == id);
        }
        if t.has_pending_job(id) {
            let i = choose|i: int|
                0 <= i < t.jobs.len() && (#[trigger] t.jobs[i]).id == id && t.jobs[i].status
                    == JobStatus::Pending;
            assert(s.jobs[i].id == id);
        }
    }
}

/// What a sweep does to the jobs: it leaves a job as it is, or leases a
/// pending one.
pub open spec fn only_leases(s: StateView, f: StateView) -> bool {
    &&& f.jobs.len() == s.jobs.len()
    &&& forall|i: int|
        0 <= i < s.jobs.len() ==> {
            let before = #[trigger] s.jobs[i];
            let after = f.jobs[i];
            after == before || (before.status == JobStatus::Pending && after.status
                == JobStatus::Assigned && after.node_id is Some && after.id == before.id
                && after.plan == before.plan && after.input_token == before.input_token
                && after.output_token == before.output_token && after.created_at
                == before.created_at)
        }
}

/// The head of a consistent queue names one job, and that job is pending.
pub proof fn lemma_head_is_pending(s: StateView)
    requires
        s.ids_unique(),
        s.queue_consistent(),
        s.pending.len() > 0,
    ensures
        s.job_index(s.pending[0]) matches Some(j) && 0 <= j < s.jobs.len() && s.jobs[j].id
            == s.pending[0] && s.jobs[j].status == JobStatus::Pending,
{
    let id = s.pending[0];
    assert(s.pending.contains(id));
    assert(s.has_pending_job(id));
    let i = choose|i: int|
        0 <= i < s.jobs.len() && (#[trigger] s.jobs[i]).id == id && s.jobs[i].status
            == JobStatus::Pending;
    assert(s.job_ids()[i] == id);
    lemma_position_found(s.job_ids(), id);
    let j = s.job_index(id)->0;
    if i != j {
        assert(s.job_ids()[i] == s.job_ids()[j]);
    }
}

/// Leasing the job at the head of a consistent queue leaves the queue
/// consistent.
pub proof fn lemma_lease_keeps_queue(s: StateView, j: int, a: int, now: i64)
    requires
        s.ids_unique(),
        s.queue_consistent(),
        s.pending.len() > 0,
        s.job_index(s.pending[0]) == Some(j),
        0 <= a < s.agents.len(),
    ensures
        s.without_head().assigned(j, a, now).queue_consistent(),
{
    lemma_head_is_pending(s);
    let id = s.pending[0];
    let t = s.without_head().assigned(j, a, now);
    assert forall|x: int, y: int|
        0 <= x < t.pending.len() && 0 <= y < t.pending.len() && x != y implies t.pending[x]
        != t.pending[y] by {
        assert(s.pending[x + 1] != s.pending[y + 1]);
    }
    assert forall|x: Seq<char>| t.pending.contains(x) <==> t.has_pending_job(x) by {
        if t.pending.contains(x) {
            let m = choose|m: int| 0 <= m < t.pending.len() && t.pending[m] == x;
            assert(s.pending[m + 1] == x);
            assert(s.pending[0] != s.pending[m + 1]);
            assert(s.pending.contains(x));
            assert(s.has_pending_job(x));
            let i = choose|i: int|
                0 <= i < s.jobs.len() && (#[trigger] s.jobs[i]).id == x && s.jobs[i].status
                    == JobStatus::Pending;
            assert(i != j);
            assert(t.jobs[i].id == x);
        }
        if t.has_pending_job(x) {
            let i = choose|i: int|
                0 <= i < t.jobs.len() && (#[trigger] t.jobs[i]).id == x && t.jobs[i].status
                    == JobStatus::Pending;
            assert(i != j);
            assert(s.jobs[i].id == x);
            assert(s.has_pending_job(x));
            assert(s.pending.contains(x));
            let m = choose|m: int| 0 <= m < s.pending.len() && s.pending[m] == x;
            if m == 0 {
                assert(s.job_ids()[i] == s.job_ids()[j]);
            }
            assert(t.pending[m - 1] == x);
        }
    }
}

/// Sending the head of a consistent queue to its tail leaves the queue
/// consistent.
pub proof fn lemma_requeue_keeps_queue(s: StateView)
    requires
        s.queue_consistent(),
        s.pending.len() > 0,
    ensures
        s.without_head().requeued(s.pending[0]).queue_consistent(),
{
    let id = s.pending[0];
    let t = s.without_head().requeued(id);
    let n = s.pending.len() as int;
    assert(t.pending.len() == n);
    assert forall|x: int| 0 <= x < n implies t.pending[x] == s.pending[if x == n - 1 {
        0
    } else {
        x + 1
    }] by {}
    assert forall|x: int, y: int| 0 <= x < n && 0 <= y < n && x != y implies t.pending[x]
        != t.pending[y] by {
        let sx = if x == n - 1 {
            0
        } else {
            x + 1
        };
        let sy = if y == n - 1 {
            0
        } else {
            y + 1
        };
        assert(s.pending[sx] != s.pending[sy]);
    }
    assert forall|x: Seq<char>| t.pending.contains(x) <==> t.has_pending_job(x) by {
        if t.pending.contains(x) {
            let m = choose|m: int| 0 <= m < t.pending.len() && t.pending[m] == x;
            let sm = if m == n - 1 {
                0
            } else {
                m + 1
            };
            assert(s.pending[sm] == x);
            assert(s.pending.contains(x));
        }
        if s.pending.contains(x) {
            let m = choose|m: int| 0 <= m < s.pending.len() && s.pending[m] == x;
            let tm = if m == 0 {
                n - 1
            } else {
                m - 1
            };
            assert(t.pending[tm] == x);
        }
        assert(s.pending.contains(x) <==> s.has_pending_job(x));
        if s.has_pending_job(x) {
            let i = choose|i: int|
                0 <= i < s.jobs.len() && (#[trigger] s.jobs[i]).id == x && s.jobs[i].status
                    == JobStatus::Pending;
            assert(t.jobs[i].id == x);
        }
        if t.has_pending_job(x) {
            let i = choose|i: int|
                0 <= i < t.jobs.len() && (#[trigger] t.jobs[i]).id == x && t.jobs[i].status
                    == JobStatus::Pending;
            assert(s.jobs[i].id == x);
        }
    }
}

/// A sweep of a consistent queue leaves the queue consistent: the jobs in
/// it are the pending jobs. It changes no job but the ones it leases, and
/// those were pending.
pub proof fn lemma_sweep_keeps_queue(s: StateView, now: i64)
    requires
        s.wf(),
        s.queue_consistent(),
    ensures
        s.sweep(now).0.queue_consistent(),
        only_leases(s, s.sweep(now).0),
        s.steps_to(s.sweep(now).0),
    decreases s.pending.len(),
{
    if s.pending.len() == 0 {
    } else {
        let id = s.pending[0];
        let rest = s.without_head();
        lemma_head_is_pending(s);
        let j = s.job_index(id)->0;
        let needed = required(s.jobs[j].plan.media_type, s.jobs[j].plan.codec);
        lemma_picked(s, needed);
        match s.pick_agent(needed) {
            None => {
                lemma_requeue_keeps_queue(s);
            },
            Some(a) => {
                let next = rest.assigned(j, a, now);
                assert(rest.job_ids() =~= s.job_ids());
                assert(rest.agent_ids() =~= s.agent_ids());
                lemma_assigned_wf(rest, j, a, now);
                lemma_lease_keeps_queue(s, j, a, now);
                lemma_sweep_keeps_queue(next, now);
                let f = next.sweep(now).0;
                assert(only_leases(s, f)) by {
                    assert forall|i: int| 0 <= i < s.jobs.len() implies {
                        let before = #[trigger] s.jobs[i];
                        let after = f.jobs[i];
                        after == before || (before.status == JobStatus::Pending && after.status
                            == JobStatus::Assigned && after.node_id is Some && after.id
                            == before.id && after.plan == before.plan && after.input_token
                            == before.input_token && after.output_token == before.output_token
                            && after.created_at == before.created_at)
                    } by {
                        let mid = next.jobs[i];
                        assert(f.jobs[i] == mid || mid.status == JobStatus::Pending);
                    }
                }
            },
        }
    }
}

/// Setting the status of a job that is not pending to one that is not
/// pending leaves the queue consistent.
pub proof fn lemma_status_keeps_queue(s: StateView, id: Seq<char>, status: JobStatus, now: i64)
    requires
        s.queue_consistent(),
        status != JobStatus::Pending,
        s.job(id) matches Some(j) ==> j.status != JobStatus::Pending,
    ensures
        s.with_job_status(id, status, now).queue_consistent(),
{
    let t = s.with_job_status(id, status, now);
    lemma_with_job_status(s, id, status, now);
    assert forall|x: Seq<char>| t.pending.contains(x) <==> t.has_pending_job(x) by {
        assert(s.pending.contains(x) <==> s.has_pending_job(x));
        if s.has_pending_job(x) {
            let i = choose|i: int|
                0 <= i < s.jobs.len() && (#[trigger] s.jobs[i]).id == x && s.jobs[i].status
                    == JobStatus::Pending;
            assert(s.job_index(id) != Some(i));
            assert(t.jobs[i].id == x);
        }
        if t.has_pending_job(x) {
            let i = choose|i: int|
                0 <= i < t.jobs.len() && (#[trigger] t.jobs[i]).id == x && t.jobs[i].status
                    == JobStatus::Pending;
            assert(s.job_index(id) != Some(i));
            assert(s.jobs[i].id == x);
        }
    }
}

/// After every message the pending queue holds exactly the pending jobs.
pub proof fn lemma_message_keeps_queue(
    s: StateView,
    session: SessionView,
    msg: WorkerMessageView,
    minted_id: Seq<char>,
    now: i64,
)
    requires
        s.wf(),
        s.queue_consistent(),
    ensures
        s.after_message(session, msg, minted_id, now).0.queue_consistent(),
{
    match msg {
        WorkerMessageView::Register { token, id, name, concurrency, encoders } => {
            if token_accepted(s.tokens, token) {
                let info = registration(id, name, concurrency, encoders, minted_id, now);
                lemma_with_agent_wf(s, info);
                lemma_same_jobs_same_queue(s, s.with_agent(info));
                lemma_sweep_keeps_queue(s.with_agent(info), now);
            }
        },
        WorkerMessageView::Heartbeat { id, mem_used, mem_total } => {
            if id is Some {
                lemma_agent_updates(s, id->0, mem_used, mem_total, now);
                lemma_agent_updates(s.with_heartbeat(id->0, now), id->0, mem_used, mem_total, now);
                lemma_same_jobs_same_queue(s, s.after_heartbeat(id, mem_used, mem_total, now));
            }
        },
        WorkerMessageView::Progress { job_id } => {
            if job_id is Some && s.in_flight(job_id->0) {
                lemma_status_keeps_queue(s, job_id->0, JobStatus::Running, now);
            }
        },
        WorkerMessageView::Complete { job_id, agent_id, success } => {
            lemma_completed_keeps_queue(s, job_id, agent_id, success, now);
            lemma_completed_wf(s, job_id, agent_id, success, now);
            lemma_sweep_keeps_queue(s.completed(job_id, agent_id, success, now), now);
        },
        WorkerMessageView::Other => {},
    }
}

/// A completion report, before the sweep that follows it, leaves the
/// queue consistent and moves its job along the lifecycle.
pub proof fn lemma_completed_keeps_queue(
    s: StateView,
    job_id: Option<Seq<char>>,
    agent_id: Option<Seq<char>>,
    success: Option<bool>,
    now: i64,
)
    requires
        s.wf(),
        s.queue_consistent(),
    ensures
        s.completed(job_id, agent_id, success, now).queue_consistent(),
        s.steps_to(s.completed(job_id, agent_id, success, now)),
        s.steps_to(s.completed(job_id, agent_id, success, now).sweep(now).0),
{
    if job_id is Some && s.in_flight(job_id->0) {
        let released = match agent_id {
            Some(a) => s.with_load_dec(a),
            None => s,
        };
        if agent_id is Some {
            lemma_agent_updates(s, agent_id->0, None, None, now);
            lemma_same_jobs_same_queue(s, released);
        }
        let status = if success == Some(true) {
            JobStatus::Uploaded
        } else {
            JobStatus::Failed
        };
        assert(released.job_ids() =~= s.job_ids());
        lemma_status_then_sweep(released, job_id->0, status, now);
        let t = released.with_job_status(job_id->0, status, now);
        let f = t.sweep(now).0;
        assert forall|i: int| 0 <= i < s.jobs.len() implies s.jobs[i].status.may_become(
            #[trigger] f.jobs[i].status,
        ) && s.jobs[i].status.may_become(t.jobs[i].status) by {
            assert(released.jobs[i] == s.jobs[i]);
        }
        lemma_status_keeps_queue(released, job_id->0, status, now);
    } else {
        lemma_sweep_keeps_queue(s, now);
    }
}

/// A change of one job's status along the lifecycle, followed by a sweep,
/// moves every job along the lifecycle.
proof fn lemma_status_then_sweep(s: StateView, id: Seq<char>, status: JobStatus, now: i64)
    requires
        s.wf(),
        s.queue_consistent(),
        status != JobStatus::Pending,
        status != JobStatus::Assigned,
        s.job(id) matches Some(j) ==> j.status.may_become(status),
    ensures
        s.steps_to(s.with_job_status(id, status, now)),
        s.steps_to(s.with_job_status(id, status, now).sweep(now).0),
{
    let t = s.with_job_status(id, status, now);
    lemma_with_job_status(s, id, status, now);
    lemma_status_keeps_queue(s, id, status, now);
    lemma_sweep_keeps_queue(t, now);
    let f = t.sweep(now).0;
    assert forall|i: int| 0 <= i < s.jobs.len() implies {
        let before = #[trigger] s.jobs[i];
        let after = f.jobs[i];
        &&& after.id == before.id
        &&& after.plan == before.plan
        &&& after.input_token == before.input_token
        &&& after.output_token == before.output_token
        &&& after.created_at == before.created_at
        &&& before.status.may_become(after.status)
        &&& before.node_id is Some ==> after.node_id is Some
    } by {
        let mid = t.jobs[i];
        assert(f.jobs[i] == mid || mid.status == JobStatus::Pending);
    }
}

/// Whatever message arrives, a job's status moves only along
/// pending → assigned → running → (uploaded | failed), and a job that has
/// ended stays as it is. Its identity, its plan and its tokens stay.
pub proof fn lemma_message_follows_lifecycle(
    s: StateView,
    session: SessionView,
    msg: WorkerMessageView,
    minted_id: Seq<char>,
    now: i64,
)
    requires
        s.wf(),
        s.queue_consistent(),
    ensures
        s.steps_to(s.after_message(session, msg, minted_id, now).0),
{
    match msg {
        WorkerMessageView::Register { token, id, name, concurrency, encoders } => {
            if token_accepted(s.tokens, token) {
                let info = registration(id, name, concurrency, encoders, minted_id, now);
                lemma_with_agent_wf(s, info);
                lemma_same_jobs_same_queue(s, s.with_agent(info));
                lemma_sweep_keeps_queue(s.with_agent(info), now);
                let f = s.with_agent(info).sweep(now).0;
                assert forall|i: int| 0 <= i < s.jobs.len() implies s.jobs[i].status.may_become(
                    f.jobs[i].status,
                ) by {
                    assert(s.with_agent(info).jobs[i] == s.jobs[i]);
                }
            }
        },
        WorkerMessageView::Heartbeat { id, mem_used, mem_total } => {
            if id is Some {
                lemma_agent_updates(s, id->0, mem_used, mem_total, now);
                lemma_agent_updates(s.with_heartbeat(id->0, now), id->0, mem_used, mem_total, now);
            }
        },
        WorkerMessageView::Progress { job_id } => {
            if job_id is Some && s.in_flight(job_id->0) {
                lemma_status_then_sweep(s, job_id->0, JobStatus::Running, now);
            }
        },
        WorkerMessageView::Complete { job_id, agent_id, success } => {
            lemma_completed_keeps_queue(s, job_id, agent_id, success, now);
        },
        WorkerMessageView::Other => {},
    }
}

/// Whatever message arrives, the state stays one that a controller can be
/// in, and every job moves along the lifecycle or stays.
pub proof fn lemma_message_keeps_valid(
    s: StateView,
    session: SessionView,
    msg: WorkerMessageView,
    minted_id: Seq<char>,
    now: i64,
)
    requires
        s.valid(),
    ensures
        s.after_message(session, msg, minted_id, now).0.valid(),
        s.steps_to(s.after_message(session, msg, minted_id, now).0),
{
    lemma_message_keeps_wf(s, session, msg, minted_id, now);
    lemma_message_keeps_queue(s, session, msg, minted_id, now);
    lemma_message_follows_lifecycle(s, session, msg, minted_id, now);
}

/// Admission keeps the registries well formed and the queue consistent,
/// and leaves every job that was there as it was. So does admission
/// followed by a sweep, but for the jobs that the sweep leases.
pub proof fn lemma_admission_keeps_state(
    s: StateView,
    plans: Seq<PlanView>,
    exists: Seq<bool>,
    minted: Seq<CredentialsView>,
    now: i64,
)
    requires
        s.wf(),
    ensures
        s.admission(plans, exists, minted, now).0.wf(),
        s.started(plans, exists, minted, now).0.wf(),
        s.steps_to(s.admission(plans, exists, minted, now).0),
        s.queue_consistent() ==> s.admission(plans, exists, minted, now).0.queue_consistent()
            && s.started(plans, exists, minted, now).0.queue_consistent() && s.steps_to(
            s.started(plans, exists, minted, now).0,
        ),
{
    if s.admission_error(plans, exists, minted) is None {
        let n = plans.len() as int;
        let t = s.admitted(plans, minted, now);
        let ids = minted_ids(minted, n);
        assert(credentials_usable(minted, n, s.job_ids()));
        assert(t.agent_ids() =~= s.agent_ids());
        assert(t.job_ids() =~= s.job_ids() + ids);
        assert forall|a: int, b: int|
            0 <= a < t.job_ids().len() && 0 <= b < t.job_ids().len() && a != b implies t.job_ids()[a]
            != t.job_ids()[b] by {
            let m = s.jobs.len() as int;
            if a < m && b < m {
                assert(s.job_ids()[a] != s.job_ids()[b]);
            } else if a >= m && b >= m {
                assert(ids[a - m] != ids[b - m]);
            } else if a < m {
                assert(s.job_ids()[a] == t.job_ids()[a]);
                assert(t.job_ids()[b] == minted[b - m].id);
                assert(!s.job_ids().contains(minted[b - m].id));
            } else {
                assert(s.job_ids()[b] == t.job_ids()[b]);
                assert(t.job_ids()[a] == minted[a - m].id);
                assert(!s.job_ids().contains(minted[a - m].id));
            }
        }
        assert(t.wf());
        lemma_sweep_wf(t, now);
        if s.queue_consistent() {
            lemma_admitted_keeps_queue(s, plans, minted, now);
            lemma_sweep_keeps_queue(t, now);
            let f = t.sweep(now).0;
            assert(only_leases(t, f));
            assert forall|i: int| 0 <= i < s.jobs.len() implies {
                let before = #[trigger] s.jobs[i];
                let after = f.jobs[i];
                &&& after.id == before.id
                &&& after.plan == before.plan
                &&& after.input_token == before.input_token
                &&& after.output_token == before.output_token
                &&& after.created_at == before.created_at
                &&& before.status.may_become(after.status)
                &&& before.node_id is Some ==> after.node_id is Some
            } by {
                assert(t.jobs[i] == s.jobs[i]);
            }
        }
    }
}

/// What admission leaves behind. Each plan is a new job at the end of the
/// registry, in order: pending, leased to no agent, created and updated
/// at the time of admission, with the plan as it was given, an identifier
/// that no other job has, and two tokens that differ. The jobs that were
/// there stay, and the queue is the old queue followed by the new
/// identifiers in the order of the plans.
pub proof fn lemma_admission_result(
    s: StateView,
    plans: Seq<PlanView>,
    exists: Seq<bool>,
    minted: Seq<CredentialsView>,
    now: i64,
    i: int,
)
    requires
        s.ids_unique(),
        s.admission_error(plans, exists, minted) is None,
        0 <= i < plans.len(),
    ensures
        ({
            let t = s.admission(plans, exists, minted, now).0;
            let job = t.jobs[s.jobs.len() + i];
            &&& t.jobs.len() == s.jobs.len() + plans.len()
            &&& t.jobs.take(s.jobs.len() as int) == s.jobs
            &&& t.pending == s.pending + minted_ids(minted, plans.len() as int)
            &&& t.pending[s.pending.len() + i] == job.id
            &&& job.plan == plans[i]
            &&& job.status == JobStatus::Pending
            &&& job.node_id is None
            &&& job.created_at == now
            &&& job.updated_at == now
            &&& job.input_token != job.output_token
            &&& forall|k: int| 0 <= k < t.jobs.len() && k != s.jobs.len() + i ==> (
            #[trigger] t.jobs[k]).id != job.id
            &&& t.agents == s.agents
            &&& t.channels == s.channels
        }),
{
    let n = plans.len() as int;
    let m = s.jobs.len() as int;
    let t = s.admitted(plans, minted, now);
    let ids = minted_ids(minted, n);
    assert(credentials_usable(minted, n, s.job_ids()));
    assert(minted[i].tokens_apart());
    assert(t.jobs[m + i] == minted_job(plans[i], minted[i], now));
    assert(t.jobs.take(m) =~= s.jobs);
    assert forall|k: int| 0 <= k < t.jobs.len() && k != m + i implies (#[trigger] t.jobs[k]).id
        != t.jobs[m + i].id by {
        if k < m {
            assert(s.job_ids()[k] == t.jobs[k].id);
            assert(!s.job_ids().contains(minted[i].id));
        } else {
            assert(ids[k - m] != ids[i]);
        }
    }
}

/// Admission with usable identifiers puts each new job in the queue once.
proof fn lemma_admitted_keeps_queue(
    s: StateView,
    plans: Seq<PlanView>,
    minted: Seq<CredentialsView>,
    now: i64,
)
    requires
        s.queue_consistent(),
        ids_usable(minted, plans.len() as int, s.job_ids()),
    ensures
        s.admitted(plans, minted, now).queue_consistent(),
{
    let n = plans.len() as int;
    let t = s.admitted(plans, minted, now);
    let ids = minted_ids(minted, n);
    let m = s.jobs.len() as int;
    let q = s.pending.len() as int;
    assert forall|x: Seq<char>| s.pending.contains(x) implies s.job_ids().contains(x) by {
        assert(s.has_pending_job(x));
        let i = choose|i: int|
            0 <= i < s.jobs.len() && (#[trigger] s.jobs[i]).id == x && s.jobs[i].status
                == JobStatus::Pending;
        assert(s.job_ids()[i] == x);
    }
    assert forall|a: int, b: int|
        0 <= a < t.pending.len() && 0 <= b < t.pending.len() && a != b implies t.pending[a]
        != t.pending[b] by {
        if a < q && b < q {
            assert(s.pending[a] != s.pending[b]);
        } else if a >= q && b >= q {
            assert(ids[a - q] != ids[b - q]);
        } else if a < q {
            assert(s.pending.contains(s.pending[a]));
            assert(!s.job_ids().contains(minted[b - q].id));
        } else {
            assert(s.pending.contains(s.pending[b]));
            assert(!s.job_ids().contains(minted[a - q].id));
        }
    }
    assert forall|x: Seq<char>| t.pending.contains(x) <==> t.has_pending_job(x) by {
        assert(s.pending.contains(x) <==> s.has_pending_job(x));
        if t.pending.contains(x) {
            let k = choose|k: int| 0 <= k < t.pending.len() && t.pending[k] == x;
            if k < q {
                assert(s.pending[k] == x);
                assert(s.pending.contains(x));
                let i = choose|i: int|
                    0 <= i < s.jobs.len() && (#[trigger] s.jobs[i]).id == x && s.jobs[i].status
                        == JobStatus::Pending;
                assert(t.jobs[i].id == x);
            } else {
                assert(t.jobs[m + (k - q)].id == x);
            }
        }
        if t.has_pending_job(x) {
            let i = choose|i: int|
                0 <= i < t.jobs.len() && (#[trigger] t.jobs[i]).id == x && t.jobs[i].status
                    == JobStatus::Pending;
            if i < m {
                assert(s.jobs[i].id == x);
                assert(s.has_pending_job(x));
                let k = choose|k: int| 0 <= k < s.pending.len() && s.pending[k] == x;
                assert(t.pending[k] == x);
            } else {
                assert(t.pending[q + (i - m)] == x);
            }
        }
    }
}

/// A data-plane request is granted exactly where the token is the job's
/// token for the direction asked for.
pub proof fn lemma_data_plane_access(s: StateView, job_id: Seq<char>, token: Seq<char>)
    ensures
        s.input_access(job_id, token) is Ok <==> (s.job(job_id) matches Some(j) && token
            == j.input_token),
        s.output_access(job_id, token) is Ok <==> (s.job(job_id) matches Some(j) && token
            == j.output_token),
{
}

/// A registration whose token is not 25 long is turned away: the state
/// stays as it is, the worker is told so, and the session ends.
pub proof fn lemma_registration_needs_token(
    s: StateView,
    session: SessionView,
    token: Option<Seq<char>>,
    id: Option<Seq<char>>,
    name: Option<Seq<char>>,
    concurrency: Option<u64>,
    encoders: Seq<Seq<char>>,
    minted_id: Seq<char>,
    now: i64,
)
    requires
        token matches Some(t) ==> token_length(t) != 25,
    ensures
        s.after_message(
            session,
            WorkerMessageView::Register { token, id, name, concurrency, encoders },
            minted_id,
            now,
        ) == (
            s,
            session,
            ReactionView {
                replies: seq![ServerMessageView::Error { error: "unauthorized"@ }],
                leases: Seq::empty(),
                close: true,
            },
        ),
{
}

/// A token that is not 25 long is not paired: the state stays as it is.
pub proof fn lemma_pairing_needs_token(s: StateView, token: Option<Seq<char>>)
    requires
        token matches Some(t) ==> token_length(t) != 25,
    ensures
        s.paired(token) == (s, Err::<(), PairError>(PairError::InvalidToken)),
{
}

/// A range without an end runs through the last byte of the file, and a
/// range that starts at or past the end of the file cannot be satisfied.
pub proof fn lemma_range_bounds(header: Seq<char>, size: u64)
    requires
        range_text(header) is Some,
    ensures
        ({
            let text = range_text(header)->0;
            let start = range_start(text);
            &&& start >= size ==> range_plan(header, size) == RangePlan::Unsatisfiable
            &&& start < size && range_end(text) is None ==> range_plan(header, size)
                == (RangePlan::Part {
                start: start,
                end: (size - 1) as u64,
                length: (size - start) as u64,
                size: size,
            })
        }),
{
}

/// An agent that is eligible for a video job is named one of its own
/// encoders in the lease, and that encoder is one the job can use.
pub proof fn lemma_eligible_agent_has_encoder(s: StateView, plan: PlanView, a: int)
    requires
        plan.media_type == MediaType::Video,
        s.eligible(a, required(plan.media_type, plan.codec)),
    ensures
        preferred_encoder(plan, s.agents[a].encoders) matches Some(e) && s.agents[a].encoders.contains(
            e,
        ) && required(plan.media_type, plan.codec).contains(e),
{
    lemma_first_match(required(plan.media_type, plan.codec), s.agents[a].encoders);
}

/// A completion report counts once. Where it names a job that is under
/// lease, it takes one lease off the agent it names, if that agent holds
/// one, touches no other agent's load, and ends the job as reported,
/// leaving its agent, its tokens and its plan. After that the job is no
/// longer under lease, so that a second report on it changes nothing, as
/// does any report on a job that is not under lease.
pub proof fn lemma_completion_counts_once(
    s: StateView,
    job_id: Option<Seq<char>>,
    agent_id: Option<Seq<char>>,
    success: Option<bool>,
    now: i64,
    a: int,
    i: int,
)
    requires
        s.wf(),
        0 <= a < s.agents.len(),
        0 <= i < s.jobs.len(),
    ensures
        ({
            let t = s.completed(job_id, agent_id, success, now);
            let counted = job_id is Some && s.in_flight(job_id->0);
            &&& !counted ==> t == s
            &&& t.agents.len() == s.agents.len()
            &&& t.jobs.len() == s.jobs.len()
            &&& t.agents[a].active_jobs == if counted && agent_id == Some(s.agents[a].id)
                && s.agents[a].active_jobs > 0 {
                s.agents[a].active_jobs - 1
            } else {
                s.agents[a].active_jobs as int
            }
            &&& t.jobs[i] == if counted && s.jobs[i].id == job_id->0 {
                JobView {
                    status: if success == Some(true) {
                        JobStatus::Uploaded
                    } else {
                        JobStatus::Failed
                    },
                    updated_at: now,
                    ..s.jobs[i]
                }
            } else {
                s.jobs[i]
            }
            &&& counted ==> !t.in_flight(job_id->0)
        }),
        forall|again_by: Option<Seq<char>>, again: Option<bool>, later: i64|
            job_id is Some && s.in_flight(job_id->0) ==> (#[trigger] s.completed(
                job_id,
                agent_id,
                success,
                now,
            ).completed(job_id, again_by, again, later)) == s.completed(
                job_id,
                agent_id,
                success,
                now,
            ),
{
    if job_id is Some && s.in_flight(job_id->0) {
        let id = job_id->0;
        let released = match agent_id {
            Some(x) => s.with_load_dec(x),
            None => s,
        };
        let status = if success == Some(true) {
            JobStatus::Uploaded
        } else {
            JobStatus::Failed
        };
        let t = released.with_job_status(id, status, now);
        assert(released.job_ids() =~= s.job_ids());
        lemma_with_job_status(released, id, status, now);
        lemma_position_found(s.job_ids(), id);
        let j = s.job_index(id)->0;
        if i != j && s.jobs[i].id == id {
            assert(s.job_ids()[i] == s.job_ids()[j]);
        }
        assert(t.job_ids() =~= s.job_ids());
        if agent_id is Some {
            lemma_position_found(s.agent_ids(), agent_id->0);
            match s.agent_index(agent_id->0) {
                Some(k) => {
                    if k != a {
                        assert(s.agent_ids()[k] != s.agent_ids()[a]);
                    }
                },
                None => {
                    assert(s.agent_ids()[a] == s.agents[a].id);
                },
            }
        }
    }
}

/// A heartbeat changes nothing of an agent but its `last_heartbeat` and
/// its telemetry: the loads stay, and so do what the agents declared, the
/// sinks, the jobs and the queue.
pub proof fn lemma_heartbeat_keeps_loads(
    s: StateView,
    id: Option<Seq<char>>,
    mem_used: Option<u64>,
    mem_total: Option<u64>,
    now: i64,
    a: int,
)
    requires
        0 <= a < s.agents.len(),
    ensures
        ({
            let t = s.after_heartbeat(id, mem_used, mem_total, now);
            &&& s.same_agents_as(t)
            &&& t.jobs == s.jobs
            &&& t.pending == s.pending
            &&& t.agents[a].active_jobs == s.agents[a].active_jobs
            &&& t.agents[a].name == s.agents[a].name
            &&& id != Some(s.agents[a].id) ==> t.agents[a] == s.agents[a]
        }),
{
    if id is Some {
        let u = s.with_heartbeat(id->0, now);
        lemma_position_found(s.agent_ids(), id->0);
        assert(u.agent_ids() =~= s.agent_ids());
        lemma_position_found(u.agent_ids(), id->0);
        match s.agent_index(id->0) {
            Some(k) => {
                assert(s.agent_ids()[k] == s.agents[k].id);
            },
            None => {},
        }
    }
}

/// A progress report on a job that is under lease makes it `Running` and
/// refreshes its `updated_at`; the job's agent, its tokens and its plan
/// stay, and a second report keeps it `Running`. A report on any other job
/// changes nothing. No agent and no other job is touched.
pub proof fn lemma_progress_makes_running(s: StateView, job_id: Option<Seq<char>>, now: i64, i: int)
    requires
        s.ids_unique(),
        0 <= i < s.jobs.len(),
    ensures
        ({
            let t = s.after_progress(job_id, now);
            let counted = job_id is Some && s.in_flight(job_id->0);
            &&& !counted ==> t == s
            &&& t.agents == s.agents
            &&& t.pending == s.pending
            &&& t.jobs.len() == s.jobs.len()
            &&& t.jobs[i] == if counted && s.jobs[i].id == job_id->0 {
                JobView { status: JobStatus::Running, updated_at: now, ..s.jobs[i] }
            } else {
                s.jobs[i]
            }
            &&& counted ==> t.in_flight(job_id->0)
        }),
{
    if job_id is Some && s.in_flight(job_id->0) {
        let id = job_id->0;
        let t = s.with_job_status(id, JobStatus::Running, now);
        lemma_with_job_status(s, id, JobStatus::Running, now);
        lemma_position_found(s.job_ids(), id);
        let j = s.job_index(id)->0;
        if i != j && s.jobs[i].id == id {
            assert(s.job_ids()[i] == s.job_ids()[j]);
        }
        assert(t.job_ids() =~= s.job_ids());
    }
}

/// A plan that is admitted alone into an empty queue, and that some agent
/// can take, is leased by the sweep that follows: one lease is granted,
/// for the new job, to the least loaded of the agents that can take it.
pub proof fn lemma_start_leases_at_once(
    s: StateView,
    plan: PlanView,
    exists: Seq<bool>,
    minted: Seq<CredentialsView>,
    now: i64,
)
    requires
        s.pending.len() == 0,
        s.admission_error(seq![plan], exists, minted) is None,
        exists|a: int| s.eligible(a, required(plan.media_type, plan.codec)),
    ensures
        ({
            let granted = s.started(seq![plan], exists, minted, now).1;
            let picked = s.pick_agent(required(plan.media_type, plan.codec));
            &&& granted is Ok
            &&& picked is Some
            &&& granted->Ok_0.1.len() == 1
            &&& granted->Ok_0.1[0].lease.job_id == minted[0].id
            &&& granted->Ok_0.1[0].agent_id == s.agents[picked->0].id
            &&& granted->Ok_0.1[0].lease == lease_for(
                s.public_base_url,
                minted_job(plan, minted[0], now),
                s.agents[picked->0],
            )
        }),
        ({
            let after = s.started(seq![plan], exists, minted, now).0;
            let picked = s.pick_agent(required(plan.media_type, plan.codec));
            let job = after.jobs[s.jobs.len() as int];
            &&& after.pending.len() == 0
            &&& after.jobs.len() == s.jobs.len() + 1
            &&& job.id == minted[0].id
            &&& job.status == JobStatus::Assigned
            &&& job.node_id == Some(s.agents[picked->0].id)
            &&& after.agents[picked->0].active_jobs == s.agents[picked->0].active_jobs + 1
        }),
{
    let plans = seq![plan];
    let needed = required(plan.media_type, plan.codec);
    let t = s.admitted(plans, minted, now);
    let id = minted[0].id;
    let j = s.jobs.len() as int;
    assert(credentials_usable(minted, 1, s.job_ids()));
    assert(t.pending =~= seq![id]);
    assert(t.jobs[j].id == id);
    assert(t.jobs[j].plan == plan);
    assert forall|k: int| 0 <= k < j implies t.job_ids()[k] != id by {
        assert(s.job_ids()[k] == t.job_ids()[k]);
        assert(!s.job_ids().contains(minted[0].id));
    }
    crate::state::lemma_position(t.job_ids(), id, j);
    let w = choose|a: int| s.eligible(a, needed);
    assert(t.eligible(w, needed));
    crate::dispatch::lemma_pick_ignores_queue(s, t, needed);
    lemma_head_is_leased(t, now, j);
    let a = t.pick_agent(needed)->0;
    lemma_picked(t, needed);
    let next = t.without_head().assigned(j, a, now);
    assert(next.pending =~= Seq::<Seq<char>>::empty());
    assert(next.sweep(now).1 =~= Seq::<DispatchedView>::empty());
    assert(t.sweep(now).1 =~= seq![t.dispatch_of(j, a)]);
    assert(t.jobs[j] == minted_job(plan, minted[0], now));
    assert(t.sweep(now).0 == next);
}

/// The lease of the job in the simplest case: a video plan for `h264`
/// without options, a minted identifier, an agent with `libx264` and
/// `aac`, and the base URL a controller starts with. The lease names the
/// job, runs `libx264` at the preset `medium` and the rate factor 23 with
/// the audio copied, writes an `.mp4` file, asks for no number of threads,
/// and its addresses hold the identifier and the job's tokens as they are.
pub proof fn lemma_simplest_lease(job: JobView, agent: AgentView)
    requires
        job.plan.media_type == MediaType::Video,
        job.plan.codec == "h264"@,
        job.plan.options is None,
        is_uuid_text(job.id),
        agent.encoders == seq!["libx264"@, "aac"@],
    ensures
        ({
            let lease = lease_for("http://localhost:4000"@, job, agent);
            &&& lease.job_id == job.id
            &&& lease.output_ext == ".mp4"@
            &&& lease.threads == 0
            &&& lease.input_url == "http://localhost:4000"@ + "/stream/input/"@ + job.id
                + "?token="@ + job.input_token
            &&& lease.output_url == "http://localhost:4000"@ + "/stream/output/"@ + job.id
                + "?token="@ + job.output_token
            &&& lease.ffmpeg_args == seq![
                "-hide_banner"@,
                "-nostdin"@,
                "-y"@,
                "-progress"@,
                "pipe:1"@,
                "-loglevel"@,
                "error"@,
                "-pix_fmt"@,
                "yuv420p"@,
                "-c:v"@,
                "libx264"@,
                "-preset"@,
                "medium"@,
                "-crf"@,
                "23"@,
                "-c:a"@,
                "copy"@,
            ]
        }),
{
    let base = "http://localhost:4000"@;
    reveal_strlit("http://localhost:4000");
    assert(base.len() == 21);
    assert(base.last() == '0');
    assert(trim_end(base, '/') == base);
    lemma_minted_id_needs_no_encoding(job.id, base, job.input_token, job.output_token);
    crate::ffmpeg::lemma_h264_arguments(job.plan);
}

/// Where the options of a video job ask for its audio to be re-encoded,
/// the lease of the job, whichever agent it goes to, runs the transcoder
/// with `-c:a aac -b:a` and the bitrate at the end of its arguments, and
/// with the pair `-c:a copy` nowhere in them.
pub proof fn lemma_lease_audio_override(base: Seq<char>, job: JobView, agent: AgentView)
    requires
        job.plan.media_type == MediaType::Video,
        crate::ffmpeg::reencodes_audio(job.plan.options),
    ensures
        ({
            let args = lease_for(base, job, agent).ffmpeg_args;
            let n = args.len() as int;
            &&& n >= 4
            &&& args[n - 4] == "-c:a"@
            &&& args[n - 3] == "aac"@
            &&& args[n - 2] == "-b:a"@
            &&& args[n - 1] == crate::ffmpeg::audio_bitrate(job.plan.options)
            &&& crate::ffmpeg::copies_no_audio(args)
        }),
{
    crate::ffmpeg::lemma_audio_override(job.plan, preferred_encoder(job.plan, agent.encoders));
}

/// Bytes that percent-encoding leaves alone are written as they are.
proof fn lemma_unreserved_bytes(bytes: Seq<u8>, chars: Seq<char>)
    requires
        bytes.len() == chars.len(),
        forall|i: int|
            0 <= i < bytes.len() ==> is_unreserved(#[trigger] bytes[i]) && bytes[i] as char
                == chars[i],
    ensures
        percent_bytes(bytes) == chars,
    decreases bytes.len(),
{
    if bytes.len() == 0 {
        assert(chars =~= Seq::<char>::empty());
    } else {
        lemma_unreserved_bytes(bytes.drop_last(), chars.drop_last());
        assert(percent_byte(bytes.last()) == seq![chars.last()]);
        assert(chars.drop_last() + seq![chars.last()] =~= chars);
    }
}

/// A minted identifier is written into a lease's addresses as it is:
/// percent-encoding changes nothing in the text of a UUID.
pub proof fn lemma_minted_id_needs_no_encoding(
    id: Seq<char>,
    base: Seq<char>,
    input_token: Seq<char>,
    output_token: Seq<char>,
)
    requires
        is_uuid_text(id),
    ensures
        percent_encoded(id) == id,
        input_url(base, id, input_token) == trim_end(base, '/') + "/stream/input/"@ + id
            + "?token="@ + input_token,
        output_url(base, id, output_token) == trim_end(base, '/') + "/stream/output/"@ + id
            + "?token="@ + output_token,
{
    assert forall|i: int| 0 <= i < id.len() implies '\0' <= #[trigger] id[i] <= '\u{7f}' by {
        if i == 8 || i == 13 || i == 18 || i == 23 {
            assert(id[i] == '-');
        } else {
            assert(is_lower_hex(id[i]));
        }
    }
    assert(is_ascii_chars(id));
    is_ascii_chars_encode_utf8(id);
    let bytes = encode_utf8(id);
    assert forall|i: int| 0 <= i < bytes.len() implies is_unreserved(#[trigger] bytes[i])
        && bytes[i] as char == id[i] by {
        assert(id[i] as u8 == bytes[i]);
        if i == 8 || i == 13 || i == 18 || i == 23 {
            assert(id[i] == '-');
        } else {
            assert(is_lower_hex(id[i]));
        }
    }
    lemma_unreserved_bytes(bytes, id);
}

} // verus!
