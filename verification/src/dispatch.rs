//! The dispatcher: matching pending jobs to agents and granting leases.

use crate::agents::{AgentInfo, AgentView};
use crate::deps::{now_millis, percent_encoded, url_encode};
use crate::ffmpeg::{
    build_ffmpeg_args_with_encoder, compute_output_ext, ffmpeg_args, intersects, output_ext,
    preferred_encoder, required, required_encoders, select_preferred_encoder,
};
use crate::jobs::{Job, JobStatus, JobView};
use crate::state::{opt_int, AppState, StateView};
use crate::text::{contains_name, trim_end, trim_end_matches};
use vstd::prelude::*;
use vstd::string::StringExecFns;

verus! {

/// What a lease tells an agent: the job, where to fetch its input and
/// where to put its output, and how to run the transcoder.
#[derive(Debug)]
pub struct Lease {
    pub job_id: String,
    pub input_url: String,
    pub output_url: String,
    pub ffmpeg_args: Vec<String>,
    pub output_ext: String,
    pub threads: u32,
}

pub struct LeaseView {
    pub job_id: Seq<char>,
    pub input_url: Seq<char>,
    pub output_url: Seq<char>,
    pub ffmpeg_args: Seq<Seq<char>>,
    pub output_ext: Seq<char>,
    pub threads: u32,
}

impl View for Lease {
    type V = LeaseView;

    open spec fn view(&self) -> LeaseView {
        LeaseView {
            job_id: self.job_id@,
            input_url: self.input_url@,
            output_url: self.output_url@,
            ffmpeg_args: self.ffmpeg_args.deep_view(),
            output_ext: self.output_ext@,
            threads: self.threads,
        }
    }
}

/// A lease and the agent whose sink it goes to.
#[derive(Debug)]
pub struct Dispatched {
    pub agent_id: String,
    pub lease: Lease,
}

pub struct DispatchedView {
    pub agent_id: Seq<char>,
    pub lease: LeaseView,
}

impl View for Dispatched {
    type V = DispatchedView;

    open spec fn view(&self) -> DispatchedView {
        DispatchedView { agent_id: self.agent_id@, lease: self.lease@ }
    }
}

pub open spec fn dispatched_view(v: Seq<Dispatched>) -> Seq<DispatchedView> {
    Seq::new(v.len(), |i: int| v[i]@)
}

/// The address from which an agent fetches a job's input.
pub open spec fn input_url(base: Seq<char>, job_id: Seq<char>, token: Seq<char>) -> Seq<char> {
    trim_end(base, '/') + "/stream/input/"@ + percent_encoded(job_id) + "?token="@ + token
}

/// The address to which an agent sends a job's output.
pub open spec fn output_url(base: Seq<char>, job_id: Seq<char>, token: Seq<char>) -> Seq<char> {
    trim_end(base, '/') + "/stream/output/"@ + percent_encoded(job_id) + "?token="@ + token
}

/// The lease that grants `job` to `agent`.
pub open spec fn lease_for(base: Seq<char>, job: JobView, agent: AgentView) -> LeaseView {
    LeaseView {
        job_id: job.id,
        input_url: input_url(base, job.id, job.input_token),
        output_url: output_url(base, job.id, job.output_token),
        ffmpeg_args: ffmpeg_args(job.plan, preferred_encoder(job.plan, agent.encoders)),
        output_ext: output_ext(job.plan.media_type, job.plan.codec),
        threads: 0,
    }
}

impl StateView {
    /// The agent at `a` can take a job that needs one of `needed`: its sink
    /// is live, it has room, and it advertises one of the encoders.
    pub open spec fn eligible(self, a: int, needed: Seq<Seq<char>>) -> bool {
        &&& 0 <= a < self.agents.len()
        &&& self.channels.contains(self.agents[a].id)
        &&& self.agents[a].has_capacity()
        &&& intersects(needed, self.agents[a].encoders)
    }

    /// The agent at `a` is preferred to the one at `b`: it has fewer
    /// leases, or as many and stands no later in the registry.
    pub open spec fn ranks_before(self, a: int, b: int) -> bool {
        self.agents[a].active_jobs < self.agents[b].active_jobs || (self.agents[a].active_jobs
            == self.agents[b].active_jobs && a <= b)
    }

    /// The agent at `a` is the one to lease to: eligible, and preferred to
    /// every eligible agent.
    pub open spec fn is_pick(self, a: int, needed: Seq<Seq<char>>) -> bool {
        &&& self.eligible(a, needed)
        &&& forall|b: int| #[trigger] self.eligible(b, needed) ==> self.ranks_before(a, b)
    }

    /// The agent to lease to: the least loaded of the eligible agents, the
    /// first of them in the registry where several are.
    pub open spec fn pick_agent(self, needed: Seq<Seq<char>>) -> Option<int> {
        if exists|a: int| self.is_pick(a, needed) {
            Some(choose|a: int| self.is_pick(a, needed))
        } else {
            None
        }
    }

    /// The job at `j` is leased to the agent at `a`: one more lease counts
    /// against the agent, and the job is assigned to it.
    pub open spec fn assigned(self, j: int, a: int, now: i64) -> StateView {
        StateView {
            agents: self.agents.update(
                a,
                AgentView {
                    active_jobs: (self.agents[a].active_jobs + 1) as u32,
                    ..self.agents[a]
                },
            ),
            jobs: self.jobs.update(
                j,
                JobView {
                    status: JobStatus::Assigned,
                    node_id: Some(self.agents[a].id),
                    updated_at: now,
                    ..self.jobs[j]
                },
            ),
            ..self
        }
    }

    /// What goes to the agent at `a` when the job at `j` is leased to it.
    pub open spec fn dispatch_of(self, j: int, a: int) -> DispatchedView {
        DispatchedView {
            agent_id: self.agents[a].id,
            lease: lease_for(self.public_base_url, self.jobs[j], self.agents[a]),
        }
    }

    /// One sweep of the dispatcher: the state it leaves and the leases it
    /// grants, in order.
    ///
    /// The head of the queue is taken. An identifier without a job is
    /// dropped. A job that no agent can take goes back to the tail, and the
    /// sweep ends. Otherwise the job is leased and the sweep goes on.
    pub open spec fn sweep(self, now: i64) -> (StateView, Seq<DispatchedView>)
        decreases self.pending.len(),
    {
        if self.pending.len() == 0 {
            (self, Seq::empty())
        } else {
            let id = self.pending[0];
            let rest = self.without_head();
            match self.job_index(id) {
                None => rest.sweep(now),
                Some(j) => match self.pick_agent(
                    required(self.jobs[j].plan.media_type, self.jobs[j].plan.codec),
                ) {
                    None => (rest.requeued(id), Seq::empty()),
                    Some(a) => {
                        let after = rest.assigned(j, a, now).sweep(now);
                        (after.0, seq![self.dispatch_of(j, a)] + after.1)
                    },
                },
            }
        }
    }
}

/// There is one agent to lease to at most.
pub proof fn lemma_pick(s: StateView, needed: Seq<Seq<char>>, a: int)
    requires
        s.is_pick(a, needed),
    ensures
        s.pick_agent(needed) == Some(a),
{
    let c = choose|c: int| s.is_pick(c, needed);
    assert(s.is_pick(c, needed));
    assert(s.ranks_before(a, c));
    assert(s.ranks_before(c, a));
}

/// Where no agent is eligible, none is picked.
pub proof fn lemma_pick_none(s: StateView, needed: Seq<Seq<char>>)
    requires
        forall|a: int| !s.eligible(a, needed),
    ensures
        s.pick_agent(needed) is None,
{
}

fn stream_url(base: &str, route: &str, job_id: &str, token: &str) -> (r: String)
    ensures
        r@ == trim_end(base@, '/') + route@ + percent_encoded(job_id@) + "?token="@ + token@,
{
    let mut r = trim_end_matches(base, '/').to_owned();
    r.append(route);
    let encoded = url_encode(job_id);
    r.append(encoded.as_str());
    r.append("?token=");
    r.append(token);
    r
}

/// The lease that grants `job` to `agent`, with addresses under `base`.
pub fn build_lease(base: &str, job: &Job, agent: &AgentInfo) -> (lease: Lease)
    ensures
        lease@ == lease_for(base@, job@, agent@),
{
    let encoder = select_preferred_encoder(job, agent.encoders.as_slice());
    let args = match &encoder {
        Some(e) => build_ffmpeg_args_with_encoder(job, Some(e.as_str())),
        None => build_ffmpeg_args_with_encoder(job, None),
    };
    Lease {
        job_id: job.id.clone(),
        input_url: stream_url(base, "/stream/input/", job.id.as_str(), job.input_token.as_str()),
        output_url: stream_url(base, "/stream/output/", job.id.as_str(), job.output_token.as_str()),
        ffmpeg_args: args,
        output_ext: compute_output_ext(&job.plan.media_type, job.plan.codec.as_str()),
        threads: 0,
    }
}

/// Whether the agent advertises one of the needed encoders.
pub fn has_any_encoder(needed: &Vec<&'static str>, have: &[String]) -> (r: bool)
    ensures
        r == intersects(needed.deep_view(), have.deep_view()),
{
    let mut i: usize = 0;
    while i < needed.len()
        invariant
            i <= needed.len(),
            forall|k: int| 0 <= k < i ==> !have.deep_view().contains(#[trigger] needed.deep_view()[k]),
        decreases needed.len() - i,
    {
        assert(needed.deep_view()[i as int] == needed@[i as int]@);
        if contains_name(have, needed[i]) {
            return true;
        }
        i += 1;
    }
    false
}

impl AppState {
    /// Whether the agent at `a` can take a job that needs one of `needed`.
    pub fn is_eligible(&self, a: usize, needed: &Vec<&'static str>) -> (r: bool)
        requires
            a < self.agents.len(),
        ensures
            r == self@.eligible(a as int, needed.deep_view()),
    {
        let agent = &self.agents[a];
        self.has_sink(agent.id.as_str()) && agent.active_jobs < agent.concurrency
            && has_any_encoder(needed, agent.encoders.as_slice())
    }

    /// The place of the agent to lease a job to that needs one of `needed`.
    pub fn pick_agent(&self, needed: &Vec<&'static str>) -> (r: Option<usize>)
        ensures
            opt_int(r) == self@.pick_agent(needed.deep_view()),
            r matches Some(a) ==> self@.is_pick(a as int, needed.deep_view()),
    {
        let ghost s = self@;
        let ghost want = needed.deep_view();
        let mut best: Option<usize> = None;
        let mut i: usize = 0;
        while i < self.agents.len()
            invariant
                i <= self.agents.len(),
                s == self@,
                want == needed.deep_view(),
                best matches Some(b) ==> b < i && s.eligible(b as int, want) && forall|k: int|
                    0 <= k < i && #[trigger] s.eligible(k, want) ==> s.ranks_before(b as int, k),
                best is None ==> forall|k: int| 0 <= k < i ==> !#[trigger] s.eligible(k, want),
            decreases self.agents.len() - i,
        {
            if self.is_eligible(i, needed) {
                match best {
                    None => {
                        best = Some(i);
                    },
                    Some(b) => {
                        if self.agents[i].active_jobs < self.agents[b].active_jobs {
                            best = Some(i);
                        }
                    },
                }
            }
            i += 1;
        }
        proof {
            match best {
                Some(b) => {
                    lemma_pick(s, want, b as int);
                },
                None => {
                    lemma_pick_none(s, want);
                },
            }
        }
        best
    }

    /// One sweep of the dispatcher at the time `now`. Returns the leases
    /// granted, in order, each with the agent whose sink it is for.
    pub fn try_dispatch_at(&mut self, now: i64) -> (sent: Vec<Dispatched>)
        ensures
            (final(self)@, dispatched_view(sent@)) == old(self)@.sweep(now),
            old(self)@.wf() ==> final(self)@.wf(),
            old(self)@.valid() ==> final(self)@.valid() && old(self)@.steps_to(final(self)@),
    {
        let ghost start = self@;
        proof {
            if start.wf() {
                crate::laws::lemma_sweep_wf(start, now);
            }
            if start.valid() {
                crate::laws::lemma_sweep_keeps_queue(start, now);
            }
        }
        let mut sent: Vec<Dispatched> = Vec::new();
        assert(dispatched_view(sent@) =~= Seq::empty());
        assert(dispatched_view(sent@) + self@.sweep(now).1 =~= self@.sweep(now).1);
        loop
            invariant_except_break
                start.sweep(now) == (
                    self@.sweep(now).0,
                    dispatched_view(sent@) + self@.sweep(now).1,
                ),
            ensures
                start.sweep(now) == (self@, dispatched_view(sent@)),
            decreases self@.pending.len(),
        {
            let ghost before = self@;
            let ghost sent_before = dispatched_view(sent@);
            let id = match self.take_pending() {
                Some(id) => id,
                None => {
                    assert(sent_before + Seq::<DispatchedView>::empty() =~= sent_before);
                    break ;
                },
            };
            let found = self.find_job(id.as_str());
            assert(self@.job_ids() =~= before.job_ids());
            let j = match found {
                Some(j) => j,
                None => {
                    continue ;
                },
            };
            let needed = required_encoders(&self.jobs[j]);
            let picked = self.pick_agent(&needed);
            assert(self@.pick_agent(needed.deep_view()) == before.pick_agent(needed.deep_view())) by {
                lemma_pick_ignores_queue(before, self@, needed.deep_view());
            }
            let a = match picked {
                Some(a) => a,
                None => {
                    self.requeue(id);
                    assert(sent_before + Seq::<DispatchedView>::empty() =~= sent_before);
                    break ;
                },
            };
            let lease = build_lease(self.public_base_url.as_str(), &self.jobs[j], &self.agents[a]);
            let agent_id = self.agents[a].id.clone();
            let ghost rest = self@;
            self.agents[a].active_jobs = self.agents[a].active_jobs + 1;
            self.jobs[j].status = JobStatus::Assigned;
            self.jobs[j].node_id = Some(agent_id.clone());
            self.jobs[j].updated_at = now;
            assert(self@.agents =~= rest.assigned(j as int, a as int, now).agents);
            assert(self@.jobs =~= rest.assigned(j as int, a as int, now).jobs);
            assert(self@ == rest.assigned(j as int, a as int, now));
            let item = Dispatched { agent_id: agent_id, lease: lease };
            assert(item@ == before.dispatch_of(j as int, a as int));
            sent.push(item);
            assert(dispatched_view(sent@) =~= sent_before.push(item@));
            assert(sent_before + (seq![item@] + self@.sweep(now).1) =~= sent_before.push(item@)
                + self@.sweep(now).1);
        }
        sent
    }

}

/// One sweep of the dispatcher at the present time. Returns the leases
/// granted, in order, each with the agent whose sink it is for.
pub fn try_dispatch(state: &mut AppState) -> (sent: Vec<Dispatched>)
    ensures
        exists|now: i64| (final(state)@, dispatched_view(sent@)) == old(state)@.sweep(now),
        old(state)@.wf() ==> final(state)@.wf(),
        old(state)@.valid() ==> final(state)@.valid() && old(state)@.steps_to(final(state)@),
{
    let now = now_millis();
    state.try_dispatch_at(now)
}

/// Which agent is picked does not depend on the pending queue.
pub proof fn lemma_pick_ignores_queue(s: StateView, t: StateView, needed: Seq<Seq<char>>)
    requires
        s.agents == t.agents,
        s.channels == t.channels,
    ensures
        s.pick_agent(needed) == t.pick_agent(needed),
{
    assert forall|a: int| s.eligible(a, needed) == t.eligible(a, needed) by {}
    assert forall|a: int| s.is_pick(a, needed) == t.is_pick(a, needed) by {
        if s.is_pick(a, needed) {
            assert forall|b: int| #[trigger] t.eligible(b, needed) implies t.ranks_before(a, b) by {
                assert(s.eligible(b, needed));
            }
        }
        if t.is_pick(a, needed) {
            assert forall|b: int| #[trigger] s.eligible(b, needed) implies s.ranks_before(a, b) by {
                assert(t.eligible(b, needed));
            }
        }
    }
    if exists|a: int| s.is_pick(a, needed) {
        let a = choose|a: int| s.is_pick(a, needed);
        assert(t.is_pick(a, needed));
        lemma_pick(t, needed, a);
    } else {
        if exists|a: int| t.is_pick(a, needed) {
            let a = choose|a: int| t.is_pick(a, needed);
            assert(s.is_pick(a, needed));
        }
    }
}

} // verus!
