//! The controller's state: the agent registry, the job registry, the
//! pending queue, the pairing tokens and the public base URL.

use crate::agents::{AgentInfo, AgentView};
use crate::jobs::{Job, JobStatus, JobView};
use crate::text::{contains_name, str_eq};
use std::collections::VecDeque;
use vstd::prelude::*;
use vstd::utf8::encode_utf8;

verus! {

/// `i` is the first place at which `id` stands in `ids`.
pub open spec fn is_position(ids: Seq<Seq<char>>, id: Seq<char>, i: int) -> bool {
    &&& 0 <= i < ids.len()
    &&& ids[i] == id
    &&& forall|j: int| 0 <= j < i ==> ids[j] != id
}

/// The first place at which `id` stands in `ids`.
pub open spec fn position(ids: Seq<Seq<char>>, id: Seq<char>) -> Option<int> {
    if exists|i: int| is_position(ids, id, i) {
        Some(choose|i: int| is_position(ids, id, i))
    } else {
        None
    }
}

/// There is one first place at most.
pub proof fn lemma_position(ids: Seq<Seq<char>>, id: Seq<char>, i: int)
    requires
        is_position(ids, id, i),
    ensures
        position(ids, id) == Some(i),
{
    let c = choose|c: int| is_position(ids, id, c);
    assert(is_position(ids, id, c));
    if c < i {
        assert(ids[c] != id);
    }
    if i < c {
        assert(ids[i] != id);
    }
}

/// An identifier that does not occur has no place.
pub proof fn lemma_position_none(ids: Seq<Seq<char>>, id: Seq<char>)
    requires
        !ids.contains(id),
    ensures
        position(ids, id) is None,
{
    if exists|i: int| is_position(ids, id, i) {
        let c = choose|c: int| is_position(ids, id, c);
        assert(ids[c] == id);
    }
}

/// What `position` finds is in range and holds the identifier; what it
/// does not find does not occur.
pub proof fn lemma_position_found(ids: Seq<Seq<char>>, id: Seq<char>)
    ensures
        position(ids, id) matches Some(i) ==> is_position(ids, id, i),
        position(ids, id) is None ==> !ids.contains(id),
{
    if position(ids, id) is None && ids.contains(id) {
        lemma_first_occurrence(ids, id, ids.len() as int);
    }
}

/// Among the first `n` identifiers, one that occurs has a first place.
proof fn lemma_first_occurrence(ids: Seq<Seq<char>>, id: Seq<char>, n: int)
    requires
        0 <= n <= ids.len(),
        exists|k: int| 0 <= k < n && ids[k] == id,
    ensures
        exists|i: int| is_position(ids, id, i),
    decreases n,
{
    if exists|k: int| 0 <= k < n - 1 && ids[k] == id {
        lemma_first_occurrence(ids, id, n - 1);
    } else {
        assert(ids[n - 1] == id);
        assert(is_position(ids, id, n - 1));
    }
}

pub open spec fn agents_view(v: Seq<AgentInfo>) -> Seq<AgentView> {
    Seq::new(v.len(), |i: int| v[i]@)
}

pub open spec fn jobs_view(v: Seq<Job>) -> Seq<JobView> {
    Seq::new(v.len(), |i: int| v[i]@)
}

pub open spec fn opt_int(i: Option<usize>) -> Option<int> {
    match i {
        Some(x) => Some(x as int),
        None => None,
    }
}

/// The length of a pairing token: the number of bytes of its UTF-8 form.
pub open spec fn token_length(token: Seq<char>) -> nat {
    encode_utf8(token).len()
}

/// The controller's state, as mathematics.
pub struct StateView {
    /// The agent records, in the order in which their identifiers first registered.
    pub agents: Seq<AgentView>,
    /// The identifiers of the agents whose session holds a live outbound sink.
    pub channels: Set<Seq<char>>,
    /// The pairing tokens that registration accepts.
    pub tokens: Set<Seq<char>>,
    pub public_base_url: Seq<char>,
    /// The jobs, in the order of their admission.
    pub jobs: Seq<JobView>,
    /// The identifiers of the jobs that wait for an agent, first in first out.
    pub pending: Seq<Seq<char>>,
}

impl StateView {
    pub open spec fn job_ids(self) -> Seq<Seq<char>> {
        Seq::new(self.jobs.len(), |i: int| self.jobs[i].id)
    }

    pub open spec fn agent_ids(self) -> Seq<Seq<char>> {
        Seq::new(self.agents.len(), |i: int| self.agents[i].id)
    }

    /// Where the job with this identifier stands, if there is one.
    pub open spec fn job_index(self, id: Seq<char>) -> Option<int> {
        position(self.job_ids(), id)
    }

    /// Where the agent with this identifier stands, if there is one.
    pub open spec fn agent_index(self, id: Seq<char>) -> Option<int> {
        position(self.agent_ids(), id)
    }

    pub open spec fn job(self, id: Seq<char>) -> Option<JobView> {
        match self.job_index(id) {
            Some(i) => Some(self.jobs[i]),
            None => None,
        }
    }

    pub open spec fn agent(self, id: Seq<char>) -> Option<AgentView> {
        match self.agent_index(id) {
            Some(i) => Some(self.agents[i]),
            None => None,
        }
    }

    /// The state a controller starts in: nothing registered, nothing
    /// admitted, and the given pairing token, if it is 25 long.
    pub open spec fn initial(default_token: Seq<char>) -> StateView {
        StateView {
            agents: Seq::empty(),
            channels: Set::empty(),
            tokens: if token_length(default_token) == 25 {
                Set::empty().insert(default_token)
            } else {
                Set::empty()
            },
            public_base_url: "http://localhost:4000"@,
            jobs: Seq::empty(),
            pending: Seq::empty(),
        }
    }

    /// The job's status is set and its `updated_at` refreshed; nothing
    /// changes where no job has this identifier.
    pub open spec fn with_job_status(self, id: Seq<char>, status: JobStatus, now: i64) -> StateView {
        match self.job_index(id) {
            Some(i) => StateView {
                jobs: self.jobs.update(i, JobView { status: status, updated_at: now, ..self.jobs[i] }),
                ..self
            },
            None => self,
        }
    }

    /// The queue without its head.
    pub open spec fn without_head(self) -> StateView {
        StateView { pending: self.pending.drop_first(), ..self }
    }

    /// The identifier joins the queue at its tail.
    pub open spec fn requeued(self, id: Seq<char>) -> StateView {
        StateView { pending: self.pending.push(id), ..self }
    }

    /// The record takes the place of the one with the same identifier, or
    /// joins the registry at its end; the agent's sink is bound.
    pub open spec fn with_agent(self, info: AgentView) -> StateView {
        StateView {
            agents: match self.agent_index(info.id) {
                Some(i) => self.agents.update(i, info),
                None => self.agents.push(info),
            },
            channels: self.channels.insert(info.id),
            ..self
        }
    }

    /// The agent's sink is unbound; its record stays.
    pub open spec fn without_sink(self, id: Seq<char>) -> StateView {
        StateView { channels: self.channels.remove(id), ..self }
    }

    /// The agent's `last_heartbeat` is refreshed, where there is such an agent.
    pub open spec fn with_heartbeat(self, id: Seq<char>, now: i64) -> StateView {
        match self.agent_index(id) {
            Some(i) => StateView {
                agents: self.agents.update(i, AgentView { last_heartbeat: now, ..self.agents[i] }),
                ..self
            },
            None => self,
        }
    }

    /// One more lease is counted against the agent, where it has room.
    pub open spec fn with_load_inc(self, id: Seq<char>) -> StateView {
        match self.agent_index(id) {
            Some(i) => if self.agents[i].has_capacity() {
                StateView {
                    agents: self.agents.update(
                        i,
                        AgentView {
                            active_jobs: (self.agents[i].active_jobs + 1) as u32,
                            ..self.agents[i]
                        },
                    ),
                    ..self
                }
            } else {
                self
            },
            None => self,
        }
    }

    /// One lease less is counted against the agent, never below zero.
    pub open spec fn with_load_dec(self, id: Seq<char>) -> StateView {
        match self.agent_index(id) {
            Some(i) => if self.agents[i].active_jobs > 0 {
                StateView {
                    agents: self.agents.update(
                        i,
                        AgentView {
                            active_jobs: (self.agents[i].active_jobs - 1) as u32,
                            ..self.agents[i]
                        },
                    ),
                    ..self
                }
            } else {
                self
            },
            None => self,
        }
    }
}

/// The controller's state. One value holds all of it; whoever shares it
/// between tasks puts it behind one lock, so that each operation is atomic.
#[derive(Debug)]
pub struct AppState {
    /// The agent records; no identifier occurs twice.
    pub agents: Vec<AgentInfo>,
    /// The identifiers of the agents with a live outbound sink.
    pub agent_channels: Vec<String>,
    /// The pairing tokens that registration accepts.
    pub allowed_tokens: Vec<String>,
    pub public_base_url: String,
    /// The jobs; no identifier occurs twice.
    pub jobs: Vec<Job>,
    /// The identifiers of the waiting jobs, first in first out.
    pub pending_jobs: VecDeque<String>,
}

impl View for AppState {
    type V = StateView;

    open spec fn view(&self) -> StateView {
        StateView {
            agents: agents_view(self.agents@),
            channels: self.agent_channels.deep_view().to_set(),
            tokens: self.allowed_tokens.deep_view().to_set(),
            public_base_url: self.public_base_url@,
            jobs: jobs_view(self.jobs@),
            pending: self.pending_jobs.deep_view(),
        }
    }
}

/// Adds `name` to a list that stands for a set.
pub fn insert_name(names: &mut Vec<String>, name: String)
    ensures
        final(names).deep_view().to_set() == old(names).deep_view().to_set().insert(name@),
{
    let ghost before = names.deep_view();
    if !contains_name(names.as_slice(), name.as_str()) {
        names.push(name);
        assert(names.deep_view() =~= before.push(name@));
        assert forall|x: Seq<char>| before.push(name@).contains(x) <==> (before.contains(x) || x
            == name@) by {
            lemma_push_contains(before, name@, x);
        }
    }
    assert(names.deep_view().to_set() =~= before.to_set().insert(name@));
}

/// Takes `name` out of a list that stands for a set.
pub fn remove_name(names: &mut Vec<String>, name: &str)
    ensures
        final(names).deep_view().to_set() == old(names).deep_view().to_set().remove(name@),
{
    let ghost before = names.deep_view();
    let mut kept: Vec<String> = Vec::new();
    let mut i: usize = 0;
    while i < names.len()
        invariant
            i <= names.len(),
            before == names.deep_view(),
            forall|x: Seq<char>|
                kept.deep_view().contains(x) <==> (x != name@ && before.take(i as int).contains(x)),
        decreases names.len() - i,
    {
        let ghost kept_before = kept.deep_view();
        let ghost item = names@[i as int]@;
        assert(before[i as int] == item);
        assert(before.take(i as int + 1) =~= before.take(i as int).push(item));
        let keep = !str_eq(names[i].as_str(), name);
        if keep {
            kept.push(names[i].clone());
            assert(kept.deep_view() =~= kept_before.push(item));
        }
        assert forall|x: Seq<char>|
            kept.deep_view().contains(x) <==> (x != name@ && before.take(i as int + 1).contains(
                x,
            )) by {
            lemma_push_contains(before.take(i as int), item, x);
            if keep {
                lemma_push_contains(kept_before, item, x);
            }
        }
        i += 1;
    }
    assert(before.take(i as int) =~= before);
    *names = kept;
    assert(names.deep_view().to_set() =~= before.to_set().remove(name@));
}

/// A list with one more item holds what it held, and the item.
pub proof fn lemma_push_contains(s: Seq<Seq<char>>, item: Seq<char>, x: Seq<char>)
    ensures
        s.push(item).contains(x) <==> (s.contains(x) || x == item),
{
    if s.push(item).contains(x) {
        let i = choose|i: int| 0 <= i < s.push(item).len() && s.push(item)[i] == x;
        if i < s.len() {
            assert(s[i] == x);
        }
    }
    if s.contains(x) {
        let i = choose|i: int| 0 <= i < s.len() && s[i] == x;
        assert(s.push(item)[i] == x);
    }
    if x == item {
        assert(s.push(item)[s.len() as int] == x);
    }
}

impl AppState {
    /// A controller's state at its start. The token is paired if it is 25
    /// long; a token of another length is left out.
    pub fn new(default_token: String) -> (s: AppState)
        ensures
            s@ == StateView::initial(default_token@),
            s@.valid(),
    {
        proof {
            crate::laws::lemma_initial_state(default_token@);
        }
        let mut tokens: Vec<String> = Vec::new();
        let ghost t = default_token@;
        assert(tokens.deep_view() =~= Seq::<Seq<char>>::empty());
        if default_token.as_str().as_bytes().len() == 25 {
            tokens.push(default_token);
            assert(tokens.deep_view() =~= seq![t]);
        }
        let s = AppState {
            agents: Vec::new(),
            agent_channels: Vec::new(),
            allowed_tokens: tokens,
            public_base_url: "http://localhost:4000".to_owned(),
            jobs: Vec::new(),
            pending_jobs: VecDeque::new(),
        };
        assert(s@.agents =~= Seq::empty());
        assert(s@.jobs =~= Seq::empty());
        assert(s@.pending =~= Seq::empty());
        assert(s@.channels =~= Set::empty());
        assert(s@.tokens =~= StateView::initial(t).tokens) by {
            assert forall|x: Seq<char>| seq![t].contains(x) <==> x == t by {
                if x == t {
                    assert(seq![t][0] == x);
                }
            }
        }
        s
    }

    /// Where the job with this identifier stands.
    pub fn find_job(&self, id: &str) -> (r: Option<usize>)
        ensures
            opt_int(r) == self@.job_index(id@),
            r matches Some(i) ==> i < self.jobs.len() && self.jobs[i as int].id@ == id@,
    {
        let mut i: usize = 0;
        while i < self.jobs.len()
            invariant
                i <= self.jobs.len(),
                forall|j: int| 0 <= j < i ==> self@.job_ids()[j] != id@,
            decreases self.jobs.len() - i,
        {
            if str_eq(self.jobs[i].id.as_str(), id) {
                proof {
                    lemma_position(self@.job_ids(), id@, i as int);
                }
                return Some(i);
            }
            i += 1;
        }
        proof {
            lemma_position_none(self@.job_ids(), id@);
        }
        None
    }

    /// Where the agent with this identifier stands.
    pub fn find_agent(&self, id: &str) -> (r: Option<usize>)
        ensures
            opt_int(r) == self@.agent_index(id@),
            r matches Some(i) ==> i < self.agents.len() && self.agents[i as int].id@ == id@,
    {
        let mut i: usize = 0;
        while i < self.agents.len()
            invariant
                i <= self.agents.len(),
                forall|j: int| 0 <= j < i ==> self@.agent_ids()[j] != id@,
            decreases self.agents.len() - i,
        {
            if str_eq(self.agents[i].id.as_str(), id) {
                proof {
                    lemma_position(self@.agent_ids(), id@, i as int);
                }
                return Some(i);
            }
            i += 1;
        }
        proof {
            lemma_position_none(self@.agent_ids(), id@);
        }
        None
    }

    /// A copy of the job with this identifier.
    pub fn get_job(&self, id: &str) -> (r: Option<Job>)
        ensures
            match r {
                Some(j) => Some(j@),
                None => None,
            } == self@.job(id@),
    {
        match self.find_job(id) {
            Some(i) => Some(self.jobs[i].clone()),
            None => None,
        }
    }

    /// Sets the status of a job and refreshes its `updated_at`. Returns
    /// whether there is such a job.
    pub fn update_status(&mut self, id: &str, status: JobStatus, now: i64) -> (found: bool)
        ensures
            final(self)@ == old(self)@.with_job_status(id@, status, now),
            found == old(self)@.job_index(id@) is Some,
    {
        match self.find_job(id) {
            Some(i) => {
                self.jobs[i].status = status;
                self.jobs[i].updated_at = now;
                assert(self@.jobs =~= old(self)@.jobs.update(
                    i as int,
                    JobView { status: status, updated_at: now, ..old(self)@.jobs[i as int] },
                ));
                true
            },
            None => false,
        }
    }

    /// Takes the head of the pending queue.
    pub fn take_pending(&mut self) -> (r: Option<String>)
        ensures
            old(self)@.pending.len() == 0 ==> r is None && final(self)@ == old(self)@,
            old(self)@.pending.len() > 0 ==> r is Some && r->0@ == old(self)@.pending[0]
                && final(self)@ == old(self)@.without_head(),
    {
        let r = self.pending_jobs.pop_front();
        assert(old(self)@.pending.len() > 0 ==> self@.pending =~= old(self)@.pending.drop_first());
        r
    }

    /// Puts a job's identifier at the tail of the pending queue.
    pub fn requeue(&mut self, id: String)
        ensures
            final(self)@ == old(self)@.requeued(id@),
    {
        self.pending_jobs.push_back(id);
        assert(self@.pending =~= old(self)@.pending.push(id@));
    }

    /// Registers an agent: its record replaces the one with the same
    /// identifier or joins the registry, and its outbound sink is bound.
    pub fn register_agent(&mut self, info: AgentInfo)
        ensures
            final(self)@ == old(self)@.with_agent(info@),
    {
        let id = info.id.clone();
        match self.find_agent(id.as_str()) {
            Some(i) => {
                self.agents[i] = info;
                assert(self@.agents =~= old(self)@.agents.update(i as int, info@));
            },
            None => {
                self.agents.push(info);
                assert(self@.agents =~= old(self)@.agents.push(info@));
            },
        }
        insert_name(&mut self.agent_channels, id);
    }

    /// Unbinds an agent's outbound sink. The record stays.
    pub fn deregister(&mut self, id: &str)
        ensures
            final(self)@ == old(self)@.without_sink(id@),
    {
        remove_name(&mut self.agent_channels, id);
    }

    /// Refreshes an agent's `last_heartbeat`.
    pub fn update_heartbeat(&mut self, id: &str, now: i64)
        ensures
            final(self)@ == old(self)@.with_heartbeat(id@, now),
    {
        match self.find_agent(id) {
            Some(i) => {
                self.agents[i].last_heartbeat = now;
                assert(self@.agents =~= old(self)@.agents.update(
                    i as int,
                    AgentView { last_heartbeat: now, ..old(self)@.agents[i as int] },
                ));
            },
            None => {},
        }
    }

    /// Counts one more lease against an agent that has room for it.
    pub fn inc_load(&mut self, id: &str)
        ensures
            final(self)@ == old(self)@.with_load_inc(id@),
    {
        match self.find_agent(id) {
            Some(i) => {
                if self.agents[i].active_jobs < self.agents[i].concurrency {
                    self.agents[i].active_jobs = self.agents[i].active_jobs + 1;
                    assert(self@.agents =~= old(self)@.agents.update(
                        i as int,
                        AgentView {
                            active_jobs: (old(self)@.agents[i as int].active_jobs + 1) as u32,
                            ..old(self)@.agents[i as int]
                        },
                    ));
                }
            },
            None => {},
        }
    }

    /// Counts one lease less against an agent, never below zero.
    pub fn dec_load(&mut self, id: &str)
        ensures
            final(self)@ == old(self)@.with_load_dec(id@),
    {
        match self.find_agent(id) {
            Some(i) => {
                if self.agents[i].active_jobs > 0 {
                    self.agents[i].active_jobs = self.agents[i].active_jobs - 1;
                    assert(self@.agents =~= old(self)@.agents.update(
                        i as int,
                        AgentView {
                            active_jobs: (old(self)@.agents[i as int].active_jobs - 1) as u32,
                            ..old(self)@.agents[i as int]
                        },
                    ));
                }
            },
            None => {},
        }
    }

    /// Whether an agent's outbound sink is bound.
    pub fn has_sink(&self, id: &str) -> (r: bool)
        ensures
            r == self@.channels.contains(id@),
    {
        contains_name(self.agent_channels.as_slice(), id)
    }

    /// Copies of all agent records, in registry order.
    pub fn snapshot(&self) -> (r: Vec<AgentInfo>)
        ensures
            agents_view(r@) == self@.agents,
    {
        let mut r: Vec<AgentInfo> = Vec::new();
        let mut i: usize = 0;
        while i < self.agents.len()
            invariant
                i <= self.agents.len(),
                r.len() == i,
                forall|j: int| 0 <= j < i ==> r@[j]@ == self.agents@[j]@,
            decreases self.agents.len() - i,
        {
            r.push(self.agents[i].clone());
            i += 1;
        }
        assert(agents_view(r@) =~= self@.agents);
        r
    }
}

} // verus!
