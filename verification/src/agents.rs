//! What the controller knows of a connected agent.

use crate::text::clone_names;
use vstd::prelude::*;

verus! {

/// The record of an agent: what it declared when it registered, and its
/// live load.
#[derive(Debug)]
pub struct AgentInfo {
    pub id: String,
    pub name: String,
    /// The most leases the agent takes at a time.
    pub concurrency: u32,
    /// The encoder names the agent advertises.
    pub encoders: Vec<String>,
    /// The leases outstanding.
    pub active_jobs: u32,
    /// Milliseconds since the epoch at the last sign of life.
    pub last_heartbeat: i64,
    /// Memory in use, as last reported.
    pub mem_used: u64,
    /// Memory installed, as last reported.
    pub mem_total: u64,
}

pub struct AgentView {
    pub id: Seq<char>,
    pub name: Seq<char>,
    pub concurrency: u32,
    pub encoders: Seq<Seq<char>>,
    pub active_jobs: u32,
    pub last_heartbeat: i64,
    pub mem_used: u64,
    pub mem_total: u64,
}

impl AgentView {
    /// Room for one more lease.
    pub open spec fn has_capacity(self) -> bool {
        self.active_jobs < self.concurrency
    }
}

impl View for AgentInfo {
    type V = AgentView;

    open spec fn view(&self) -> AgentView {
        AgentView {
            id: self.id@,
            name: self.name@,
            concurrency: self.concurrency,
            encoders: self.encoders.deep_view(),
            active_jobs: self.active_jobs,
            last_heartbeat: self.last_heartbeat,
            mem_used: self.mem_used,
            mem_total: self.mem_total,
        }
    }
}

impl Clone for AgentInfo {
    fn clone(&self) -> (r: Self)
        ensures
            r@ == self@,
    {
        AgentInfo {
            id: self.id.clone(),
            name: self.name.clone(),
            concurrency: self.concurrency,
            encoders: clone_names(&self.encoders),
            active_jobs: self.active_jobs,
            last_heartbeat: self.last_heartbeat,
            mem_used: self.mem_used,
            mem_total: self.mem_total,
        }
    }
}

} // verus!
