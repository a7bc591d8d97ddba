//! The messages of the control channel as JSON text.

use crate::deps::{json_quote, json_quoted};
use crate::dispatch::{Lease, LeaseView};
use crate::session::{ServerMessage, ServerMessageView};
use crate::text::{decimal, u64_to_string};
use crate::config::AgentConfig;
use crate::worker::{fields_view, Field, Identity, ProgressReport};
use vstd::prelude::*;
use vstd::string::StringExecFns;

verus! {

/// The items as JSON strings with commas between them.
pub open spec fn joined(items: Seq<Seq<char>>) -> Seq<char>
    decreases items.len(),
{
    if items.len() == 0 {
        Seq::empty()
    } else if items.len() == 1 {
        json_quoted(items[0])
    } else {
        joined(items.drop_last()) + ","@ + json_quoted(items.last())
    }
}

/// The JSON array of the strings.
pub open spec fn json_array(items: Seq<Seq<char>>) -> Seq<char> {
    "["@ + joined(items) + "]"@
}

/// The pairs as JSON members with commas between them.
pub open spec fn joined_members(fields: Seq<(Seq<char>, Seq<char>)>) -> Seq<char>
    decreases fields.len(),
{
    if fields.len() == 0 {
        Seq::empty()
    } else if fields.len() == 1 {
        json_quoted(fields[0].0) + ":"@ + json_quoted(fields[0].1)
    } else {
        joined_members(fields.drop_last()) + ","@ + json_quoted(fields.last().0) + ":"@
            + json_quoted(fields.last().1)
    }
}

/// The JSON object whose members are the pairs.
pub open spec fn json_object(fields: Seq<(Seq<char>, Seq<char>)>) -> Seq<char> {
    "{"@ + joined_members(fields) + "}"@
}

pub open spec fn json_bool(b: bool) -> Seq<char> {
    if b {
        "true"@
    } else {
        "false"@
    }
}

/// The text of a lease message.
pub open spec fn lease_json(l: LeaseView) -> Seq<char> {
    "{\"type\":\"lease\",\"payload\":{\"jobId\":"@ + json_quoted(l.job_id) + ",\"inputUrl\":"@
        + json_quoted(l.input_url) + ",\"outputUrl\":"@ + json_quoted(l.output_url)
        + ",\"ffmpegArgs\":"@ + json_array(l.ffmpeg_args) + ",\"outputExt\":"@ + json_quoted(
        l.output_ext,
    ) + ",\"threads\":"@ + decimal(l.threads as nat) + "}}"@
}

/// The text of a message from the controller.
pub open spec fn server_json(m: ServerMessageView) -> Seq<char> {
    match m {
        ServerMessageView::Hello => "{\"type\":\"hello\"}"@,
        ServerMessageView::Registered { id } => "{\"type\":\"registered\",\"payload\":{\"id\":"@
            + json_quoted(id) + "}}"@,
        ServerMessageView::Error { error } => "{\"type\":\"error\",\"error\":"@ + json_quoted(error)
            + "}"@,
        ServerMessageView::Lease(l) => lease_json(l),
    }
}

/// A message from a worker to the controller.
#[derive(Debug)]
pub enum AgentFrame {
    Register { id: String, name: String, concurrency: u32, encoders: Vec<String>, token: String },
    Heartbeat { id: String },
    Progress { job_id: String, data: Vec<Field> },
    Complete { job_id: String, agent_id: String, success: bool },
}

pub enum AgentFrameView {
    Register {
        id: Seq<char>,
        name: Seq<char>,
        concurrency: u32,
        encoders: Seq<Seq<char>>,
        token: Seq<char>,
    },
    Heartbeat { id: Seq<char> },
    Progress { job_id: Seq<char>, data: Seq<(Seq<char>, Seq<char>)> },
    Complete { job_id: Seq<char>, agent_id: Seq<char>, success: bool },
}

impl View for AgentFrame {
    type V = AgentFrameView;

    open spec fn view(&self) -> AgentFrameView {
        match *self {
            AgentFrame::Register { id, name, concurrency, encoders, token } => {
                AgentFrameView::Register {
                    id: id@,
                    name: name@,
                    concurrency: concurrency,
                    encoders: encoders.deep_view(),
                    token: token@,
                }
            },
            AgentFrame::Heartbeat { id } => AgentFrameView::Heartbeat { id: id@ },
            AgentFrame::Progress { job_id, data } => AgentFrameView::Progress {
                job_id: job_id@,
                data: fields_view(data@),
            },
            AgentFrame::Complete { job_id, agent_id, success } => AgentFrameView::Complete {
                job_id: job_id@,
                agent_id: agent_id@,
                success: success,
            },
        }
    }
}

/// The text of a message from a worker.
pub open spec fn agent_json(m: AgentFrameView) -> Seq<char> {
    match m {
        AgentFrameView::Register { id, name, concurrency, encoders, token } => {
            "{\"type\":\"register\",\"payload\":{\"id\":"@ + json_quoted(id) + ",\"name\":"@
                + json_quoted(name) + ",\"concurrency\":"@ + decimal(concurrency as nat)
                + ",\"encoders\":"@ + json_array(encoders) + ",\"token\":"@ + json_quoted(token)
                + "}}"@
        },
        AgentFrameView::Heartbeat { id } => "{\"type\":\"heartbeat\",\"payload\":{\"id\":"@
            + json_quoted(id) + "}}"@,
        AgentFrameView::Progress { job_id, data } => {
            "{\"type\":\"progress\",\"payload\":{\"jobId\":"@ + json_quoted(job_id) + ",\"data\":"@
                + json_object(data) + "}}"@
        },
        AgentFrameView::Complete { job_id, agent_id, success } => {
            "{\"type\":\"complete\",\"payload\":{\"jobId\":"@ + json_quoted(job_id)
                + ",\"agentId\":"@ + json_quoted(agent_id) + ",\"success\":"@ + json_bool(success)
                + "}}"@
        },
    }
}

fn append_quoted(out: &mut String, s: &str)
    ensures
        final(out)@ == old(out)@ + json_quoted(s@),
{
    let q = json_quote(s);
    out.append(q.as_str());
}

fn append_array(out: &mut String, items: &Vec<String>)
    ensures
        final(out)@ == old(out)@ + json_array(items.deep_view()),
{
    let ghost start = out@;
    let ghost all = items.deep_view();
    out.append("[");
    let mut i: usize = 0;
    assert(all.take(0) =~= Seq::<Seq<char>>::empty());
    assert(out@ =~= start + "["@ + joined(all.take(0)));
    while i < items.len()
        invariant
            i <= items.len(),
            all == items.deep_view(),
            out@ == start + "["@ + joined(all.take(i as int)),
        decreases items.len() - i,
    {
        let ghost before = out@;
        assert(all.take(i as int + 1).drop_last() =~= all.take(i as int));
        assert(all.take(i as int + 1).last() == items@[i as int]@);
        if i > 0 {
            out.append(",");
        }
        append_quoted(out, items[i].as_str());
        assert(out@ =~= start + "["@ + joined(all.take(i as int + 1)));
        i += 1;
    }
    assert(all.take(i as int) =~= all);
    out.append("]");
    assert(out@ =~= start + json_array(all));
}

fn append_object(out: &mut String, fields: &Vec<Field>)
    ensures
        final(out)@ == old(out)@ + json_object(fields_view(fields@)),
{
    let ghost start = out@;
    let ghost all = fields_view(fields@);
    out.append("{");
    let mut i: usize = 0;
    assert(all.take(0) =~= Seq::<(Seq<char>, Seq<char>)>::empty());
    assert(out@ =~= start + "{"@ + joined_members(all.take(0)));
    while i < fields.len()
        invariant
            i <= fields.len(),
            all == fields_view(fields@),
            out@ == start + "{"@ + joined_members(all.take(i as int)),
        decreases fields.len() - i,
    {
        assert(all.take(i as int + 1).drop_last() =~= all.take(i as int));
        assert(all.take(i as int + 1).last() == (fields@[i as int].key@, fields@[i as int].value@));
        if i > 0 {
            out.append(",");
        }
        append_quoted(out, fields[i].key.as_str());
        out.append(":");
        append_quoted(out, fields[i].value.as_str());
        assert(out@ =~= start + "{"@ + joined_members(all.take(i as int + 1)));
        i += 1;
    }
    assert(all.take(i as int) =~= all);
    out.append("}");
    assert(out@ =~= start + json_object(all));
}

impl Lease {
    /// The text of the lease message.
    pub fn to_json(&self) -> (r: String)
        ensures
            r@ == lease_json(self@),
    {
        let mut r = "{\"type\":\"lease\",\"payload\":{\"jobId\":".to_owned();
        append_quoted(&mut r, self.job_id.as_str());
        r.append(",\"inputUrl\":");
        append_quoted(&mut r, self.input_url.as_str());
        r.append(",\"outputUrl\":");
        append_quoted(&mut r, self.output_url.as_str());
        r.append(",\"ffmpegArgs\":");
        append_array(&mut r, &self.ffmpeg_args);
        r.append(",\"outputExt\":");
        append_quoted(&mut r, self.output_ext.as_str());
        r.append(",\"threads\":");
        r.append(u64_to_string(self.threads as u64).as_str());
        r.append("}}");
        r
    }
}

impl ServerMessage {
    /// The text of the message.
    pub fn to_json(&self) -> (r: String)
        ensures
            r@ == server_json(self@),
    {
        match self {
            ServerMessage::Hello => "{\"type\":\"hello\"}".to_owned(),
            ServerMessage::Registered { id } => {
                let mut r = "{\"type\":\"registered\",\"payload\":{\"id\":".to_owned();
                append_quoted(&mut r, id.as_str());
                r.append("}}");
                r
            },
            ServerMessage::Error { error } => {
                let mut r = "{\"type\":\"error\",\"error\":".to_owned();
                append_quoted(&mut r, error.as_str());
                r.append("}");
                r
            },
            ServerMessage::Lease(l) => l.to_json(),
        }
    }
}

impl AgentFrame {
    /// The text of the message.
    pub fn to_json(&self) -> (r: String)
        ensures
            r@ == agent_json(self@),
    {
        match self {
            AgentFrame::Register { id, name, concurrency, encoders, token } => {
                let mut r = "{\"type\":\"register\",\"payload\":{\"id\":".to_owned();
                append_quoted(&mut r, id.as_str());
                r.append(",\"name\":");
                append_quoted(&mut r, name.as_str());
                r.append(",\"concurrency\":");
                r.append(u64_to_string(*concurrency as u64).as_str());
                r.append(",\"encoders\":");
                append_array(&mut r, encoders);
                r.append(",\"token\":");
                append_quoted(&mut r, token.as_str());
                r.append("}}");
                r
            },
            AgentFrame::Heartbeat { id } => {
                let mut r = "{\"type\":\"heartbeat\",\"payload\":{\"id\":".to_owned();
                append_quoted(&mut r, id.as_str());
                r.append("}}");
                r
            },
            AgentFrame::Progress { job_id, data } => {
                let mut r = "{\"type\":\"progress\",\"payload\":{\"jobId\":".to_owned();
                append_quoted(&mut r, job_id.as_str());
                r.append(",\"data\":");
                append_object(&mut r, data);
                r.append("}}");
                r
            },
            AgentFrame::Complete { job_id, agent_id, success } => {
                let mut r = "{\"type\":\"complete\",\"payload\":{\"jobId\":".to_owned();
                append_quoted(&mut r, job_id.as_str());
                r.append(",\"agentId\":");
                append_quoted(&mut r, agent_id.as_str());
                r.append(",\"success\":");
                if *success {
                    r.append("true");
                } else {
                    r.append("false");
                }
                r.append("}}");
                r
            },
        }
    }

    /// The message by which a worker registers: who it is, how many leases
    /// it takes at a time, the encoders it has, and its pairing token.
    pub fn registration(cfg: &AgentConfig, me: &Identity, encoders: Vec<String>) -> (r: AgentFrame)
        ensures
            r@ == (AgentFrameView::Register {
                id: me.id@,
                name: me.name@,
                concurrency: cfg.concurrency,
                encoders: encoders.deep_view(),
                token: cfg.token@,
            }),
    {
        AgentFrame::Register {
            id: me.id.clone(),
            name: me.name.clone(),
            concurrency: cfg.concurrency,
            encoders: encoders,
            token: cfg.token.clone(),
        }
    }

    /// The message by which a worker shows that it is alive.
    pub fn heartbeat(me: &Identity) -> (r: AgentFrame)
        ensures
            r@ == (AgentFrameView::Heartbeat { id: me.id@ }),
    {
        AgentFrame::Heartbeat { id: me.id.clone() }
    }

    /// The report that ends a lease. A worker sends one for each lease.
    pub fn completion(job_id: String, agent_id: String, success: bool) -> (r: AgentFrame)
        ensures
            r@ == (AgentFrameView::Complete {
                job_id: job_id@,
                agent_id: agent_id@,
                success: success,
            }),
    {
        AgentFrame::Complete { job_id: job_id, agent_id: agent_id, success: success }
    }
}

impl ProgressReport {
    /// The message that carries the report.
    pub fn into_frame(self) -> (r: AgentFrame)
        ensures
            r@ == (AgentFrameView::Progress {
                job_id: self.job_id@,
                data: fields_view(self.data@),
            }),
    {
        AgentFrame::Progress { job_id: self.job_id, data: self.data }
    }
}

} // verus!
