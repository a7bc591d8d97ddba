//! Media types, conversion plans and jobs, with their mathematical views.

use vstd::prelude::*;

verus! {

/// Kind of media a plan converts.
#[derive(Clone, Copy, Debug, PartialEq, Eq, Structural)]
pub enum MediaType {
    Audio,
    Video,
    Image,
}

/// Lifecycle state of a job.
///
/// A job starts `Pending`, becomes `Assigned` when it is leased, may become
/// `Running`, and ends `Uploaded` or `Failed`.
#[derive(Clone, Copy, Debug, PartialEq, Eq, Structural)]
pub enum JobStatus {
    Pending,
    Assigned,
    Running,
    Uploaded,
    Failed,
}

impl JobStatus {
    /// Position of the status along the lifecycle; the two final states share the last one.
    pub open spec fn rank(self) -> nat {
        match self {
            JobStatus::Pending => 0,
            JobStatus::Assigned => 1,
            JobStatus::Running => 2,
            JobStatus::Uploaded => 3,
            JobStatus::Failed => 3,
        }
    }

    /// A final state: the job was uploaded or has failed.
    pub open spec fn terminal(self) -> bool {
        self == JobStatus::Uploaded || self == JobStatus::Failed
    }

    /// The lifecycle's steps: a job stays where it is, or moves
    /// pending → assigned → running → (uploaded | failed), where running may
    /// be skipped. Nothing leaves a final state.
    pub open spec fn may_become(self, next: JobStatus) -> bool {
        self == next || match self {
            JobStatus::Pending => next == JobStatus::Assigned,
            JobStatus::Assigned => next == JobStatus::Running || next.terminal(),
            JobStatus::Running => next.terminal(),
            JobStatus::Uploaded => false,
            JobStatus::Failed => false,
        }
    }

    /// The name of the status as it is written on the wire.
    pub open spec fn name(self) -> Seq<char> {
        match self {
            JobStatus::Pending => "pending"@,
            JobStatus::Assigned => "assigned"@,
            JobStatus::Running => "running"@,
            JobStatus::Uploaded => "uploaded"@,
            JobStatus::Failed => "failed"@,
        }
    }

    pub fn as_str(&self) -> (r: &'static str)
        ensures
            r@ == self.name(),
    {
        match self {
            JobStatus::Pending => "pending",
            JobStatus::Assigned => "assigned",
            JobStatus::Running => "running",
            JobStatus::Uploaded => "uploaded",
            JobStatus::Failed => "failed",
        }
    }

    pub fn is_terminal(&self) -> (r: bool)
        ensures
            r == self.terminal(),
    {
        match self {
            JobStatus::Uploaded => true,
            JobStatus::Failed => true,
            _ => false,
        }
    }
}

/// The options of a plan that the argument planner reads.
#[derive(Debug)]
pub struct PlanOptions {
    /// `Some(false)` asks for the audio track of a video to be re-encoded.
    pub audio_copy: Option<bool>,
    /// Bitrate for a re-encoded audio track, such as `"192k"`.
    pub audio_bitrate: Option<String>,
}

pub struct PlanOptionsView {
    pub audio_copy: Option<bool>,
    pub audio_bitrate: Option<Seq<char>>,
}

impl View for PlanOptions {
    type V = PlanOptionsView;

    open spec fn view(&self) -> PlanOptionsView {
        PlanOptionsView {
            audio_copy: self.audio_copy,
            audio_bitrate: match self.audio_bitrate {
                Some(b) => Some(b@),
                None => None,
            },
        }
    }
}

impl Clone for PlanOptions {
    fn clone(&self) -> (r: Self)
        ensures
            r@ == self@,
    {
        PlanOptions {
            audio_copy: self.audio_copy,
            audio_bitrate: match &self.audio_bitrate {
                Some(b) => Some(b.clone()),
                None => None,
            },
        }
    }
}

/// One requested conversion.
#[derive(Debug)]
pub struct PlanJob {
    pub source_path: String,
    pub relative_path: String,
    pub media_type: MediaType,
    pub size_bytes: u64,
    pub output_path: String,
    pub codec: String,
    pub options: Option<PlanOptions>,
}

pub struct PlanView {
    pub source_path: Seq<char>,
    pub relative_path: Seq<char>,
    pub media_type: MediaType,
    pub size_bytes: u64,
    pub output_path: Seq<char>,
    pub codec: Seq<char>,
    pub options: Option<PlanOptionsView>,
}

impl View for PlanJob {
    type V = PlanView;

    open spec fn view(&self) -> PlanView {
        PlanView {
            source_path: self.source_path@,
            relative_path: self.relative_path@,
            media_type: self.media_type,
            size_bytes: self.size_bytes,
            output_path: self.output_path@,
            codec: self.codec@,
            options: match self.options {
                Some(o) => Some(o@),
                None => None,
            },
        }
    }
}

impl Clone for PlanJob {
    fn clone(&self) -> (r: Self)
        ensures
            r@ == self@,
    {
        PlanJob {
            source_path: self.source_path.clone(),
            relative_path: self.relative_path.clone(),
            media_type: self.media_type,
            size_bytes: self.size_bytes,
            output_path: self.output_path.clone(),
            codec: self.codec.clone(),
            options: match &self.options {
                Some(o) => Some(o.clone()),
                None => None,
            },
        }
    }
}

/// A job: a plan with its identity, its two capability tokens and its state.
#[derive(Debug)]
pub struct Job {
    pub id: String,
    pub status: JobStatus,
    /// The agent the job was leased to, once it was.
    pub node_id: Option<String>,
    pub input_token: String,
    pub output_token: String,
    pub created_at: i64,
    pub updated_at: i64,
    pub plan: PlanJob,
}

pub struct JobView {
    pub id: Seq<char>,
    pub status: JobStatus,
    pub node_id: Option<Seq<char>>,
    pub input_token: Seq<char>,
    pub output_token: Seq<char>,
    pub created_at: i64,
    pub updated_at: i64,
    pub plan: PlanView,
}

impl View for Job {
    type V = JobView;

    open spec fn view(&self) -> JobView {
        JobView {
            id: self.id@,
            status: self.status,
            node_id: match self.node_id {
                Some(n) => Some(n@),
                None => None,
            },
            input_token: self.input_token@,
            output_token: self.output_token@,
            created_at: self.created_at,
            updated_at: self.updated_at,
            plan: self.plan@,
        }
    }
}

impl Clone for Job {
    fn clone(&self) -> (r: Self)
        ensures
            r@ == self@,
    {
        Job {
            id: self.id.clone(),
            status: self.status,
            node_id: match &self.node_id {
                Some(n) => Some(n.clone()),
                None => None,
            },
            input_token: self.input_token.clone(),
            output_token: self.output_token.clone(),
            created_at: self.created_at,
            updated_at: self.updated_at,
            plan: self.plan.clone(),
        }
    }
}

} // verus!
