use ffmpegeasy::agents::AgentInfo;
use ffmpegeasy::dispatch::{build_lease, try_dispatch, Dispatched};
use ffmpegeasy::jobs::{Job, JobStatus, MediaType, PlanJob, PlanOptions};
use ffmpegeasy::manage::{AdmitError, Credentials, PairError, StartPayload};
use ffmpegeasy::session::{decode_message, Reaction, ServerMessage, Session, WorkerMessage};
use ffmpegeasy::state::AppState;

const TOKEN: &str = "abcdefghijklmnopqrstuvwxy";

fn plan(media_type: MediaType, codec: &str) -> PlanJob {
    PlanJob {
        source_path: "/media/in/clip.mov".to_string(),
        relative_path: "clip.mov".to_string(),
        media_type,
        size_bytes: 1000,
        output_path: "/media/out/clip".to_string(),
        codec: codec.to_string(),
        options: None,
    }
}

fn credentials(id: &str) -> Credentials {
    Credentials {
        id: id.to_string(),
        input_token: format!("in-{}", id),
        output_token: format!("out-{}", id),
    }
}

fn paired() -> AppState {
    let mut state = AppState::new("dev-token".to_string());
    assert_eq!(state.pair(Some(TOKEN.to_string())), Ok(()));
    state
}

fn register(id: &str, concurrency: u64, encoders: &[&str]) -> WorkerMessage {
    WorkerMessage::Register {
        token: Some(TOKEN.to_string()),
        id: Some(id.to_string()),
        name: Some(format!("worker {}", id)),
        concurrency: Some(concurrency),
        encoders: encoders.iter().map(|s| s.to_string()).collect(),
    }
}

fn complete(job: &str, agent: &str, success: bool) -> WorkerMessage {
    WorkerMessage::Complete {
        job_id: Some(job.to_string()),
        agent_id: Some(agent.to_string()),
        success: Some(success),
    }
}

fn send(state: &mut AppState, session: &mut Session, msg: WorkerMessage, now: i64) -> Reaction {
    state.handle_message(session, msg, "minted".to_string(), now)
}

fn enqueue(state: &mut AppState, id: &str, media_type: MediaType, codec: &str, now: i64) {
    let r = state.admit_with(vec![plan(media_type, codec)], &vec![true], vec![credentials(id)], now);
    assert_eq!(r, Ok(vec![id.to_string()]));
}

fn status_of(state: &AppState, id: &str) -> JobStatus {
    state.get_job(id).expect("the job exists").status
}

fn agent<'a>(state: &'a AppState, id: &str) -> &'a AgentInfo {
    state.agents.iter().find(|a| a.id == id).expect("the agent exists")
}

fn pending(state: &AppState) -> Vec<String> {
    state.pending_jobs.iter().cloned().collect()
}

fn targets(leases: &[Dispatched]) -> Vec<(String, String)> {
    leases.iter().map(|d| (d.lease.job_id.clone(), d.agent_id.clone())).collect()
}

fn pair_of(job: &str, agent: &str) -> (String, String) {
    (job.to_string(), agent.to_string())
}

/// The pending queue holds exactly the pending jobs, and no agent is over
/// its limit.
fn assert_invariants(state: &AppState) {
    for a in &state.agents {
        assert!(a.active_jobs <= a.concurrency);
    }
    let mut waiting: Vec<String> = state
        .jobs
        .iter()
        .filter(|j| j.status == JobStatus::Pending)
        .map(|j| j.id.clone())
        .collect();
    let mut queued = pending(state);
    waiting.sort();
    queued.sort();
    assert_eq!(waiting, queued);
}

#[test]
fn happy_path() {
    let mut state = AppState::new("dev-token".to_string());
    assert_eq!(state.pair(Some(TOKEN.to_string())), Ok(()));

    let (mut session, hello) = Session::open();
    assert_eq!(hello.to_json(), "{\"type\":\"hello\"}");

    let frame = format!(
        "{{\"type\":\"register\",\"payload\":{{\"id\":\"w1\",\"name\":\"box\",\"concurrency\":2,\"encoders\":[\"libx264\",\"aac\"],\"token\":\"{}\"}}}}",
        TOKEN
    );
    let r = state.handle_text(&mut session, &frame);
    assert!(!r.close);
    assert!(r.leases.is_empty());
    assert_eq!(r.replies.len(), 1);
    assert_eq!(r.replies[0].to_json(), "{\"type\":\"registered\",\"payload\":{\"id\":\"w1\"}}");
    assert_eq!(session.current_id, Some("w1".to_string()));
    assert!(state.has_sink("w1"));

    let payload = StartPayload { jobs: vec![plan(MediaType::Video, "h264")] };
    let started = state.start(payload, &vec![true]).expect("the batch is admitted");
    assert_eq!(started.accepted.len(), 1);
    let job_id = started.accepted[0].clone();
    assert_eq!(started.leases.len(), 1);
    let sent = &started.leases[0];
    assert_eq!(sent.agent_id, "w1");
    let lease = &sent.lease;
    assert_eq!(lease.job_id, job_id);
    let args = &lease.ffmpeg_args;
    let has_pair = |a: &str, b: &str| args.windows(2).any(|w| w[0] == a && w[1] == b);
    assert!(has_pair("-c:v", "libx264"));
    assert!(has_pair("-preset", "medium"));
    assert!(has_pair("-crf", "23"));
    assert_eq!(lease.output_ext, ".mp4");
    assert_eq!(lease.threads, 0);
    let job = state.get_job(&job_id).unwrap();
    assert_eq!(
        lease.input_url,
        format!("http://localhost:4000/stream/input/{}?token={}", job_id, job.input_token)
    );
    assert_eq!(
        lease.output_url,
        format!("http://localhost:4000/stream/output/{}?token={}", job_id, job.output_token)
    );
    assert_eq!(job.status, JobStatus::Assigned);
    assert_eq!(job.node_id, Some("w1".to_string()));
    assert_eq!(agent(&state, "w1").active_jobs, 1);
    assert_invariants(&state);

    let progress = format!("{{\"type\":\"progress\",\"payload\":{{\"jobId\":\"{}\",\"data\":{{\"frame\":\"10\"}}}}}}", job_id);
    let r = state.handle_text(&mut session, &progress);
    assert!(r.replies.is_empty() && r.leases.is_empty() && !r.close);
    assert_eq!(status_of(&state, &job_id), JobStatus::Running);

    let done = format!(
        "{{\"type\":\"complete\",\"payload\":{{\"jobId\":\"{}\",\"agentId\":\"w1\",\"success\":true}}}}",
        job_id
    );
    let r = state.handle_text(&mut session, &done);
    assert!(r.replies.is_empty() && r.leases.is_empty() && !r.close);
    assert_eq!(status_of(&state, &job_id), JobStatus::Uploaded);
    assert_eq!(agent(&state, "w1").active_jobs, 0);
    assert_invariants(&state);
}

#[test]
fn head_blocks_the_sweep() {
    let mut state = paired();
    let (mut s1, _) = Session::open();
    send(&mut state, &mut s1, register("A1", 1, &["libx264"]), 1);
    enqueue(&mut state, "vp9", MediaType::Video, "vp9", 2);
    enqueue(&mut state, "h264", MediaType::Video, "h264", 3);
    // The head cannot be placed: it goes to the tail, and the sweep ends
    // though the agent could take the job behind it.
    assert!(state.try_dispatch_at(4).is_empty());
    assert_eq!(pending(&state), vec!["h264".to_string(), "vp9".to_string()]);
    assert_eq!(agent(&state, "A1").active_jobs, 0);
    assert_invariants(&state);
}

#[test]
fn capability_filter() {
    let mut state = paired();
    let (mut s1, _) = Session::open();
    let (mut s2, _) = Session::open();
    send(&mut state, &mut s1, register("A1", 1, &["libx264"]), 1);
    send(&mut state, &mut s2, register("A2", 1, &["libvpx-vp9"]), 2);
    enqueue(&mut state, "j1", MediaType::Video, "h264", 3);
    enqueue(&mut state, "j2", MediaType::Video, "vp9", 4);
    let leases = state.try_dispatch_at(5);
    assert_eq!(targets(&leases), vec![pair_of("j1", "A1"), pair_of("j2", "A2")]);
    assert_eq!(status_of(&state, "j1"), JobStatus::Assigned);
    assert_eq!(status_of(&state, "j2"), JobStatus::Assigned);
    assert!(pending(&state).is_empty());
    assert_invariants(&state);
}

#[test]
fn head_of_line_wait() {
    let mut state = paired();
    let (mut s1, _) = Session::open();
    send(&mut state, &mut s1, register("A1", 1, &["libx264"]), 1);
    enqueue(&mut state, "j0", MediaType::Video, "h264", 2);
    assert_eq!(targets(&state.try_dispatch_at(3)), vec![pair_of("j0", "A1")]);
    assert_eq!(agent(&state, "A1").active_jobs, 1);

    enqueue(&mut state, "vp9", MediaType::Video, "vp9", 4);
    enqueue(&mut state, "h264", MediaType::Video, "h264", 5);
    assert_eq!(pending(&state), vec!["vp9".to_string(), "h264".to_string()]);

    // The lease ends; the sweep that follows finds the head unplaceable.
    let r = send(&mut state, &mut s1, complete("j0", "A1", true), 9);
    assert!(r.leases.is_empty());
    assert_eq!(pending(&state), vec!["h264".to_string(), "vp9".to_string()]);
    assert_eq!(agent(&state, "A1").active_jobs, 0);

    // The next sweep places the job that the agent can take.
    let leases = state.try_dispatch_at(10);
    assert_eq!(targets(&leases), vec![pair_of("h264", "A1")]);
    assert_eq!(status_of(&state, "h264"), JobStatus::Assigned);
    assert_eq!(status_of(&state, "vp9"), JobStatus::Pending);
    assert_eq!(pending(&state), vec!["vp9".to_string()]);
    assert_invariants(&state);
}

#[test]
fn unauthorized_worker() {
    let mut state = paired();
    let (mut session, _) = Session::open();
    let frame = "{\"type\":\"register\",\"payload\":{\"id\":\"w1\",\"token\":\"short\"}}";
    let r = state.handle_text(&mut session, frame);
    assert!(r.close);
    assert!(r.leases.is_empty());
    assert_eq!(r.replies.len(), 1);
    assert_eq!(r.replies[0].to_json(), "{\"type\":\"error\",\"error\":\"unauthorized\"}");
    assert!(state.agents.is_empty());
    assert!(!state.has_sink("w1"));
    assert_eq!(session.current_id, None);
}

#[test]
fn registration_needs_a_paired_token_of_25() {
    let mut state = paired();
    let wrong = [
        None,
        Some("short".to_string()),
        Some("abcdefghijklmnopqrstuvwx".to_string()),
        Some("abcdefghijklmnopqrstuvwxyz".to_string()),
        Some("ABCDEFGHIJKLMNOPQRSTUVWXY".to_string()),
        Some("dev-token".to_string()),
    ];
    for token in wrong {
        let (mut session, _) = Session::open();
        let msg = WorkerMessage::Register {
            token,
            id: Some("w".to_string()),
            name: None,
            concurrency: None,
            encoders: vec![],
        };
        let r = send(&mut state, &mut session, msg, 1);
        assert!(r.close);
        assert!(matches!(&r.replies[..], [ServerMessage::Error { error }] if error == "unauthorized"));
        assert!(state.agents.is_empty());
    }
}

#[test]
fn pairing_needs_a_token_of_25() {
    let mut state = AppState::new("dev-token".to_string());
    assert_eq!(state.pair(None), Err(PairError::InvalidToken));
    assert_eq!(state.pair(Some(String::new())), Err(PairError::InvalidToken));
    assert_eq!(state.pair(Some("x".repeat(24))), Err(PairError::InvalidToken));
    assert_eq!(state.pair(Some("x".repeat(26))), Err(PairError::InvalidToken));
    // 25 characters, but more than 25 bytes.
    assert_eq!(state.pair(Some("é".repeat(25))), Err(PairError::InvalidToken));
    assert!(state.allowed_tokens.is_empty());
    assert_eq!(state.pair(Some("x".repeat(25))), Ok(()));
    assert_eq!(state.pair(Some("x".repeat(25))), Ok(()));
    assert_eq!(state.allowed_tokens, vec!["x".repeat(25)]);
    assert_eq!(PairError::InvalidToken.message(), "invalid token");
}

#[test]
fn registration_fills_in_what_is_missing() {
    let mut state = paired();
    let (mut session, _) = Session::open();
    let msg = WorkerMessage::Register {
        token: Some(TOKEN.to_string()),
        id: None,
        name: None,
        concurrency: None,
        encoders: vec![],
    };
    let r = state.handle_message(&mut session, msg, "minted-id".to_string(), 77);
    assert!(matches!(&r.replies[..], [ServerMessage::Registered { id }] if id == "minted-id"));
    let a = agent(&state, "minted-id");
    assert_eq!(a.name, "agent");
    assert_eq!(a.concurrency, 1);
    assert_eq!(a.active_jobs, 0);
    assert_eq!(a.last_heartbeat, 77);
    assert!(a.encoders.is_empty());
    assert_eq!(session.current_id, Some("minted-id".to_string()));

    // A worker without an identifier gets a fresh one.
    let (mut other, _) = Session::open();
    let frame = format!("{{\"type\":\"register\",\"payload\":{{\"token\":\"{}\"}}}}", TOKEN);
    let r = state.handle_text(&mut other, &frame);
    let id = match &r.replies[..] {
        [ServerMessage::Registered { id }] => id.clone(),
        _ => panic!("no registration"),
    };
    assert_uuid_text(&id);
    assert_eq!(other.current_id, Some(id.clone()));
    assert!(agent(&state, &id).last_heartbeat > 1_600_000_000_000);
}

#[test]
fn registering_again_replaces_the_record() {
    let mut state = paired();
    let (mut s1, _) = Session::open();
    send(&mut state, &mut s1, register("A", 2, &["libx264"]), 1);
    send(&mut state, &mut s1, register("B", 1, &["libx264"]), 2);
    enqueue(&mut state, "j1", MediaType::Video, "h264", 3);
    assert_eq!(targets(&state.try_dispatch_at(4)), vec![pair_of("j1", "A")]);
    let (mut s2, _) = Session::open();
    send(&mut state, &mut s2, register("A", 4, &["libvpx-vp9"]), 5);
    let ids: Vec<&str> = state.agents.iter().map(|a| a.id.as_str()).collect();
    assert_eq!(ids, vec!["A", "B"]);
    assert_eq!(agent(&state, "A").concurrency, 4);
    assert_eq!(agent(&state, "A").active_jobs, 0);
    assert_eq!(agent(&state, "A").encoders, vec!["libvpx-vp9".to_string()]);
    assert_invariants(&state);
}

#[test]
fn declared_concurrency_is_kept_within_bounds() {
    let mut state = paired();
    let (mut session, _) = Session::open();
    for (declared, kept) in
        [(0u64, 1u32), (1, 1), (7, 7), (u32::MAX as u64, u32::MAX), ((1 << 32) + 3, u32::MAX), (u64::MAX, u32::MAX)]
    {
        send(&mut state, &mut session, register("A", declared, &[]), 1);
        assert_eq!(agent(&state, "A").concurrency, kept);
    }
}

#[test]
fn progress_on_a_finished_job_changes_nothing() {
    for success in [true, false] {
        let mut state = paired();
        let (mut session, _) = Session::open();
        send(&mut state, &mut session, register("A", 1, &["libx264"]), 1);
        enqueue(&mut state, "j", MediaType::Video, "h264", 2);
        state.try_dispatch_at(3);
        send(&mut state, &mut session, complete("j", "A", success), 4);
        let ended = status_of(&state, "j");
        assert!(ended.is_terminal());
        let r = send(&mut state, &mut session, WorkerMessage::Progress { job_id: Some("j".to_string()) }, 5);
        assert!(r.replies.is_empty() && r.leases.is_empty() && !r.close);
        assert_eq!(status_of(&state, "j"), ended);
        assert_eq!(state.get_job("j").unwrap().updated_at, 4);
        assert_invariants(&state);
    }
}

#[test]
fn progress_on_a_waiting_job_changes_nothing() {
    let mut state = paired();
    let (mut session, _) = Session::open();
    enqueue(&mut state, "j", MediaType::Video, "h264", 2);
    send(&mut state, &mut session, WorkerMessage::Progress { job_id: Some("j".to_string()) }, 5);
    assert_eq!(status_of(&state, "j"), JobStatus::Pending);
    assert_eq!(state.get_job("j").unwrap().updated_at, 2);
    assert_eq!(pending(&state), vec!["j".to_string()]);
    send(&mut state, &mut session, WorkerMessage::Progress { job_id: Some("nobody".to_string()) }, 6);
    send(&mut state, &mut session, WorkerMessage::Progress { job_id: None }, 7);
    assert_eq!(state.jobs.len(), 1);
    assert_invariants(&state);
}

#[test]
fn second_completion_is_not_counted() {
    let mut state = paired();
    let (mut session, _) = Session::open();
    send(&mut state, &mut session, register("A", 3, &["libx264"]), 1);
    enqueue(&mut state, "j1", MediaType::Video, "h264", 2);
    enqueue(&mut state, "j2", MediaType::Video, "h264", 2);
    state.try_dispatch_at(3);
    assert_eq!(agent(&state, "A").active_jobs, 2);

    send(&mut state, &mut session, complete("j1", "A", true), 4);
    assert_eq!(agent(&state, "A").active_jobs, 1);
    assert_eq!(status_of(&state, "j1"), JobStatus::Uploaded);

    send(&mut state, &mut session, complete("j1", "A", false), 5);
    assert_eq!(agent(&state, "A").active_jobs, 1);
    assert_eq!(status_of(&state, "j1"), JobStatus::Uploaded);
    assert_eq!(state.get_job("j1").unwrap().updated_at, 4);
    assert_eq!(status_of(&state, "j2"), JobStatus::Assigned);
    assert_invariants(&state);
}

#[test]
fn completion_counts_for_a_job_under_lease_only() {
    let mut state = paired();
    let (mut session, _) = Session::open();
    send(&mut state, &mut session, register("A", 2, &["libx264"]), 1);
    enqueue(&mut state, "j1", MediaType::Video, "h264", 2);
    state.try_dispatch_at(3);
    enqueue(&mut state, "waiting", MediaType::Video, "vp9", 4);
    assert_eq!(agent(&state, "A").active_jobs, 1);

    // A report on a job that still waits, on a job that is not there, and
    // on no job at all: none of them is counted.
    send(&mut state, &mut session, complete("waiting", "A", true), 5);
    assert_eq!(status_of(&state, "waiting"), JobStatus::Pending);
    send(&mut state, &mut session, complete("nobody", "A", true), 6);
    let bare = WorkerMessage::Complete { job_id: None, agent_id: Some("A".to_string()), success: Some(true) };
    send(&mut state, &mut session, bare, 7);
    assert_eq!(agent(&state, "A").active_jobs, 1);
    assert_eq!(status_of(&state, "j1"), JobStatus::Assigned);
    assert_eq!(pending(&state), vec!["waiting".to_string()]);
    assert_invariants(&state);

    // A report without an agent ends the job and takes no lease off.
    let unsigned = WorkerMessage::Complete { job_id: Some("j1".to_string()), agent_id: None, success: None };
    send(&mut state, &mut session, unsigned, 8);
    assert_eq!(status_of(&state, "j1"), JobStatus::Failed);
    assert_eq!(agent(&state, "A").active_jobs, 1);
}

#[test]
fn completion_without_a_job_touches_no_job() {
    let mut state = paired();
    let (mut session, _) = Session::open();
    send(&mut state, &mut session, register("A", 1, &["libx264"]), 1);
    enqueue(&mut state, "", MediaType::Video, "h264", 2);
    assert_eq!(targets(&state.try_dispatch_at(3)), vec![pair_of("", "A")]);
    let bare = WorkerMessage::Complete { job_id: None, agent_id: Some("A".to_string()), success: Some(true) };
    send(&mut state, &mut session, bare, 4);
    assert_eq!(status_of(&state, ""), JobStatus::Assigned);
    assert_eq!(agent(&state, "A").active_jobs, 1);
    send(&mut state, &mut session, complete("", "A", true), 5);
    assert_eq!(status_of(&state, ""), JobStatus::Uploaded);
    assert_eq!(agent(&state, "A").active_jobs, 0);
}

#[test]
fn one_at_a_time_agent_gets_one_lease() {
    let mut state = paired();
    let (mut session, _) = Session::open();
    send(&mut state, &mut session, register("A", 1, &["libx264"]), 1);
    for i in 0..5 {
        enqueue(&mut state, &format!("j{}", i), MediaType::Video, "h264", 2);
    }
    let leases = state.try_dispatch_at(3);
    assert_eq!(targets(&leases), vec![pair_of("j0", "A")]);
    assert!(state.try_dispatch_at(4).is_empty());
    assert_eq!(agent(&state, "A").active_jobs, 1);
    assert_eq!(pending(&state).len(), 4);
    assert_invariants(&state);
}

#[test]
fn least_loaded_agent_is_chosen_and_ties_go_to_the_first() {
    let mut state = paired();
    let (mut session, _) = Session::open();
    send(&mut state, &mut session, register("A", 3, &["libx264"]), 1);
    send(&mut state, &mut session, register("B", 3, &["h264"]), 1);
    for i in 0..5 {
        enqueue(&mut state, &format!("j{}", i), MediaType::Video, "h264", 2);
    }
    let leases = state.try_dispatch_at(3);
    assert_eq!(
        targets(&leases),
        vec![
            pair_of("j0", "A"),
            pair_of("j1", "B"),
            pair_of("j2", "A"),
            pair_of("j3", "B"),
            pair_of("j4", "A"),
        ]
    );
    assert_eq!(agent(&state, "A").active_jobs, 3);
    assert_eq!(agent(&state, "B").active_jobs, 2);
    // The software encoder is named for A, the bare codec name for B.
    assert!(leases[0].lease.ffmpeg_args.windows(2).any(|w| w[0] == "-c:v" && w[1] == "libx264"));
    assert!(leases[1].lease.ffmpeg_args.windows(2).any(|w| w[0] == "-c:v" && w[1] == "h264"));
    assert_invariants(&state);
}

#[test]
fn agent_without_a_sink_gets_no_lease() {
    let mut state = paired();
    let (mut session, _) = Session::open();
    send(&mut state, &mut session, register("A", 1, &["libx264"]), 1);
    state.close_session(session);
    assert!(!state.has_sink("A"));
    assert_eq!(state.agents.len(), 1);
    enqueue(&mut state, "j", MediaType::Video, "h264", 2);
    assert!(state.try_dispatch_at(3).is_empty());
    assert_eq!(pending(&state), vec!["j".to_string()]);
    assert_eq!(status_of(&state, "j"), JobStatus::Pending);

    let (mut again, _) = Session::open();
    let r = send(&mut state, &mut again, register("A", 1, &["libx264"]), 4);
    assert_eq!(targets(&r.leases), vec![pair_of("j", "A")]);
}

#[test]
fn queue_entry_without_a_job_is_dropped() {
    let mut state = paired();
    let (mut session, _) = Session::open();
    send(&mut state, &mut session, register("A", 2, &["libx264"]), 1);
    state.requeue("ghost".to_string());
    enqueue(&mut state, "j", MediaType::Video, "h264", 2);
    let leases = state.try_dispatch_at(3);
    assert_eq!(targets(&leases), vec![pair_of("j", "A")]);
    assert!(pending(&state).is_empty());
}

#[test]
fn heartbeat_refreshes_the_agent() {
    let mut state = paired();
    let (mut session, _) = Session::open();
    send(&mut state, &mut session, register("A", 2, &["libx264"]), 1);
    let frame = "{\"type\":\"heartbeat\",\"payload\":{\"id\":\"A\",\"activeJobs\":9,\"cpu\":0.5,\"memUsed\":123,\"memTotal\":456}}";
    let msg = decode_message(frame);
    let r = state.handle_message(&mut session, msg, String::new(), 50);
    assert!(r.replies.is_empty() && r.leases.is_empty() && !r.close);
    let a = agent(&state, "A");
    assert_eq!(a.last_heartbeat, 50);
    assert_eq!(a.mem_used, 123);
    assert_eq!(a.mem_total, 456);
    assert_eq!(a.active_jobs, 0);

    let bare = WorkerMessage::Heartbeat { id: Some("A".to_string()), mem_used: None, mem_total: None };
    send(&mut state, &mut session, bare, 60);
    let a = agent(&state, "A");
    assert_eq!((a.last_heartbeat, a.mem_used, a.mem_total), (60, 123, 456));

    let stranger =
        WorkerMessage::Heartbeat { id: Some("nobody".to_string()), mem_used: Some(1), mem_total: None };
    send(&mut state, &mut session, stranger, 70);
    assert_eq!(state.agents.len(), 1);
    assert_eq!(agent(&state, "A").last_heartbeat, 60);
}

#[test]
fn completion_counts_down_to_zero_and_no_further() {
    let mut state = paired();
    let (mut session, _) = Session::open();
    send(&mut state, &mut session, register("A", 2, &["libx264"]), 1);
    send(&mut state, &mut session, register("B", 2, &["libx264"]), 1);
    enqueue(&mut state, "j1", MediaType::Video, "h264", 2);
    enqueue(&mut state, "j2", MediaType::Video, "h264", 2);
    state.try_dispatch_at(3);
    assert_eq!((agent(&state, "A").active_jobs, agent(&state, "B").active_jobs), (1, 1));

    send(&mut state, &mut session, complete("j1", "A", false), 4);
    assert_eq!(status_of(&state, "j1"), JobStatus::Failed);
    assert_eq!(state.get_job("j1").unwrap().updated_at, 4);
    assert_eq!((agent(&state, "A").active_jobs, agent(&state, "B").active_jobs), (0, 1));

    send(&mut state, &mut session, complete("unknown", "A", true), 5);
    assert_eq!(agent(&state, "A").active_jobs, 0);

    let silent = WorkerMessage::Complete { job_id: None, agent_id: None, success: None };
    send(&mut state, &mut session, silent, 6);
    assert_eq!((agent(&state, "A").active_jobs, agent(&state, "B").active_jobs), (0, 1));
    assert_eq!(status_of(&state, "j2"), JobStatus::Assigned);
    assert_invariants(&state);
}

#[test]
fn statuses_follow_the_lifecycle() {
    let mut state = paired();
    let (mut session, _) = Session::open();
    send(&mut state, &mut session, register("A", 1, &["libx264"]), 1);
    enqueue(&mut state, "j", MediaType::Video, "h264", 2);
    let mut seen = vec![status_of(&state, "j")];
    state.try_dispatch_at(3);
    seen.push(status_of(&state, "j"));
    send(&mut state, &mut session, WorkerMessage::Progress { job_id: Some("j".to_string()) }, 4);
    seen.push(status_of(&state, "j"));
    send(&mut state, &mut session, WorkerMessage::Progress { job_id: Some("j".to_string()) }, 5);
    seen.push(status_of(&state, "j"));
    send(&mut state, &mut session, complete("j", "A", true), 6);
    seen.push(status_of(&state, "j"));
    assert_eq!(
        seen,
        vec![
            JobStatus::Pending,
            JobStatus::Assigned,
            JobStatus::Running,
            JobStatus::Running,
            JobStatus::Uploaded,
        ]
    );
    assert_eq!(JobStatus::Uploaded.as_str(), "uploaded");
    assert_eq!(JobStatus::Pending.as_str(), "pending");
    assert!(JobStatus::Failed.is_terminal());
    assert!(!JobStatus::Running.is_terminal());
    let job = state.get_job("j").unwrap();
    assert_eq!((job.created_at, job.updated_at), (2, 6));
    assert_eq!((job.input_token.as_str(), job.output_token.as_str()), ("in-j", "out-j"));
}

#[test]
fn other_messages_are_ignored() {
    let mut state = paired();
    let (mut session, _) = Session::open();
    for frame in ["", "not json", "[]", "{}", "{\"type\":\"lease\"}", "{\"type\":7}", "42"] {
        assert!(matches!(decode_message(frame), WorkerMessage::Other));
        let r = state.handle_text(&mut session, frame);
        assert!(r.replies.is_empty() && r.leases.is_empty() && !r.close);
    }
    assert!(state.agents.is_empty());
}

#[test]
fn messages_are_read_leniently() {
    let frame = "{\"type\":\"register\",\"payload\":{\"id\":5,\"name\":\"n\",\"concurrency\":\"4\",\"encoders\":[\"a\",1,null,\"b\"],\"token\":\"t\"}}";
    match decode_message(frame) {
        WorkerMessage::Register { token, id, name, concurrency, encoders } => {
            assert_eq!(token, Some("t".to_string()));
            assert_eq!(id, None);
            assert_eq!(name, Some("n".to_string()));
            assert_eq!(concurrency, None);
            assert_eq!(encoders, vec!["a".to_string(), "b".to_string()]);
        }
        _ => panic!("not a registration"),
    }
    match decode_message("{\"type\":\"complete\",\"payload\":{\"jobId\":\"j\",\"success\":\"yes\"}}") {
        WorkerMessage::Complete { job_id, agent_id, success } => {
            assert_eq!(job_id, Some("j".to_string()));
            assert_eq!(agent_id, None);
            assert_eq!(success, None);
        }
        _ => panic!("not a completion"),
    }
    match decode_message("{\"type\":\"progress\",\"payload\":{\"jobId\":\"j\"}}") {
        WorkerMessage::Progress { job_id } => assert_eq!(job_id, Some("j".to_string())),
        _ => panic!("not a progress report"),
    }
}

#[test]
fn admission_errors() {
    let mut state = paired();
    let ok = || plan(MediaType::Video, "h264");
    let mut blank = ok();
    blank.codec = " \t".to_string();
    let mut nowhere = ok();
    nowhere.output_path = String::new();
    let mut unsourced = ok();
    unsourced.source_path = "\n".to_string();

    let r = state.admit_with(vec![], &vec![], vec![], 1);
    assert_eq!(r, Err(AdmitError::NoJobs));
    for bad in [blank, nowhere, unsourced] {
        let r = state.admit_with(
            vec![ok(), bad],
            &vec![true, true],
            vec![credentials("a"), credentials("b")],
            1,
        );
        assert_eq!(r, Err(AdmitError::InvalidJob));
    }
    let r = state.admit_with(
        vec![ok(), ok()],
        &vec![true, false],
        vec![credentials("a"), credentials("b")],
        1,
    );
    assert_eq!(r, Err(AdmitError::MissingSource));
    let r = state.admit_with(vec![ok()], &vec![], vec![credentials("a")], 1);
    assert_eq!(r, Err(AdmitError::MissingSource));

    // The first plan that is turned away decides.
    let mut incomplete = ok();
    incomplete.codec = String::new();
    let r = state.admit_with(
        vec![ok(), incomplete],
        &vec![false, true],
        vec![credentials("a"), credentials("b")],
        1,
    );
    assert_eq!(r, Err(AdmitError::MissingSource));

    let r = state.admit_with(
        vec![ok(), ok()],
        &vec![true, true],
        vec![credentials("a"), credentials("a")],
        1,
    );
    assert_eq!(r, Err(AdmitError::UnusableCredentials));
    let r = state.admit_with(vec![ok(), ok()], &vec![true, true], vec![credentials("a")], 1);
    assert_eq!(r, Err(AdmitError::UnusableCredentials));
    let one_token = Credentials {
        id: "b".to_string(),
        input_token: "same".to_string(),
        output_token: "same".to_string(),
    };
    let r = state.admit_with(vec![ok(), ok()], &vec![true, true], vec![credentials("a"), one_token], 1);
    assert_eq!(r, Err(AdmitError::UnusableCredentials));
    assert!(state.jobs.is_empty());
    assert!(pending(&state).is_empty());

    enqueue(&mut state, "a", MediaType::Video, "h264", 1);
    let r = state.admit_with(vec![ok()], &vec![true], vec![credentials("a")], 2);
    assert_eq!(r, Err(AdmitError::UnusableCredentials));
    assert_eq!(state.jobs.len(), 1);

    let payload = StartPayload { jobs: vec![] };
    assert!(matches!(state.start(payload, &vec![]), Err(AdmitError::NoJobs)));

    assert_eq!(AdmitError::NoJobs.message(), "no jobs");
    assert_eq!(AdmitError::InvalidJob.message(), "invalid job");
    assert_eq!(AdmitError::MissingSource.message(), "missing source");
    assert_eq!(AdmitError::UnusableCredentials.message(), "unusable credentials");
}

#[test]
fn admission_mints_jobs_in_order() {
    let mut state = paired();
    let payload = StartPayload {
        jobs: vec![plan(MediaType::Audio, "mp3"), plan(MediaType::Image, "png")],
    };
    let started = state.start(payload, &vec![true, true]).unwrap();
    assert!(started.leases.is_empty());
    assert_eq!(started.accepted.len(), 2);
    assert_ne!(started.accepted[0], started.accepted[1]);
    // The sweep that follows admission found no agent for the head, and
    // sent it to the tail.
    assert_eq!(pending(&state), vec![started.accepted[1].clone(), started.accepted[0].clone()]);
    for (i, id) in started.accepted.iter().enumerate() {
        let job = &state.jobs[i];
        assert_eq!(&job.id, id);
        assert_eq!(id.len(), 36);
        assert_eq!(job.status, JobStatus::Pending);
        assert_eq!(job.node_id, None);
        assert_eq!(job.created_at, job.updated_at);
        assert!(job.created_at > 1_600_000_000_000);
        assert_ne!(job.input_token, job.output_token);
        assert_ne!(job.input_token, job.id);
    }
    assert_eq!(state.jobs[0].plan.codec, "mp3");
    assert_eq!(state.jobs[1].plan.codec, "png");
    assert_invariants(&state);
}

#[test]
fn lease_addresses_are_encoded() {
    let job = Job {
        id: "a b/ç?".to_string(),
        status: JobStatus::Pending,
        node_id: None,
        input_token: "t in".to_string(),
        output_token: "t-out".to_string(),
        created_at: 0,
        updated_at: 0,
        plan: PlanJob {
            options: Some(PlanOptions { audio_copy: Some(false), audio_bitrate: None }),
            ..plan(MediaType::Video, "av1")
        },
    };
    let agent = AgentInfo {
        id: "A".to_string(),
        name: "a".to_string(),
        concurrency: 1,
        encoders: vec!["libaom-av1".to_string(), "av1_qsv".to_string()],
        active_jobs: 0,
        last_heartbeat: 0,
        mem_used: 0,
        mem_total: 0,
    };
    let lease = build_lease("https://controller.example//", &job, &agent);
    assert_eq!(
        lease.input_url,
        "https://controller.example/stream/input/a%20b%2F%C3%A7%3F?token=t in"
    );
    assert_eq!(
        lease.output_url,
        "https://controller.example/stream/output/a%20b%2F%C3%A7%3F?token=t-out"
    );
    assert_eq!(lease.output_ext, ".mkv");
    let expected: Vec<String> = [
        "-hide_banner", "-nostdin", "-y", "-progress", "pipe:1", "-loglevel", "error", "-pix_fmt",
        "yuv420p", "-c:v", "av1_qsv", "-crf", "32", "-c:a", "aac", "-b:a", "160k",
    ]
    .iter()
    .map(|s| s.to_string())
    .collect();
    assert_eq!(lease.ffmpeg_args, expected);
}

#[test]
fn lease_follows_the_planner() {
    let cases = [
        (MediaType::Audio, "flac", "flac"),
        (MediaType::Audio, "mp3", "libmp3lame"),
        (MediaType::Audio, "unknown", "aac"),
        (MediaType::Video, "h264", "libx264"),
        (MediaType::Video, "av1", "libsvtav1"),
        (MediaType::Video, "vp9", "vp9"),
        (MediaType::Image, "jpeg", "mjpeg"),
        (MediaType::Image, "heif", "libx265"),
        (MediaType::Image, "unknown", "png"),
    ];
    for (media, codec, encoder) in cases {
        let mut state = paired();
        let (mut session, _) = Session::open();
        send(&mut state, &mut session, register("A", 1, &[encoder]), 1);
        enqueue(&mut state, "j", media, codec, 2);
        let leases = state.try_dispatch_at(3);
        assert_eq!(leases.len(), 1, "{}", codec);
        assert_eq!(leases[0].lease.output_ext, ffmpegeasy::ffmpeg::compute_output_ext(&media, codec));
        let job = state.get_job("j").unwrap();
        let chosen = ffmpegeasy::ffmpeg::select_preferred_encoder(&job, &[encoder.to_string()]);
        assert_eq!(
            leases[0].lease.ffmpeg_args,
            ffmpegeasy::ffmpeg::build_ffmpeg_args_with_encoder(&job, chosen.as_deref())
        );
    }
}

fn assert_uuid_text(s: &str) {
    let chars: Vec<char> = s.chars().collect();
    assert_eq!(chars.len(), 36, "{}", s);
    for (i, c) in chars.iter().enumerate() {
        if [8, 13, 18, 23].contains(&i) {
            assert_eq!(*c, '-', "{}", s);
        } else {
            assert!(matches!(*c, '0'..='9' | 'a'..='f'), "{}", s);
        }
    }
    assert_eq!(chars[14], '4', "{}", s);
    assert!(matches!(chars[19], '8' | '9' | 'a' | 'b'), "{}", s);
}

#[test]
fn minted_credentials_are_uuids() {
    for _ in 0..200 {
        let minted = Credentials::mint();
        assert_uuid_text(&minted.id);
        assert_uuid_text(&minted.input_token);
        assert_uuid_text(&minted.output_token);
        assert_ne!(minted.id, minted.input_token);
        assert_ne!(minted.input_token, minted.output_token);
    }
}

#[test]
fn minted_identifier_stands_in_the_addresses_as_it_is() {
    let mut state = paired();
    let (mut session, _) = Session::open();
    send(&mut state, &mut session, register("A", 1, &["libx264"]), 1);
    let payload = StartPayload { jobs: vec![plan(MediaType::Video, "h264")] };
    let started = state.start(payload, &vec![true]).expect("the batch is admitted");
    let id = &started.accepted[0];
    assert_uuid_text(id);
    let lease = &started.leases[0].lease;
    assert!(lease.input_url.starts_with(&format!("http://localhost:4000/stream/input/{}?token=", id)));
    assert!(lease.output_url.starts_with(&format!("http://localhost:4000/stream/output/{}?token=", id)));
}

#[test]
fn sweep_reads_the_clock() {
    let mut state = paired();
    let (mut session, _) = Session::open();
    send(&mut state, &mut session, register("A", 1, &["libx264"]), 1);
    enqueue(&mut state, "j", MediaType::Video, "h264", 2);
    let leases = try_dispatch(&mut state);
    assert_eq!(targets(&leases), vec![pair_of("j", "A")]);
    assert!(state.get_job("j").unwrap().updated_at > 1_600_000_000_000);
}

#[test]
fn registry_operations() {
    let mut state = paired();
    enqueue(&mut state, "j", MediaType::Audio, "mp3", 1);
    assert!(state.get_job("nope").is_none());
    assert_eq!(state.find_job("j"), Some(0));
    assert!(state.update_status("j", JobStatus::Running, 9));
    assert!(!state.update_status("nope", JobStatus::Running, 9));
    assert_eq!((status_of(&state, "j"), state.get_job("j").unwrap().updated_at), (JobStatus::Running, 9));
    assert_eq!(state.take_pending(), Some("j".to_string()));
    assert_eq!(state.take_pending(), None);
    state.requeue("j".to_string());
    assert_eq!(pending(&state), vec!["j".to_string()]);

    let info = AgentInfo {
        id: "A".to_string(),
        name: "a".to_string(),
        concurrency: 1,
        encoders: vec![],
        active_jobs: 0,
        last_heartbeat: 0,
        mem_used: 0,
        mem_total: 0,
    };
    state.register_agent(info);
    assert_eq!(state.find_agent("A"), Some(0));
    assert_eq!(state.find_agent("B"), None);
    state.inc_load("A");
    state.inc_load("A");
    assert_eq!(agent(&state, "A").active_jobs, 1);
    state.dec_load("A");
    state.dec_load("A");
    assert_eq!(agent(&state, "A").active_jobs, 0);
    state.update_heartbeat("A", 33);
    assert_eq!(agent(&state, "A").last_heartbeat, 33);
    assert_eq!(state.snapshot().len(), 1);
    assert_eq!(state.snapshot()[0].id, "A");
    state.deregister("A");
    assert!(!state.has_sink("A"));
    assert_eq!(state.snapshot().len(), 1);
}
