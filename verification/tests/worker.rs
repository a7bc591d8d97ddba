use ffmpegeasy::config::AgentConfig;
use ffmpegeasy::dispatch::Lease;
use ffmpegeasy::executor::{FfmpegExecutor, RunOutcome};
use ffmpegeasy::session::{decode_message, WorkerMessage};
use ffmpegeasy::wire::AgentFrame;
use ffmpegeasy::worker::{
    after_run, after_upload, decode_lease, parse_encoders, temp_output_name, EndpointError,
    Field, Identity, LeaseStep, ProgressTracker, HEARTBEAT_SECS,
};

fn config(controller_url: &str, token: &str) -> AgentConfig {
    AgentConfig {
        controller_url: controller_url.to_string(),
        token: token.to_string(),
        concurrency: 2,
        ffmpeg_path: "ffmpeg".to_string(),
        job_timeout_secs: 3600,
        upload_max_retries: 3,
        request_connect_timeout_secs: 10,
        request_timeout_secs: 900,
    }
}

#[test]
fn control_address() {
    assert_eq!(
        config("http://localhost:4000", "dev-token").control_address(),
        "ws://localhost:4000/agent?token=dev-token"
    );
    assert_eq!(
        config("https://media.example/base//", "a b&c").control_address(),
        "wss://media.example/base/agent?token=a%20b%26c"
    );
    assert_eq!(
        config("controller", "t").control_address(),
        "controller/agent?token=t"
    );
}

#[test]
fn control_endpoint_is_an_absolute_url() {
    let url = config("http://localhost:4000/", "tok").control_endpoint().expect("a URL");
    assert_eq!(url.as_str(), "ws://localhost:4000/agent?token=tok");
    assert_eq!(url.scheme(), "ws");
    assert_eq!(config("controller", "t").control_endpoint().err(), Some(EndpointError::InvalidUrl));
    assert_eq!(config("", "t").control_endpoint().err(), Some(EndpointError::InvalidUrl));
}

#[test]
fn identity() {
    let me = Identity::of("render-box", 4711);
    assert_eq!(me.id, "render-box-4711");
    assert_eq!(me.name, "render-box");
    assert_eq!(Identity::of("", 0).id, "-0");
    if let Some(found) = Identity::detect(12) {
        assert_eq!(found.id, format!("{}-12", found.name));
    }
}

#[test]
fn identity_follows_the_host_name() {
    let me = Identity::from_host(Some("node".to_string()), 7).expect("an identity");
    assert_eq!(me.id, "node-7");
    assert_eq!(me.name, "node");
    assert!(Identity::from_host(None, 7).is_none());
}

/// The encoder list as the standard library's splitting reads it.
fn encoders_by_std(text: &str) -> Vec<String> {
    let mut list = Vec::new();
    for line in text.lines() {
        if let Some(cap) = line.split_whitespace().nth(1) {
            if cap.chars().all(|c| c.is_ascii_alphanumeric() || c == '_' || c == '-') {
                list.push(cap.to_string());
            }
        }
    }
    list
}

#[test]
fn encoders_are_read_from_the_list() {
    let text = "Encoders:\n V..... = Video\n A..... = Audio\n ------\n V....D libx264              libx264 H.264 / AVC\n V....D libvpx-vp9           libvpx VP9\n A....D aac                  AAC (Advanced Audio Coding)\n V..... h264_nvenc           NVIDIA NVENC\n";
    assert_eq!(
        parse_encoders(text),
        vec!["libx264".to_string(), "libvpx-vp9".to_string(), "aac".to_string(), "h264_nvenc".to_string()]
    );
    let samples = [
        text,
        "",
        "\n",
        "one\n",
        "a b",
        "a b\r\nc d\r\n",
        "  a\tb  \n\n x y.z w\n p q-r_s",
        "a é\nb ok\n",
        "a\u{a0}b c\n\u{2003}x\u{2003}y\n",
        "\r\n a b\rc d",
        "a b\n\n\n",
    ];
    for sample in samples {
        assert_eq!(parse_encoders(sample), encoders_by_std(sample), "{:?}", sample);
    }
}

fn pairs(fields: &[Field]) -> Vec<(String, String)> {
    fields.iter().map(|f| (f.key.clone(), f.value.clone())).collect()
}

fn pair(k: &str, v: &str) -> (String, String) {
    (k.to_string(), v.to_string())
}

#[test]
fn progress_is_gathered_until_the_progress_key() {
    let mut tracker = ProgressTracker::new("job-7".to_string());
    assert!(tracker.feed("frame=10").is_none());
    assert!(tracker.feed("  fps = 24.5 \n").is_none());
    assert!(tracker.feed("no pair here").is_none());
    assert!(tracker.feed("").is_none());
    assert!(tracker.feed("frame=12").is_none());
    assert!(tracker.feed("out_time=00:00:01.0=x").is_none());
    assert_eq!(
        pairs(&tracker.fields),
        vec![pair("frame", "12"), pair("fps", "24.5"), pair("out_time", "00:00:01.0=x")]
    );
    let report = tracker.feed("progress=continue\n").expect("a report");
    assert_eq!(report.job_id, "job-7");
    assert_eq!(
        pairs(&report.data),
        vec![
            pair("frame", "12"),
            pair("fps", "24.5"),
            pair("out_time", "00:00:01.0=x"),
            pair("progress", "continue"),
        ]
    );
    assert!(tracker.fields.is_empty());

    assert!(tracker.feed("=lonely").is_none());
    assert!(tracker.feed("empty=").is_none());
    let report = tracker.feed(" progress =end").expect("a report");
    assert_eq!(pairs(&report.data), vec![pair("", "lonely"), pair("empty", ""), pair("progress", "end")]);

    let frame = report.into_frame();
    assert_eq!(
        frame.to_json(),
        "{\"type\":\"progress\",\"payload\":{\"jobId\":\"job-7\",\"data\":{\"\":\"lonely\",\"empty\":\"\",\"progress\":\"end\"}}}"
    );
    match decode_message(&frame.to_json()) {
        WorkerMessage::Progress { job_id } => assert_eq!(job_id, Some("job-7".to_string())),
        _ => panic!("not a progress report"),
    }
}

#[test]
fn lease_is_read_with_defaults() {
    let lease = Lease {
        job_id: "j \"1\"".to_string(),
        input_url: "http://c/stream/input/j?token=a".to_string(),
        output_url: "http://c/stream/output/j?token=b".to_string(),
        ffmpeg_args: vec!["-y".to_string(), "-c:v".to_string(), "lib\\x".to_string()],
        output_ext: ".mkv".to_string(),
        threads: 0,
    };
    let text = lease.to_json();
    assert_eq!(
        text,
        "{\"type\":\"lease\",\"payload\":{\"jobId\":\"j \\\"1\\\"\",\"inputUrl\":\"http://c/stream/input/j?token=a\",\"outputUrl\":\"http://c/stream/output/j?token=b\",\"ffmpegArgs\":[\"-y\",\"-c:v\",\"lib\\\\x\"],\"outputExt\":\".mkv\",\"threads\":0}}"
    );
    let back = decode_lease(&text).expect("a lease");
    assert_eq!(back.job_id, lease.job_id);
    assert_eq!(back.input_url, lease.input_url);
    assert_eq!(back.output_url, lease.output_url);
    assert_eq!(back.ffmpeg_args, lease.ffmpeg_args);
    assert_eq!(back.output_ext, lease.output_ext);

    let bare = decode_lease("{\"type\":\"lease\"}").expect("a lease");
    assert_eq!(bare.job_id, "");
    assert_eq!(bare.input_url, "");
    assert_eq!(bare.output_url, "");
    assert!(bare.ffmpeg_args.is_empty());
    assert_eq!(bare.output_ext, ".out");

    let mixed = decode_lease(
        "{\"type\":\"lease\",\"payload\":{\"jobId\":3,\"ffmpegArgs\":[\"a\",2,\"b\"],\"outputExt\":null}}",
    )
    .expect("a lease");
    assert_eq!(mixed.job_id, "");
    assert_eq!(mixed.ffmpeg_args, vec!["a".to_string(), "b".to_string()]);
    assert_eq!(mixed.output_ext, ".out");

    for other in ["{\"type\":\"hello\"}", "{\"type\":\"registered\",\"payload\":{\"id\":\"x\"}}", "{}", "lease", ""] {
        assert!(decode_lease(other).is_none());
    }
    assert_eq!(temp_output_name("job-1", ".mkv"), "job-1.mkv");
}

#[test]
fn command_line() {
    let executor = FfmpegExecutor::new("/usr/bin/ffmpeg".to_string());
    assert_eq!(executor.ffmpeg_path, "/usr/bin/ffmpeg");
    let args = vec!["-y".to_string(), "-c:a".to_string(), "flac".to_string()];
    assert_eq!(
        executor.command_args("http://c/in", &args, "/tmp/out.flac"),
        vec!["-i", "http://c/in", "-y", "-c:a", "flac", "/tmp/out.flac"]
    );
    assert_eq!(executor.command_args("in", &[], "out"), vec!["-i", "in", "out"]);
}

#[test]
fn a_lease_ends_with_one_report() {
    assert!(RunOutcome::Exited { success: true }.is_success());
    assert!(!RunOutcome::Exited { success: false }.is_success());
    assert!(!RunOutcome::TimedOut.is_success());
    assert!(RunOutcome::TimedOut.must_kill());
    assert!(!RunOutcome::Exited { success: false }.must_kill());

    assert_eq!(after_run(RunOutcome::Exited { success: true }), LeaseStep::Upload);
    assert_eq!(after_run(RunOutcome::Exited { success: false }), LeaseStep::Report { success: false });
    assert_eq!(after_run(RunOutcome::TimedOut), LeaseStep::Report { success: false });
    for (status, success) in [
        (Some(200), true),
        (Some(204), true),
        (Some(299), true),
        (Some(199), false),
        (Some(300), false),
        (Some(403), false),
        (Some(500), false),
        (None, false),
    ] {
        assert_eq!(after_upload(status), LeaseStep::Report { success });
    }
}

#[test]
fn worker_frames_are_read_by_the_controller() {
    let register = AgentFrame::Register {
        id: "host-1".to_string(),
        name: "host \"one\"".to_string(),
        concurrency: 4,
        encoders: vec!["libx264".to_string(), "aac".to_string()],
        token: "abcdefghijklmnopqrstuvwxy".to_string(),
    };
    assert_eq!(
        register.to_json(),
        "{\"type\":\"register\",\"payload\":{\"id\":\"host-1\",\"name\":\"host \\\"one\\\"\",\"concurrency\":4,\"encoders\":[\"libx264\",\"aac\"],\"token\":\"abcdefghijklmnopqrstuvwxy\"}}"
    );
    match decode_message(&register.to_json()) {
        WorkerMessage::Register { token, id, name, concurrency, encoders } => {
            assert_eq!(token, Some("abcdefghijklmnopqrstuvwxy".to_string()));
            assert_eq!(id, Some("host-1".to_string()));
            assert_eq!(name, Some("host \"one\"".to_string()));
            assert_eq!(concurrency, Some(4));
            assert_eq!(encoders, vec!["libx264".to_string(), "aac".to_string()]);
        }
        _ => panic!("not a registration"),
    }

    let empty = AgentFrame::Register {
        id: String::new(),
        name: String::new(),
        concurrency: 0,
        encoders: vec![],
        token: String::new(),
    };
    assert_eq!(
        empty.to_json(),
        "{\"type\":\"register\",\"payload\":{\"id\":\"\",\"name\":\"\",\"concurrency\":0,\"encoders\":[],\"token\":\"\"}}"
    );

    let heartbeat = AgentFrame::Heartbeat { id: "host-1".to_string() };
    assert_eq!(heartbeat.to_json(), "{\"type\":\"heartbeat\",\"payload\":{\"id\":\"host-1\"}}");
    match decode_message(&heartbeat.to_json()) {
        WorkerMessage::Heartbeat { id, mem_used, mem_total } => {
            assert_eq!((id, mem_used, mem_total), (Some("host-1".to_string()), None, None));
        }
        _ => panic!("not a heartbeat"),
    }

    for success in [true, false] {
        let done = AgentFrame::completion("job\n1".to_string(), "host-1".to_string(), success);
        assert_eq!(
            done.to_json(),
            format!(
                "{{\"type\":\"complete\",\"payload\":{{\"jobId\":\"job\\n1\",\"agentId\":\"host-1\",\"success\":{}}}}}",
                success
            )
        );
        match decode_message(&done.to_json()) {
            WorkerMessage::Complete { job_id, agent_id, success: s } => {
                assert_eq!(job_id, Some("job\n1".to_string()));
                assert_eq!(agent_id, Some("host-1".to_string()));
                assert_eq!(s, Some(success));
            }
            _ => panic!("not a completion"),
        }
    }
}

#[test]
fn registration_and_heartbeat_frames() {
    let cfg = config("http://c", "abcdefghijklmnopqrstuvwxy");
    let me = Identity::of("box", 9);
    let frame = AgentFrame::registration(&cfg, &me, vec!["aac".to_string()]);
    assert_eq!(
        frame.to_json(),
        "{\"type\":\"register\",\"payload\":{\"id\":\"box-9\",\"name\":\"box\",\"concurrency\":2,\"encoders\":[\"aac\"],\"token\":\"abcdefghijklmnopqrstuvwxy\"}}"
    );
    assert_eq!(
        AgentFrame::heartbeat(&me).to_json(),
        "{\"type\":\"heartbeat\",\"payload\":{\"id\":\"box-9\"}}"
    );
    assert_eq!(HEARTBEAT_SECS, 10);
}

#[test]
fn strings_are_escaped_as_json_asks() {
    let id = "a\u{1}\u{7f}\u{e9}\"\\\u{8}\u{c}\t\r\n\u{1f} /";
    let text = AgentFrame::Heartbeat { id: id.to_string() }.to_json();
    assert_eq!(
        text,
        "{\"type\":\"heartbeat\",\"payload\":{\"id\":\"a\\u0001\u{7f}\u{e9}\\\"\\\\\\b\\f\\t\\r\\n\\u001f /\"}}"
    );
    match decode_message(&text) {
        WorkerMessage::Heartbeat { id: read, .. } => assert_eq!(read, Some(id.to_string())),
        _ => panic!("not a heartbeat"),
    }
}

#[test]
fn controller_frames_are_json() {
    let message = ffmpegeasy::session::ServerMessage::Registered { id: "a\"b".to_string() };
    let value: serde_json::Value = serde_json::from_str(&message.to_json()).expect("JSON");
    assert_eq!(value.pointer("/type").and_then(|v| v.as_str()), Some("registered"));
    assert_eq!(value.pointer("/payload/id").and_then(|v| v.as_str()), Some("a\"b"));
    let lease = Lease {
        job_id: "j".to_string(),
        input_url: "i".to_string(),
        output_url: "o".to_string(),
        ffmpeg_args: vec![],
        output_ext: ".png".to_string(),
        threads: 0,
    };
    let message = ffmpegeasy::session::ServerMessage::Lease(lease);
    let value: serde_json::Value = serde_json::from_str(&message.to_json()).expect("JSON");
    assert_eq!(value.pointer("/type").and_then(|v| v.as_str()), Some("lease"));
    assert_eq!(value.pointer("/payload/threads").and_then(|v| v.as_u64()), Some(0));
    assert_eq!(value.pointer("/payload/ffmpegArgs").and_then(|v| v.as_array()).map(|a| a.len()), Some(0));
    assert_eq!(value.pointer("/payload/outputExt").and_then(|v| v.as_str()), Some(".png"));
}
