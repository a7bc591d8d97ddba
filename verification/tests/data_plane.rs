use ffmpegeasy::jobs::{MediaType, PlanJob};
use ffmpegeasy::manage::Credentials;
use ffmpegeasy::state::AppState;
use ffmpegeasy::stream::{plan_range, upload_status, Denied, RangePlan};

fn state_with_job() -> AppState {
    let mut state = AppState::new("dev-token".to_string());
    let plan = PlanJob {
        source_path: "/media/in/a.wav".to_string(),
        relative_path: "a.wav".to_string(),
        media_type: MediaType::Audio,
        size_bytes: 1000,
        output_path: "/media/out/a".to_string(),
        codec: "flac".to_string(),
        options: None,
    };
    let minted = Credentials {
        id: "job-1".to_string(),
        input_token: "input-secret".to_string(),
        output_token: "output-secret".to_string(),
    };
    assert!(state.admit_with(vec![plan], &vec![true], vec![minted], 1).is_ok());
    state
}

#[test]
fn range_get() {
    let state = state_with_job();
    assert_eq!(state.authorize_input("job-1", "input-secret"), Ok("/media/in/a.wav".to_string()));
    let plan = plan_range("bytes=100-199", 1000);
    assert_eq!(plan, RangePlan::Part { start: 100, end: 199, length: 100, size: 1000 });
    assert_eq!(plan.status(), 206);
    assert_eq!(plan.content_range(), Some("bytes 100-199/1000".to_string()));
    assert_eq!(plan.content_length(), 100);
    assert_eq!(plan.offset(), 100);

    let denied = state.authorize_input("job-1", "wrong");
    assert_eq!(denied, Err(Denied::Forbidden));
    assert_eq!(Denied::Forbidden.status(), 403);
}

#[test]
fn tokens_open_one_direction_each() {
    let state = state_with_job();
    assert_eq!(state.authorize_input("job-1", "output-secret"), Err(Denied::Forbidden));
    assert_eq!(state.authorize_input("job-1", ""), Err(Denied::Forbidden));
    assert_eq!(state.authorize_input("job-2", "input-secret"), Err(Denied::NotFound));
    assert_eq!(Denied::NotFound.status(), 404);
    assert_eq!(Denied::NotFound.message(), "not found");
    assert_eq!(Denied::Forbidden.message(), "forbidden");

    let target = state.authorize_output("job-1", "output-secret").expect("granted");
    assert_eq!(target.final_path, "/media/out/a");
    assert_eq!(target.part_path, "/media/out/a.part");
    assert_eq!(state.authorize_output("job-1", "input-secret").err(), Some(Denied::Forbidden));
    assert_eq!(state.authorize_output("nope", "output-secret").err(), Some(Denied::NotFound));
    assert_eq!(upload_status(true), 200);
    assert_eq!(upload_status(false), 500);
}

#[test]
fn whole_file_without_a_range() {
    for header in ["", "items=0-5", "Bytes=0-5", "bytes", " bytes=0-5"] {
        let plan = plan_range(header, 1000);
        assert_eq!(plan, RangePlan::Whole { size: 1000 });
        assert_eq!(plan.status(), 200);
        assert_eq!(plan.content_length(), 1000);
        assert_eq!(plan.content_range(), None);
        assert_eq!(plan.offset(), 0);
    }
    assert_eq!(plan_range("", 0), RangePlan::Whole { size: 0 });
}

#[test]
fn range_without_an_end_runs_to_the_last_byte() {
    assert_eq!(
        plan_range("bytes=100-", 1000),
        RangePlan::Part { start: 100, end: 999, length: 900, size: 1000 }
    );
    assert_eq!(
        plan_range("bytes=100", 1000),
        RangePlan::Part { start: 100, end: 999, length: 900, size: 1000 }
    );
    assert_eq!(
        plan_range("bytes=999-", 1000),
        RangePlan::Part { start: 999, end: 999, length: 1, size: 1000 }
    );
    assert_eq!(
        plan_range("bytes=-", 1000),
        RangePlan::Part { start: 0, end: 999, length: 1000, size: 1000 }
    );
    assert_eq!(
        plan_range("bytes=", 1000).content_range(),
        Some("bytes 0-999/1000".to_string())
    );
}

#[test]
fn range_past_the_end_is_not_satisfiable() {
    for header in
        ["bytes=1001-", "bytes=1000-", "bytes=1000-1000", "bytes=2000-3000", "bytes=0-1000", "bytes=5-99999"]
    {
        let plan = plan_range(header, 1000);
        assert_eq!(plan, RangePlan::Unsatisfiable, "{}", header);
        assert_eq!(plan.status(), 416);
        assert_eq!(plan.content_range(), None);
        assert_eq!(plan.content_length(), 0);
    }
    assert_eq!(plan_range("bytes=0-", 0), RangePlan::Unsatisfiable);
    assert_eq!(plan_range("bytes=0-0", 0), RangePlan::Unsatisfiable);
    assert_eq!(
        plan_range("bytes=0-18446744073709551615", 18446744073709551615),
        RangePlan::Unsatisfiable
    );
}

#[test]
fn odd_ranges() {
    // What does not read as a number counts as missing.
    assert_eq!(
        plan_range("bytes=abc-def", 10),
        RangePlan::Part { start: 0, end: 9, length: 10, size: 10 }
    );
    assert_eq!(
        plan_range("bytes=-500", 1000),
        RangePlan::Part { start: 0, end: 500, length: 501, size: 1000 }
    );
    assert_eq!(
        plan_range("bytes=0-1,5-6", 10),
        RangePlan::Part { start: 0, end: 9, length: 10, size: 10 }
    );
    assert_eq!(
        plan_range("bytes=2-4-6", 10),
        RangePlan::Part { start: 2, end: 4, length: 3, size: 10 }
    );
    // A range that ends before it starts cannot be satisfied.
    assert_eq!(plan_range("bytes=5-2", 10), RangePlan::Unsatisfiable);
    assert_eq!(plan_range("bytes=5-4", 10), RangePlan::Unsatisfiable);
    assert_eq!(plan_range("bytes=10-2", 10), RangePlan::Unsatisfiable);
    assert_eq!(
        plan_range("bytes=5-5", 10),
        RangePlan::Part { start: 5, end: 5, length: 1, size: 10 }
    );
    assert_eq!(
        plan_range("bytes=+3-+4", 10),
        RangePlan::Part { start: 3, end: 4, length: 2, size: 10 }
    );
}
