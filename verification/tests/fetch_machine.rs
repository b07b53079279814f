use downloader::fetch::{step, Fetch, FetchEvent, Instruction, Stage};
use downloader::status::{FetchError, IoStep};
use downloader::target::DownloadTarget;

fn all_events() -> Vec<FetchEvent> {
    vec![
        FetchEvent::Responded { status: 200 },
        FetchEvent::Responded { status: 404 },
        FetchEvent::Responded { status: 500 },
        FetchEvent::TransportFailed,
        FetchEvent::DirectoryReady,
        FetchEvent::FileCreated,
        FetchEvent::Copied { bytes: 7 },
        FetchEvent::IoFailed,
    ]
}

#[test]
fn accepted_response_moves_to_directory() {
    assert_eq!(
        step(Stage::Requesting, FetchEvent::Responded { status: 200 }),
        Stage::CreatingDirectory
    );
    assert_eq!(
        step(Stage::Requesting, FetchEvent::Responded { status: 304 }),
        Stage::CreatingDirectory
    );
}

#[test]
fn not_found_response_fails_with_not_found() {
    assert_eq!(
        step(Stage::Requesting, FetchEvent::Responded { status: 404 }),
        Stage::Failed { error: FetchError::NotFound }
    );
}

#[test]
fn other_error_response_fails_with_its_status() {
    assert_eq!(
        step(Stage::Requesting, FetchEvent::Responded { status: 500 }),
        Stage::Failed { error: FetchError::HttpStatus { status: 500 } }
    );
    assert_eq!(
        step(Stage::Requesting, FetchEvent::Responded { status: 403 }),
        Stage::Failed { error: FetchError::HttpStatus { status: 403 } }
    );
}

#[test]
fn transport_failure_fails_the_request() {
    assert_eq!(
        step(Stage::Requesting, FetchEvent::TransportFailed),
        Stage::Failed { error: FetchError::Transport }
    );
}

#[test]
fn local_steps_advance_in_order() {
    assert_eq!(step(Stage::CreatingDirectory, FetchEvent::DirectoryReady), Stage::CreatingFile);
    assert_eq!(step(Stage::CreatingFile, FetchEvent::FileCreated), Stage::Copying);
    assert_eq!(step(Stage::Copying, FetchEvent::Copied { bytes: 10 }), Stage::Saved { bytes: 10 });
    assert_eq!(step(Stage::Copying, FetchEvent::Copied { bytes: 0 }), Stage::Saved { bytes: 0 });
}

#[test]
fn io_failure_names_the_step_that_failed() {
    assert_eq!(
        step(Stage::CreatingDirectory, FetchEvent::IoFailed),
        Stage::Failed { error: FetchError::LocalIo { step: IoStep::CreateDirectory } }
    );
    assert_eq!(
        step(Stage::CreatingFile, FetchEvent::IoFailed),
        Stage::Failed { error: FetchError::LocalIo { step: IoStep::CreateFile } }
    );
    assert_eq!(
        step(Stage::Copying, FetchEvent::IoFailed),
        Stage::Failed { error: FetchError::LocalIo { step: IoStep::CopyBody } }
    );
}

#[test]
fn events_that_answer_nothing_are_ignored() {
    assert_eq!(step(Stage::Requesting, FetchEvent::IoFailed), Stage::Requesting);
    assert_eq!(step(Stage::Requesting, FetchEvent::Copied { bytes: 3 }), Stage::Requesting);
    assert_eq!(step(Stage::Requesting, FetchEvent::FileCreated), Stage::Requesting);
    assert_eq!(
        step(Stage::CreatingDirectory, FetchEvent::Responded { status: 404 }),
        Stage::CreatingDirectory
    );
    assert_eq!(step(Stage::CreatingDirectory, FetchEvent::FileCreated), Stage::CreatingDirectory);
    assert_eq!(step(Stage::CreatingFile, FetchEvent::DirectoryReady), Stage::CreatingFile);
    assert_eq!(step(Stage::CreatingFile, FetchEvent::TransportFailed), Stage::CreatingFile);
    assert_eq!(step(Stage::Copying, FetchEvent::FileCreated), Stage::Copying);
    assert_eq!(step(Stage::Copying, FetchEvent::TransportFailed), Stage::Copying);
}

#[test]
fn final_stages_absorb_every_event() {
    let finals = [
        Stage::Saved { bytes: 10 },
        Stage::Failed { error: FetchError::NotFound },
        Stage::Failed { error: FetchError::Transport },
        Stage::Failed { error: FetchError::HttpStatus { status: 500 } },
        Stage::Failed { error: FetchError::LocalIo { step: IoStep::CopyBody } },
    ];
    for stage in finals {
        for event in all_events() {
            assert_eq!(step(stage, event), stage);
        }
    }
}

#[test]
fn no_event_leads_back_to_the_request() {
    let later = [Stage::CreatingDirectory, Stage::CreatingFile, Stage::Copying];
    for stage in later {
        for event in all_events() {
            assert_ne!(step(stage, event), Stage::Requesting);
        }
    }
}

#[test]
fn instructions_follow_the_stages() {
    let mut fetch = Fetch::start(DownloadTarget::new("http://example.test", "todos/1"));
    assert_eq!(fetch.stage, Stage::Requesting);
    assert_eq!(
        fetch.instruction(),
        Instruction::Get { address: "http://example.test/todos/1".to_string() }
    );
    assert_eq!(fetch.outcome(), None);
    assert_eq!(
        fetch.advance(FetchEvent::Responded { status: 200 }),
        Instruction::CreateDirectory { path: "downloads/todos".to_string() }
    );
    assert_eq!(fetch.outcome(), None);
    assert_eq!(
        fetch.advance(FetchEvent::DirectoryReady),
        Instruction::CreateFile { path: "downloads/todos/1".to_string() }
    );
    assert_eq!(
        fetch.advance(FetchEvent::FileCreated),
        Instruction::CopyBody { path: "downloads/todos/1".to_string() }
    );
    assert_eq!(fetch.outcome(), None);
    assert_eq!(fetch.advance(FetchEvent::Copied { bytes: 83 }), Instruction::Stop);
    assert_eq!(fetch.stage, Stage::Saved { bytes: 83 });
    assert_eq!(fetch.outcome(), Some(Ok(83)));
    assert_eq!(fetch.instruction(), Instruction::Stop);
}

#[test]
fn advance_keeps_the_target() {
    let target = DownloadTarget::new("http://example.test", "a.jpg");
    let mut fetch = Fetch::start(target.clone());
    for event in all_events() {
        fetch.advance(event);
        assert_eq!(fetch.target, target);
    }
}

#[test]
fn not_found_stops_before_any_file_instruction() {
    let mut fetch = Fetch::start(DownloadTarget::new("http://example.test", "missing.jpg"));
    assert_eq!(fetch.advance(FetchEvent::Responded { status: 404 }), Instruction::Stop);
    assert_eq!(fetch.outcome(), Some(Err(FetchError::NotFound)));
    for event in all_events() {
        assert_eq!(fetch.advance(event), Instruction::Stop);
        assert_eq!(fetch.outcome(), Some(Err(FetchError::NotFound)));
    }
}

#[test]
fn unreachable_server_stops_before_any_file_instruction() {
    let mut fetch = Fetch::start(DownloadTarget::new("http://unreachable.test", "a.jpg"));
    assert_eq!(fetch.advance(FetchEvent::TransportFailed), Instruction::Stop);
    assert_eq!(fetch.outcome(), Some(Err(FetchError::Transport)));
    for event in all_events() {
        assert_eq!(fetch.advance(event), Instruction::Stop);
    }
}

#[test]
fn failed_copy_ends_the_fetch() {
    let mut fetch = Fetch::start(DownloadTarget::new("http://example.test", "a.jpg"));
    fetch.advance(FetchEvent::Responded { status: 200 });
    fetch.advance(FetchEvent::DirectoryReady);
    fetch.advance(FetchEvent::FileCreated);
    assert_eq!(fetch.advance(FetchEvent::IoFailed), Instruction::Stop);
    assert_eq!(fetch.outcome(), Some(Err(FetchError::LocalIo { step: IoStep::CopyBody })));
}
