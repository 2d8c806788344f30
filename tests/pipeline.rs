use pdf_gateway::pipeline::{
    failure_message, reply_status, status_of, step, Action, EngineResult, Event, Failure,
    IngestResult, Outcome, Stage, StoreOutcome, ingest_result, MAX_BODY_BYTES, PDF_CONTENT_TYPE,
};

fn drive(events: &[Event]) -> (Stage, Vec<Action>) {
    let mut stage = Stage::Received;
    let mut acts = Vec::new();
    for e in events {
        let (next, a) = step(stage, *e);
        stage = next;
        if let Some(a) = a {
            acts.push(a);
        }
    }
    (stage, acts)
}

fn arrived() -> Event {
    Event::Arrived { authorized: true, body_len: Some(1000) }
}

#[test]
fn converted_request_cleans_up_then_replies_pdf() {
    let (stage, acts) = drive(&[
        arrived(),
        Event::WorkspaceMade(true),
        Event::Ingested(IngestResult::Stored),
        Event::EngineDone(EngineResult::Succeeded),
        Event::OutputFound(true),
        Event::OutputRead(true),
        Event::CleanedUp,
    ]);
    assert_eq!(stage, Stage::Finished);
    assert_eq!(
        acts,
        vec![
            Action::CreateWorkspace,
            Action::Ingest,
            Action::RunEngine,
            Action::FindOutput,
            Action::ReadOutput,
            Action::Cleanup,
            Action::Reply(Outcome::Converted),
        ]
    );
    assert_eq!(reply_status(Outcome::Converted), 200);
    assert_eq!(PDF_CONTENT_TYPE, "application/pdf");
}

#[test]
fn missing_file_is_400_after_cleanup() {
    let (stage, acts) = drive(&[
        arrived(),
        Event::WorkspaceMade(true),
        Event::Ingested(IngestResult::NoFilePart),
        Event::CleanedUp,
    ]);
    assert_eq!(stage, Stage::Finished);
    let o = Outcome::Failed(Failure::NoFile);
    assert_eq!(acts, vec![Action::CreateWorkspace, Action::Ingest, Action::Cleanup, Action::Reply(o)]);
    assert_eq!(reply_status(o), 400);
    assert_eq!(failure_message(Failure::NoFile), "No file uploaded");
}

#[test]
fn oversized_body_is_refused_before_any_workspace() {
    let (stage, acts) = drive(&[
        Event::Arrived { authorized: true, body_len: Some(MAX_BODY_BYTES + 1) },
        Event::WorkspaceMade(true),
        Event::CleanedUp,
    ]);
    assert_eq!(stage, Stage::Finished);
    assert_eq!(acts, vec![Action::Reply(Outcome::Failed(Failure::TooLarge))]);
    assert_eq!(status_of(Failure::TooLarge), 413);
}

#[test]
fn body_outgrowing_the_ceiling_while_streaming_is_413_without_engine() {
    let (stage, acts) = drive(&[
        Event::Arrived { authorized: true, body_len: None },
        Event::WorkspaceMade(true),
        Event::Ingested(IngestResult::TooLarge),
        Event::EngineDone(EngineResult::Succeeded),
        Event::CleanedUp,
    ]);
    assert_eq!(stage, Stage::Finished);
    let o = Outcome::Failed(Failure::TooLarge);
    assert_eq!(acts, vec![Action::CreateWorkspace, Action::Ingest, Action::Cleanup, Action::Reply(o)]);
    assert_eq!(reply_status(o), 413);
}

#[test]
fn body_at_the_ceiling_is_accepted() {
    assert_eq!(MAX_BODY_BYTES, 10 * 1024 * 1024);
    let (stage, acts) = drive(&[Event::Arrived { authorized: true, body_len: Some(MAX_BODY_BYTES) }]);
    assert_eq!(stage, Stage::Creating);
    assert_eq!(acts, vec![Action::CreateWorkspace]);
    let (_, acts) = drive(&[Event::Arrived { authorized: true, body_len: None }]);
    assert_eq!(acts, vec![Action::CreateWorkspace]);
}

#[test]
fn unauthorized_is_401_before_any_workspace() {
    let (stage, acts) = drive(&[
        Event::Arrived { authorized: false, body_len: Some(MAX_BODY_BYTES + 1) },
        Event::WorkspaceMade(true),
    ]);
    assert_eq!(stage, Stage::Finished);
    assert_eq!(acts, vec![Action::Reply(Outcome::Failed(Failure::Unauthorized))]);
    assert_eq!(status_of(Failure::Unauthorized), 401);
    assert_eq!(failure_message(Failure::Unauthorized), "Unauthorized");
}

#[test]
fn each_failure_cleans_up_once() {
    let cases: Vec<(Vec<Event>, Failure, u16)> = vec![
        (vec![arrived(), Event::WorkspaceMade(false)], Failure::Workspace, 500),
        (
            vec![arrived(), Event::WorkspaceMade(true), Event::Ingested(IngestResult::Interrupted)],
            Failure::StreamInterrupted,
            400,
        ),
        (
            vec![arrived(), Event::WorkspaceMade(true), Event::Ingested(IngestResult::StorageFailed)],
            Failure::Storage,
            500,
        ),
        (
            vec![
                arrived(),
                Event::WorkspaceMade(true),
                Event::Ingested(IngestResult::Stored),
                Event::EngineDone(EngineResult::Failed),
            ],
            Failure::EngineFailed,
            500,
        ),
        (
            vec![
                arrived(),
                Event::WorkspaceMade(true),
                Event::Ingested(IngestResult::Stored),
                Event::EngineDone(EngineResult::LaunchFailed),
            ],
            Failure::EngineLaunch,
            500,
        ),
        (
            vec![
                arrived(),
                Event::WorkspaceMade(true),
                Event::Ingested(IngestResult::Stored),
                Event::EngineDone(EngineResult::Succeeded),
                Event::OutputFound(false),
            ],
            Failure::OutputMissing,
            500,
        ),
        (
            vec![
                arrived(),
                Event::WorkspaceMade(true),
                Event::Ingested(IngestResult::Stored),
                Event::EngineDone(EngineResult::Succeeded),
                Event::OutputFound(true),
                Event::OutputRead(false),
            ],
            Failure::OutputRead,
            500,
        ),
    ];
    for (mut events, f, status) in cases {
        events.push(Event::CleanedUp);
        events.push(Event::CleanedUp);
        let (stage, acts) = drive(&events);
        assert_eq!(stage, Stage::Finished);
        assert_eq!(acts.iter().filter(|a| **a == Action::Cleanup).count(), 1);
        assert_eq!(acts[acts.len() - 2], Action::Cleanup);
        assert_eq!(acts[acts.len() - 1], Action::Reply(Outcome::Failed(f)));
        assert_eq!(status_of(f), status);
        assert!(!failure_message(f).is_empty());
    }
}

#[test]
fn out_of_order_events_change_nothing() {
    assert_eq!(step(Stage::Received, Event::CleanedUp), (Stage::Received, None));
    assert_eq!(step(Stage::Converting, Event::OutputFound(true)), (Stage::Converting, None));
    assert_eq!(step(Stage::Finished, arrived()), (Stage::Finished, None));
}

#[test]
fn storage_failures_are_classified() {
    assert_eq!(ingest_result(None), IngestResult::NoFilePart);
    assert_eq!(ingest_result(Some(StoreOutcome::CreateFailed)), IngestResult::StorageFailed);
    assert_eq!(ingest_result(Some(StoreOutcome::FlushFailed)), IngestResult::StorageFailed);
    assert_eq!(
        ingest_result(Some(StoreOutcome::ReadFailed { over_limit: true })),
        IngestResult::TooLarge
    );
    assert_eq!(
        ingest_result(Some(StoreOutcome::ReadFailed { over_limit: false })),
        IngestResult::Interrupted
    );
    assert_eq!(ingest_result(Some(StoreOutcome::WriteFailed)), IngestResult::Interrupted);
    assert_eq!(ingest_result(Some(StoreOutcome::Flushed)), IngestResult::Stored);
}
