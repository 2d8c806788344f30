//! The course of one conversion request, as a state machine: the caller
//! performs each action it asks for and reports what came of it as an event.
//! A workspace, once asked for, is cleaned up exactly once, before the reply.

use vstd::prelude::*;

verus! {

/// The largest request body accepted: 10 MiB.
pub const MAX_BODY_BYTES: u64 = 10485760;

/// The content type of a successful reply.
pub const PDF_CONTENT_TYPE: &'static str = "application/pdf";

/// Why a request did not produce a document.
#[derive(Clone, Copy, Debug, PartialEq, Eq, Structural)]
pub enum Failure {
    /// A key is configured and the request did not present it.
    Unauthorized,
    /// The body is larger than the ceiling.
    TooLarge,
    /// The body has no part named `file`.
    NoFile,
    /// The upload stream broke off or could not be written.
    StreamInterrupted,
    /// The workspace could not be made.
    Workspace,
    /// The upload's file could not be created or flushed.
    Storage,
    /// The engine ran and exited unsuccessfully.
    EngineFailed,
    /// The engine could not be started.
    EngineLaunch,
    /// The engine succeeded but left no PDF in the workspace.
    OutputMissing,
    /// The produced PDF could not be read.
    OutputRead,
}

/// How a request ends.
#[derive(Clone, Copy, Debug, PartialEq, Eq, Structural)]
pub enum Outcome {
    Converted,
    Failed(Failure),
}

/// Where a request stands.
#[derive(Clone, Copy, Debug, PartialEq, Eq, Structural)]
pub enum Stage {
    /// Nothing has been done yet.
    Received,
    /// The workspace is being made.
    Creating,
    /// The upload is being stored in the workspace.
    Ingesting,
    /// The engine is running.
    Converting,
    /// The workspace is being searched for the produced PDF.
    Resolving,
    /// The produced PDF is being read.
    Reading,
    /// The workspace is being removed; the request will end with the outcome.
    CleaningUp(Outcome),
    /// The reply has been sent.
    Finished,
}

/// What came of storing the upload.
#[derive(Clone, Copy, Debug, PartialEq, Eq, Structural)]
pub enum IngestResult {
    Stored,
    NoFilePart,
    /// The body outgrew the ceiling while it streamed in.
    TooLarge,
    Interrupted,
    StorageFailed,
}

/// How storing the upload's first `file` field went.
#[derive(Clone, Copy, Debug, PartialEq, Eq, Structural)]
pub enum StoreOutcome {
    /// Its file could not be created.
    CreateFailed,
    /// Reading the body failed; whether because it outgrew the ceiling.
    ReadFailed { over_limit: bool },
    /// Writing a chunk to its file failed.
    WriteFailed,
    /// Its file could not be flushed.
    FlushFailed,
    /// All of it was written and flushed.
    Flushed,
}

/// What came of storing the upload: no `file` field at all; a failed file
/// create or flush is the server's fault; a broken read or write is the
/// client's, or a body over the ceiling.
pub open spec fn ingest_result_of(store: Option<StoreOutcome>) -> IngestResult {
    match store {
        None => IngestResult::NoFilePart,
        Some(StoreOutcome::CreateFailed) => IngestResult::StorageFailed,
        Some(StoreOutcome::FlushFailed) => IngestResult::StorageFailed,
        Some(StoreOutcome::ReadFailed { over_limit }) => if over_limit {
            IngestResult::TooLarge
        } else {
            IngestResult::Interrupted
        },
        Some(StoreOutcome::WriteFailed) => IngestResult::Interrupted,
        Some(StoreOutcome::Flushed) => IngestResult::Stored,
    }
}

/// The ingest event for how storing went, where `None` means the body had no
/// field named `file`.
pub fn ingest_result(store: Option<StoreOutcome>) -> (r: IngestResult)
    ensures
        r == ingest_result_of(store),
{
    match store {
        None => IngestResult::NoFilePart,
        Some(StoreOutcome::CreateFailed) => IngestResult::StorageFailed,
        Some(StoreOutcome::FlushFailed) => IngestResult::StorageFailed,
        Some(StoreOutcome::ReadFailed { over_limit }) => if over_limit {
            IngestResult::TooLarge
        } else {
            IngestResult::Interrupted
        },
        Some(StoreOutcome::WriteFailed) => IngestResult::Interrupted,
        Some(StoreOutcome::Flushed) => IngestResult::Stored,
    }
}

/// What came of running the engine.
#[derive(Clone, Copy, Debug, PartialEq, Eq, Structural)]
pub enum EngineResult {
    Succeeded,
    Failed,
    LaunchFailed,
}

/// What the caller reports.
#[derive(Clone, Copy, Debug, PartialEq, Eq, Structural)]
pub enum Event {
    /// The request arrived; whether its key was accepted, and the body length
    /// it declared, if any. Only a declared length can be refused here, before
    /// any workspace exists; a body sent without one (chunked) is admitted,
    /// and if it outgrows the ceiling while streaming it is refused with
    /// `IngestResult::TooLarge`, after its workspace was made and before the
    /// engine runs.
    Arrived { authorized: bool, body_len: Option<u64> },
    /// Whether the workspace was made.
    WorkspaceMade(bool),
    Ingested(IngestResult),
    EngineDone(EngineResult),
    /// Whether a PDF was found in the workspace.
    OutputFound(bool),
    /// Whether the PDF found was read.
    OutputRead(bool),
    /// The workspace removal was attempted; its own failure does not matter.
    CleanedUp,
}

/// What the caller is asked to do next.
#[derive(Clone, Copy, Debug, PartialEq, Eq, Structural)]
pub enum Action {
    CreateWorkspace,
    Ingest,
    RunEngine,
    FindOutput,
    ReadOutput,
    /// Remove the workspace, best effort.
    Cleanup,
    /// Send the reply for the outcome.
    Reply(Outcome),
}

/// The HTTP status of a failure.
pub open spec fn failure_status(f: Failure) -> u16 {
    match f {
        Failure::Unauthorized => 401,
        Failure::TooLarge => 413,
        Failure::NoFile => 400,
        Failure::StreamInterrupted => 400,
        _ => 500,
    }
}

/// The HTTP status of the reply for an outcome.
pub open spec fn outcome_status(o: Outcome) -> u16 {
    match o {
        Outcome::Converted => 200,
        Outcome::Failed(f) => failure_status(f),
    }
}

/// Leaving the work for `f`: remove the workspace first.
pub open spec fn fail(f: Failure) -> (Stage, Option<Action>) {
    (Stage::CleaningUp(Outcome::Failed(f)), Some(Action::Cleanup))
}

/// The next stage, and the action to take, when `event` is reported at
/// `stage`. An event that does not belong to the stage changes nothing.
pub open spec fn transition(stage: Stage, event: Event) -> (Stage, Option<Action>) {
    match (stage, event) {
        (Stage::Received, Event::Arrived { authorized, body_len }) => if !authorized {
            (Stage::Finished, Some(Action::Reply(Outcome::Failed(Failure::Unauthorized))))
        } else if body_len matches Some(n) && n > MAX_BODY_BYTES {
            (Stage::Finished, Some(Action::Reply(Outcome::Failed(Failure::TooLarge))))
        } else {
            (Stage::Creating, Some(Action::CreateWorkspace))
        },
        (Stage::Creating, Event::WorkspaceMade(ok)) => if ok {
            (Stage::Ingesting, Some(Action::Ingest))
        } else {
            fail(Failure::Workspace)
        },
        (Stage::Ingesting, Event::Ingested(res)) => match res {
            IngestResult::Stored => (Stage::Converting, Some(Action::RunEngine)),
            IngestResult::NoFilePart => fail(Failure::NoFile),
            IngestResult::TooLarge => fail(Failure::TooLarge),
            IngestResult::Interrupted => fail(Failure::StreamInterrupted),
            IngestResult::StorageFailed => fail(Failure::Storage),
        },
        (Stage::Converting, Event::EngineDone(res)) => match res {
            EngineResult::Succeeded => (Stage::Resolving, Some(Action::FindOutput)),
            EngineResult::Failed => fail(Failure::EngineFailed),
            EngineResult::LaunchFailed => fail(Failure::EngineLaunch),
        },
        (Stage::Resolving, Event::OutputFound(found)) => if found {
            (Stage::Reading, Some(Action::ReadOutput))
        } else {
            fail(Failure::OutputMissing)
        },
        (Stage::Reading, Event::OutputRead(ok)) => if ok {
            (Stage::CleaningUp(Outcome::Converted), Some(Action::Cleanup))
        } else {
            fail(Failure::OutputRead)
        },
        (Stage::CleaningUp(o), Event::CleanedUp) => (Stage::Finished, Some(Action::Reply(o))),
        _ => (stage, None),
    }
}

/// The HTTP status of a failure.
pub fn status_of(f: Failure) -> (r: u16)
    ensures
        r == failure_status(f),
{
    match f {
        Failure::Unauthorized => 401,
        Failure::TooLarge => 413,
        Failure::NoFile => 400,
        Failure::StreamInterrupted => 400,
        _ => 500,
    }
}

/// The HTTP status of the reply for `o`.
pub fn reply_status(o: Outcome) -> (r: u16)
    ensures
        r == outcome_status(o),
{
    match o {
        Outcome::Converted => 200,
        Outcome::Failed(f) => status_of(f),
    }
}

/// The text sent to the client for a failure: generic, with no internal detail.
pub open spec fn failure_text(f: Failure) -> Seq<char> {
    match f {
        Failure::Unauthorized => "Unauthorized"@,
        Failure::TooLarge => "Request body too large"@,
        Failure::NoFile => "No file uploaded"@,
        Failure::StreamInterrupted => "Stream interrupted"@,
        Failure::Workspace => "Internal Error"@,
        Failure::Storage => "Internal Error"@,
        Failure::EngineFailed => "Conversion failed"@,
        Failure::EngineLaunch => "Conversion execution failed"@,
        Failure::OutputMissing => "PDF generation failed - output not found"@,
        Failure::OutputRead => "Read PDF failed"@,
    }
}

/// The text sent to the client for a failure.
pub fn failure_message(f: Failure) -> (r: &'static str)
    ensures
        r@ == failure_text(f),
{
    let r = match f {
        Failure::Unauthorized => "Unauthorized",
        Failure::TooLarge => "Request body too large",
        Failure::NoFile => "No file uploaded",
        Failure::StreamInterrupted => "Stream interrupted",
        Failure::Workspace => "Internal Error",
        Failure::Storage => "Internal Error",
        Failure::EngineFailed => "Conversion failed",
        Failure::EngineLaunch => "Conversion execution failed",
        Failure::OutputMissing => "PDF generation failed - output not found",
        Failure::OutputRead => "Read PDF failed",
    };
    r
}

/// Reports `event` at `stage`: the next stage, and the action to take, if any.
pub fn step(stage: Stage, event: Event) -> (r: (Stage, Option<Action>))
    ensures
        r == transition(stage, event),
{
    match (stage, event) {
        (Stage::Received, Event::Arrived { authorized, body_len }) => {
            if !authorized {
                return (Stage::Finished, Some(Action::Reply(Outcome::Failed(Failure::Unauthorized))));
            }
            match body_len {
                Some(n) => if n > MAX_BODY_BYTES {
                    return (Stage::Finished, Some(Action::Reply(Outcome::Failed(Failure::TooLarge))));
                },
                None => {},
            }
            (Stage::Creating, Some(Action::CreateWorkspace))
        },
        (Stage::Creating, Event::WorkspaceMade(ok)) => if ok {
            (Stage::Ingesting, Some(Action::Ingest))
        } else {
            (Stage::CleaningUp(Outcome::Failed(Failure::Workspace)), Some(Action::Cleanup))
        },
        (Stage::Ingesting, Event::Ingested(res)) => {
            let f = match res {
                IngestResult::Stored => {
                    return (Stage::Converting, Some(Action::RunEngine));
                },
                IngestResult::NoFilePart => Failure::NoFile,
                IngestResult::TooLarge => Failure::TooLarge,
                IngestResult::Interrupted => Failure::StreamInterrupted,
                IngestResult::StorageFailed => Failure::Storage,
            };
            (Stage::CleaningUp(Outcome::Failed(f)), Some(Action::Cleanup))
        },
        (Stage::Converting, Event::EngineDone(res)) => {
            let f = match res {
                EngineResult::Succeeded => {
                    return (Stage::Resolving, Some(Action::FindOutput));
                },
                EngineResult::Failed => Failure::EngineFailed,
                EngineResult::LaunchFailed => Failure::EngineLaunch,
            };
            (Stage::CleaningUp(Outcome::Failed(f)), Some(Action::Cleanup))
        },
        (Stage::Resolving, Event::OutputFound(found)) => if found {
            (Stage::Reading, Some(Action::ReadOutput))
        } else {
            (Stage::CleaningUp(Outcome::Failed(Failure::OutputMissing)), Some(Action::Cleanup))
        },
        (Stage::Reading, Event::OutputRead(ok)) => if ok {
            (Stage::CleaningUp(Outcome::Converted), Some(Action::Cleanup))
        } else {
            (Stage::CleaningUp(Outcome::Failed(Failure::OutputRead)), Some(Action::Cleanup))
        },
        (Stage::CleaningUp(o), Event::CleanedUp) => (Stage::Finished, Some(Action::Reply(o))),
        _ => (stage, None),
    }
}

/// The stage reached, and the actions asked for, when `events` are reported
/// one by one from `start`.
pub open spec fn run(start: Stage, events: Seq<Event>) -> (Stage, Seq<Action>)
    decreases events.len(),
{
    if events.len() == 0 {
        (start, Seq::empty())
    } else {
        let (stage, acts) = run(start, events.drop_last());
        let (next, action) = transition(stage, events.last());
        match action {
            Some(a) => (next, acts.push(a)),
            None => (next, acts),
        }
    }
}

/// Reporting one more event after `events`.
proof fn lemma_run_push(start: Stage, events: Seq<Event>, e: Event)
    ensures
        run(start, events.push(e)) == ({
            let (stage, acts) = run(start, events);
            let (next, action) = transition(stage, e);
            match action {
                Some(a) => (next, acts.push(a)),
                None => (next, acts),
            }
        }),
{
    assert(events.push(e).drop_last() =~= events);
}

/// How many of `acts` satisfy `p`.
pub open spec fn count_where(acts: Seq<Action>, p: spec_fn(Action) -> bool) -> nat
    decreases acts.len(),
{
    if acts.len() == 0 {
        0
    } else {
        count_where(acts.drop_last(), p) + if p(acts.last()) {
            1nat
        } else {
            0nat
        }
    }
}

/// How many times a workspace is asked for in `acts`.
pub open spec fn creations(acts: Seq<Action>) -> nat {
    count_where(acts, |a: Action| a == Action::CreateWorkspace)
}

/// How many times a workspace removal is asked for in `acts`.
pub open spec fn cleanups(acts: Seq<Action>) -> nat {
    count_where(acts, |a: Action| a == Action::Cleanup)
}

/// How many replies are asked for in `acts`.
pub open spec fn replies(acts: Seq<Action>) -> nat {
    count_where(acts, |a: Action| a is Reply)
}

/// The actions asked for so far, from `Received`, agree with `stage`.
pub open spec fn trace_agrees(stage: Stage, acts: Seq<Action>) -> bool {
    match stage {
        Stage::Received => acts.len() == 0,
        Stage::CleaningUp(_) => creations(acts) == 1 && cleanups(acts) == 1 && replies(acts) == 0,
        Stage::Finished => replies(acts) == 1 && cleanups(acts) == creations(acts) && creations(
            acts,
        ) <= 1 && acts.len() > 0 && acts.last() is Reply,
        _ => creations(acts) == 1 && cleanups(acts) == 0 && replies(acts) == 0,
    }
}

proof fn lemma_counts_push(acts: Seq<Action>, a: Action)
    ensures
        creations(acts.push(a)) == creations(acts) + if a == Action::CreateWorkspace {
            1nat
        } else {
            0nat
        },
        cleanups(acts.push(a)) == cleanups(acts) + if a == Action::Cleanup {
            1nat
        } else {
            0nat
        },
        replies(acts.push(a)) == replies(acts) + if a is Reply {
            1nat
        } else {
            0nat
        },
{
    assert(acts.push(a).drop_last() =~= acts);
}

proof fn lemma_trace_agrees(events: Seq<Event>)
    ensures
        trace_agrees(run(Stage::Received, events).0, run(Stage::Received, events).1),
    decreases events.len(),
{
    if events.len() > 0 {
        lemma_trace_agrees(events.drop_last());
        let (stage, acts) = run(Stage::Received, events.drop_last());
        let (next, action) = transition(stage, events.last());
        if let Some(a) = action {
            lemma_counts_push(acts, a);
            if stage is Received {
                assert(creations(acts) == 0 && cleanups(acts) == 0 && replies(acts) == 0);
            }
        }
    }
}

/// Whatever happens during a request, a workspace is asked for at most once,
/// its removal is asked for at most once and never without it, and at most one
/// reply is sent. Once the reply is sent it is the last action, and the
/// workspace, if one was asked for, has been removed before it.
pub proof fn lemma_cleanup_once_before_reply(events: Seq<Event>)
    ensures
        ({
            let acts = run(Stage::Received, events).1;
            &&& creations(acts) <= 1
            &&& cleanups(acts) <= creations(acts)
            &&& replies(acts) <= 1
            &&& replies(acts) == 1 ==> cleanups(acts) == creations(acts) && acts.last() is Reply
        }),
{
    lemma_trace_agrees(events);
}

/// Reporting `a` and then `b` is reporting `a + b`.
proof fn lemma_run_append(start: Stage, a: Seq<Event>, b: Seq<Event>)
    ensures
        run(start, a + b) == (run(run(start, a).0, b).0, run(start, a).1 + run(
            run(start, a).0,
            b,
        ).1),
    decreases b.len(),
{
    if b.len() == 0 {
        assert(a + b =~= a);
        assert(run(start, a).1 + Seq::<Action>::empty() =~= run(start, a).1);
    } else {
        lemma_run_append(start, a, b.drop_last());
        assert((a + b).drop_last() =~= a + b.drop_last());
        assert((a + b).last() == b.last());
        let mid = run(start, a);
        let rest = run(mid.0, b.drop_last());
        let (next, action) = transition(rest.0, b.last());
        if let Some(x) = action {
            assert(mid.1 + rest.1.push(x) =~= (mid.1 + rest.1).push(x));
        }
    }
}

/// After the reply, nothing more is asked for.
proof fn lemma_finished_is_final(events: Seq<Event>)
    ensures
        run(Stage::Finished, events) == (Stage::Finished, Seq::<Action>::empty()),
    decreases events.len(),
{
    if events.len() > 0 {
        lemma_finished_is_final(events.drop_last());
    }
}

/// While cleaning up for `o`, the only action that can follow is the reply for `o`.
proof fn lemma_cleaning_up_replies(o: Outcome, events: Seq<Event>)
    ensures
        ({
            let (stage, acts) = run(Stage::CleaningUp(o), events);
            (stage == Stage::CleaningUp(o) && acts.len() == 0) || (stage == Stage::Finished && acts
                == seq![Action::Reply(o)])
        }),
    decreases events.len(),
{
    if events.len() > 0 {
        lemma_cleaning_up_replies(o, events.drop_last());
        let (stage, acts) = run(Stage::CleaningUp(o), events.drop_last());
        if stage == Stage::CleaningUp(o) && events.last() == Event::CleanedUp {
            assert(acts.push(Action::Reply(o)) =~= seq![Action::Reply(o)]);
        }
    }
}

/// A request that is turned away on arrival (its key was not accepted, or it
/// declared a body length larger than the ceiling) gets one reply, 401 or 413,
/// and no workspace is ever asked for, whatever is reported afterwards.
pub proof fn lemma_rejected_on_arrival(authorized: bool, body_len: Option<u64>, rest: Seq<Event>)
    requires
        !authorized || (body_len matches Some(n) && n > MAX_BODY_BYTES),
    ensures
        ({
            let f = if authorized {
                Failure::TooLarge
            } else {
                Failure::Unauthorized
            };
            let acts = run(
                Stage::Received,
                seq![Event::Arrived { authorized, body_len }] + rest,
            ).1;
            &&& acts == seq![Action::Reply(Outcome::Failed(f))]
            &&& creations(acts) == 0
            &&& outcome_status(Outcome::Failed(f)) == if authorized {
                413u16
            } else {
                401u16
            }
        }),
{
    let first = seq![Event::Arrived { authorized, body_len }];
    lemma_run_append(Stage::Received, first, rest);
    lemma_run_push(Stage::Received, Seq::empty(), Event::Arrived { authorized, body_len });
    assert(first =~= Seq::<Event>::empty().push(Event::Arrived { authorized, body_len }));
    lemma_finished_is_final(rest);
    let acts = run(Stage::Received, first + rest).1;
    assert(acts =~= run(Stage::Received, first).1);
    let f = if authorized {
        Failure::TooLarge
    } else {
        Failure::Unauthorized
    };
    assert(acts =~= Seq::<Action>::empty().push(Action::Reply(Outcome::Failed(f))));
    lemma_counts_push(Seq::empty(), Action::Reply(Outcome::Failed(f)));
}

/// An accepted request within the ceiling goes on: its first action is to
/// ask for its workspace.
pub proof fn lemma_admitted_proceeds(body_len: Option<u64>)
    requires
        body_len matches Some(n) ==> n <= MAX_BODY_BYTES,
    ensures
        run(Stage::Received, seq![Event::Arrived { authorized: true, body_len }]) == (
            Stage::Creating,
            seq![Action::CreateWorkspace],
        ),
{
    let e = Event::Arrived { authorized: true, body_len };
    lemma_run_push(Stage::Received, Seq::empty(), e);
    assert(seq![e] =~= Seq::<Event>::empty().push(e));
    assert(Seq::<Action>::empty().push(Action::CreateWorkspace) =~= seq![Action::CreateWorkspace]);
}

/// When the upload holds no part named `file`, the workspace is removed and
/// then, whatever is reported afterwards, the only reply is 400.
pub proof fn lemma_missing_file(rest: Seq<Event>)
    ensures
        ({
            let acts = run(Stage::Ingesting, seq![Event::Ingested(IngestResult::NoFilePart)] + rest).1;
            &&& acts.len() >= 1
            &&& acts[0] == Action::Cleanup
            &&& forall|i: int| 0 <= i < acts.len() && (#[trigger] acts[i]) is Reply
                ==> acts[i] == Action::Reply(Outcome::Failed(Failure::NoFile))
            &&& outcome_status(Outcome::Failed(Failure::NoFile)) == 400
        }),
{
    let first = seq![Event::Ingested(IngestResult::NoFilePart)];
    lemma_run_append(Stage::Ingesting, first, rest);
    lemma_run_push(Stage::Ingesting, Seq::empty(), Event::Ingested(IngestResult::NoFilePart));
    assert(first =~= Seq::<Event>::empty().push(Event::Ingested(IngestResult::NoFilePart)));
    let o = Outcome::Failed(Failure::NoFile);
    lemma_cleaning_up_replies(o, rest);
    let acts = run(Stage::Ingesting, first + rest).1;
    assert(run(Stage::Ingesting, first).1 =~= seq![Action::Cleanup]);
    let tail = run(Stage::CleaningUp(o), rest).1;
    assert(acts =~= seq![Action::Cleanup] + tail);
    assert forall|i: int| 0 <= i < acts.len() && (#[trigger] acts[i]) is Reply implies acts[i]
        == Action::Reply(o) by {
        if i > 0 {
            assert(acts[i] == tail[i - 1]);
        }
    }
}

/// A body that outgrows the ceiling while it streams in is refused with 413:
/// the workspace is removed, the engine never runs, and the only reply, if
/// any, is that refusal, whatever is reported afterwards.
pub proof fn lemma_oversized_stream(rest: Seq<Event>)
    ensures
        ({
            let acts = run(Stage::Ingesting, seq![Event::Ingested(IngestResult::TooLarge)] + rest).1;
            &&& acts.len() >= 1
            &&& acts[0] == Action::Cleanup
            &&& forall|i: int| 0 <= i < acts.len() ==> (#[trigger] acts[i]) != Action::RunEngine
            &&& forall|i: int| 0 <= i < acts.len() && (#[trigger] acts[i]) is Reply
                ==> acts[i] == Action::Reply(Outcome::Failed(Failure::TooLarge))
            &&& outcome_status(Outcome::Failed(Failure::TooLarge)) == 413
        }),
{
    let e = Event::Ingested(IngestResult::TooLarge);
    let first = seq![e];
    lemma_run_append(Stage::Ingesting, first, rest);
    lemma_run_push(Stage::Ingesting, Seq::empty(), e);
    assert(first =~= Seq::<Event>::empty().push(e));
    let o = Outcome::Failed(Failure::TooLarge);
    lemma_cleaning_up_replies(o, rest);
    let acts = run(Stage::Ingesting, first + rest).1;
    assert(run(Stage::Ingesting, first).1 =~= seq![Action::Cleanup]);
    let tail = run(Stage::CleaningUp(o), rest).1;
    assert(acts =~= seq![Action::Cleanup] + tail);
    assert forall|i: int| 0 <= i < acts.len() implies (#[trigger] acts[i]) != Action::RunEngine
        && (acts[i] is Reply ==> acts[i] == Action::Reply(o)) by {
        if i > 0 {
            assert(acts[i] == tail[i - 1]);
        }
    }
}

/// The events of a request that goes through: admitted with the declared
/// length `body_len`, stored, converted, found, read and cleaned up.
pub open spec fn converted_events(body_len: Option<u64>) -> Seq<Event> {
    seq![
        Event::Arrived { authorized: true, body_len },
        Event::WorkspaceMade(true),
        Event::Ingested(IngestResult::Stored),
        Event::EngineDone(EngineResult::Succeeded),
        Event::OutputFound(true),
        Event::OutputRead(true),
        Event::CleanedUp,
    ]
}

/// A request admitted within the ceiling whose every stage succeeds ends with
/// a 200 reply carrying the document, sent after the workspace was removed.
pub proof fn lemma_converted_round_trip(body_len: Option<u64>)
    requires
        body_len matches Some(n) ==> n <= MAX_BODY_BYTES,
    ensures
        run(Stage::Received, converted_events(body_len)) == (
            Stage::Finished,
            seq![
                Action::CreateWorkspace,
                Action::Ingest,
                Action::RunEngine,
                Action::FindOutput,
                Action::ReadOutput,
                Action::Cleanup,
                Action::Reply(Outcome::Converted),
            ],
        ),
        outcome_status(Outcome::Converted) == 200,
{
    let evs = converted_events(body_len);
    lemma_run_push(Stage::Received, Seq::empty(), evs[0]);
    assert(evs.subrange(0, 1) =~= Seq::<Event>::empty().push(evs[0]));
    lemma_run_push(Stage::Received, evs.subrange(0, 1), evs[1]);
    assert(evs.subrange(0, 2) =~= evs.subrange(0, 1).push(evs[1]));
    lemma_run_push(Stage::Received, evs.subrange(0, 2), evs[2]);
    assert(evs.subrange(0, 3) =~= evs.subrange(0, 2).push(evs[2]));
    lemma_run_push(Stage::Received, evs.subrange(0, 3), evs[3]);
    assert(evs.subrange(0, 4) =~= evs.subrange(0, 3).push(evs[3]));
    lemma_run_push(Stage::Received, evs.subrange(0, 4), evs[4]);
    assert(evs.subrange(0, 5) =~= evs.subrange(0, 4).push(evs[4]));
    lemma_run_push(Stage::Received, evs.subrange(0, 5), evs[5]);
    assert(evs.subrange(0, 6) =~= evs.subrange(0, 5).push(evs[5]));
    lemma_run_push(Stage::Received, evs.subrange(0, 6), evs[6]);
    assert(evs =~= evs.subrange(0, 6).push(evs[6]));
    assert(run(Stage::Received, evs).1 =~= seq![
        Action::CreateWorkspace,
        Action::Ingest,
        Action::RunEngine,
        Action::FindOutput,
        Action::ReadOutput,
        Action::Cleanup,
        Action::Reply(Outcome::Converted),
    ]);
}

} // verus!
