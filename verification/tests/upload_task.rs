use personal_data_hub::upload::{
    Action, Phase, ReadOutcome, SourceFile, StepInput, StepOutput, TaskStatus, UploadEvent,
    UploadRunState, UploadTask, CHUNK_SIZE,
};

const MIB: u64 = 1024 * 1024;

fn source(size: u64) -> SourceFile {
    SourceFile { size, name: "photo.png".to_string(), mime: "image/png".to_string() }
}

/// Drives a task against a backend that keeps every byte and never fails,
/// with the control cell always at `Running`.
fn run_to_end(mut task: UploadTask, size: u64) -> Vec<UploadEvent> {
    let mut events = Vec::new();
    let mut received: u64 = 0;
    let mut aborts = 0;
    let mut out: StepOutput = task.step(StepInput::Begin);
    for _ in 0..10_000 {
        if let Some(e) = out.event.take() {
            events.push(e);
        }
        let input = match out.action {
            Action::StatFile => StepInput::FileInfo(Ok(source(size))),
            Action::InitSession { .. } => StepInput::SessionOpened(Ok("up-1".to_string())),
            Action::OpenFile => StepInput::FileOpened(Ok(())),
            Action::ReadControl => StepInput::Control(UploadRunState::Running),
            Action::AwaitChange => StepInput::Woken(true),
            Action::QueryStatus => StepInput::Offset(Ok(received)),
            Action::Complete => StepInput::Completed(Ok(serde_json::Value::Null)),
            Action::ReadChunk { offset, len } => {
                assert_eq!(offset, received);
                StepInput::Chunk(ReadOutcome::Data(vec![7u8; len as usize]))
            }
            Action::SendChunk { offset, bytes } => {
                assert_eq!(offset, received);
                received = offset + bytes.len() as u64;
                StepInput::ChunkSent(Ok(()))
            }
            Action::Abort => {
                aborts += 1;
                StepInput::Aborted
            }
            Action::Finish => break,
        };
        out = task.step(input);
    }
    assert_eq!(aborts, 0);
    assert!(task.is_finished());
    events
}

#[test]
fn three_mib_in_one_mib_chunks() {
    let task = UploadTask::new("t1".to_string(), "image".to_string());
    let events = run_to_end(task, 3 * MIB);
    assert_eq!(events.len(), 4);
    let sent: Vec<Option<u64>> = events.iter().map(|e| e.bytes_sent).collect();
    assert_eq!(sent, vec![Some(1_048_576), Some(2_097_152), Some(3_145_728), Some(3_145_728)]);
    for e in &events[..3] {
        assert_eq!(e.status, TaskStatus::Uploading);
        assert_eq!(e.total_bytes, Some(3 * MIB));
        assert_eq!(e.upload_id.as_deref(), Some("up-1"));
        assert_eq!(e.task_id, "t1");
    }
    assert_eq!(events[3].status, TaskStatus::Done);
    assert_eq!(events[3].bytes_sent, events[3].total_bytes);
}

#[test]
fn empty_file_completes_after_init() {
    let task = UploadTask::new("t0".to_string(), " video ".to_string());
    let events = run_to_end(task, 0);
    assert_eq!(events.len(), 1);
    assert_eq!(events[0].status, TaskStatus::Done);
    assert_eq!(events[0].bytes_sent, Some(0));
    assert_eq!(events[0].total_bytes, Some(0));
}

#[test]
fn last_chunk_is_short() {
    let task = UploadTask::with_chunk_size("t2".to_string(), "document".to_string(), 4);
    let events = run_to_end(task, 10);
    let sent: Vec<Option<u64>> = events.iter().map(|e| e.bytes_sent).collect();
    assert_eq!(sent, vec![Some(4), Some(8), Some(10), Some(10)]);
    assert_eq!(CHUNK_SIZE, 1_048_576);
}

#[test]
fn unknown_category_fails_at_once() {
    let mut task = UploadTask::new("t3".to_string(), "music".to_string());
    let out = task.step(StepInput::Begin);
    let e = out.event.expect("an event");
    assert_eq!(e.status, TaskStatus::Failed);
    assert_eq!(e.error.as_deref(), Some("invalid attachment category"));
    assert_eq!(e.total_bytes, None);
    assert!(matches!(out.action, Action::Finish));
    assert_eq!(task.phase(), Phase::Finished);
}

/// A task whose session is open and whose file is open: at the top of its loop.
fn task_in_loop(size: u64, chunk: u64) -> UploadTask {
    let mut task = UploadTask::with_chunk_size("t".to_string(), "image".to_string(), chunk);
    assert!(matches!(task.step(StepInput::Begin).action, Action::StatFile));
    let out = task.step(StepInput::FileInfo(Ok(source(size))));
    match out.action {
        Action::InitSession { category, original_name, mime_type, size: s } => {
            assert_eq!(category, "image");
            assert_eq!(original_name, "photo.png");
            assert_eq!(mime_type, "image/png");
            assert_eq!(s, size);
        }
        _ => panic!("expected the session to be opened"),
    }
    assert!(out.event.is_none());
    let out = task.step(StepInput::SessionOpened(Ok("up-9".to_string())));
    assert!(matches!(out.action, Action::OpenFile));
    assert!(out.event.is_none());
    let out = task.step(StepInput::FileOpened(Ok(())));
    assert!(matches!(out.action, Action::ReadControl));
    assert!(out.event.is_none());
    assert_eq!(task.phase(), Phase::Idle);
    assert_eq!(task.upload_id(), "up-9");
    assert_eq!(task.total_bytes(), size);
    assert_eq!(task.task_id(), "t");
    task
}

fn expect_failed(out: &StepOutput, error: &str, bytes_sent: Option<u64>) {
    let e = out.event.as_ref().expect("an event");
    assert_eq!(e.status, TaskStatus::Failed);
    assert_eq!(e.error.as_deref(), Some(error));
    assert_eq!(e.bytes_sent, bytes_sent);
    assert!(out.pause_self);
    assert!(matches!(out.action, Action::ReadControl));
}

#[test]
fn pause_between_chunks_is_reported_and_nothing_is_sent() {
    let mut task = task_in_loop(10, 4);
    let out = task.step(StepInput::Control(UploadRunState::Paused));
    let e = out.event.expect("an event");
    assert_eq!(e.status, TaskStatus::Paused);
    assert_eq!(e.bytes_sent, None);
    assert_eq!(e.total_bytes, Some(10));
    assert_eq!(e.upload_id.as_deref(), Some("up-9"));
    assert!(!out.pause_self);
    assert!(matches!(out.action, Action::AwaitChange));
    assert_eq!(task.phase(), Phase::Waiting);
    // woken while still paused: paused again, still nothing sent
    let out = task.step(StepInput::Woken(true));
    assert!(out.event.is_none());
    assert!(matches!(out.action, Action::ReadControl));
    let out = task.step(StepInput::Control(UploadRunState::Paused));
    assert_eq!(out.event.expect("an event").status, TaskStatus::Paused);
    assert!(matches!(out.action, Action::AwaitChange));
    // resumed: the backend is asked for its offset first
    task.step(StepInput::Woken(true));
    let out = task.step(StepInput::Control(UploadRunState::Running));
    assert!(out.event.is_none());
    assert!(matches!(out.action, Action::QueryStatus));
}

#[test]
fn a_paused_task_ends_when_its_control_cell_is_gone() {
    let mut task = task_in_loop(10, 4);
    task.step(StepInput::Control(UploadRunState::Paused));
    let out = task.step(StepInput::Woken(false));
    assert!(out.event.is_none());
    assert!(matches!(out.action, Action::Finish));
    assert!(task.is_finished());
}

#[test]
fn cancel_aborts_once_and_ends_with_canceled() {
    let mut task = task_in_loop(10, 4);
    let out = task.step(StepInput::Control(UploadRunState::Canceled));
    assert!(out.event.is_none());
    assert!(matches!(out.action, Action::Abort));
    assert_eq!(task.phase(), Phase::Aborting { canceled: true });
    let out = task.step(StepInput::Aborted);
    let e = out.event.expect("an event");
    assert_eq!(e.status, TaskStatus::Canceled);
    assert_eq!(e.bytes_sent, Some(0));
    assert_eq!(e.total_bytes, Some(10));
    assert_eq!(e.upload_id.as_deref(), Some("up-9"));
    assert!(matches!(out.action, Action::Finish));
    assert!(task.is_finished());
    // a task that has ended asks for nothing more
    for input in [
        StepInput::Control(UploadRunState::Canceled),
        StepInput::Aborted,
        StepInput::Begin,
        StepInput::Woken(true),
    ] {
        let out = task.step(input);
        assert!(out.event.is_none());
        assert!(!out.pause_self);
        assert!(matches!(out.action, Action::Finish));
    }
}

#[test]
fn cancel_is_seen_after_a_pause() {
    let mut task = task_in_loop(10, 4);
    task.step(StepInput::Control(UploadRunState::Paused));
    task.step(StepInput::Woken(true));
    let out = task.step(StepInput::Control(UploadRunState::Canceled));
    assert!(matches!(out.action, Action::Abort));
    let out = task.step(StepInput::Aborted);
    assert_eq!(out.event.expect("an event").status, TaskStatus::Canceled);
}

#[test]
fn failed_status_query_pauses_the_task() {
    let mut task = task_in_loop(10, 4);
    task.step(StepInput::Control(UploadRunState::Running));
    let out = task.step(StepInput::Offset(Err("status failed (500): x".to_string())));
    expect_failed(&out, "status failed (500): x", None);
    let e = out.event.unwrap();
    assert_eq!(e.total_bytes, Some(10));
    assert_eq!(e.upload_id.as_deref(), Some("up-9"));
    assert_eq!(task.phase(), Phase::Idle);
}

#[test]
fn failed_send_pauses_and_resume_goes_on_from_the_backends_offset() {
    let mut task = task_in_loop(10, 4);
    task.step(StepInput::Control(UploadRunState::Running));
    let out = task.step(StepInput::Offset(Ok(0)));
    assert!(matches!(out.action, Action::ReadChunk { offset: 0, len: 4 }));
    let out = task.step(StepInput::Chunk(ReadOutcome::Data(vec![1, 2, 3, 4])));
    match out.action {
        Action::SendChunk { offset, bytes } => {
            assert_eq!(offset, 0);
            assert_eq!(bytes, vec![1, 2, 3, 4]);
        }
        _ => panic!("expected a chunk to be sent"),
    }
    let out = task.step(StepInput::ChunkSent(Err("chunk failed (502): bad".to_string())));
    expect_failed(&out, "chunk failed (502): bad", Some(0));
    // the task set its own cell to paused
    let out = task.step(StepInput::Control(UploadRunState::Paused));
    assert_eq!(out.event.expect("an event").status, TaskStatus::Paused);
    task.step(StepInput::Woken(true));
    let out = task.step(StepInput::Control(UploadRunState::Running));
    assert!(matches!(out.action, Action::QueryStatus));
    // the backend kept two of the four bytes after all
    let out = task.step(StepInput::Offset(Ok(2)));
    assert!(matches!(out.action, Action::ReadChunk { offset: 2, len: 4 }));
    task.step(StepInput::Chunk(ReadOutcome::Data(vec![3, 4, 5, 6])));
    let out = task.step(StepInput::ChunkSent(Ok(())));
    let e = out.event.expect("an event");
    assert_eq!(e.status, TaskStatus::Uploading);
    assert_eq!(e.bytes_sent, Some(6));
}

#[test]
fn read_failures_pause_the_task() {
    let mut task = task_in_loop(10, 4);
    task.step(StepInput::Control(UploadRunState::Running));
    task.step(StepInput::Offset(Ok(8)));
    let out = task.step(StepInput::Chunk(ReadOutcome::SeekFailed("bad fd".to_string())));
    expect_failed(&out, "seek failed: bad fd", Some(8));

    task.step(StepInput::Control(UploadRunState::Running));
    let out = task.step(StepInput::Offset(Ok(8)));
    assert!(matches!(out.action, Action::ReadChunk { offset: 8, len: 2 }));
    let out = task.step(StepInput::Chunk(ReadOutcome::ReadFailed("io".to_string())));
    expect_failed(&out, "read failed: io", Some(8));

    task.step(StepInput::Control(UploadRunState::Running));
    task.step(StepInput::Offset(Ok(8)));
    let out = task.step(StepInput::Chunk(ReadOutcome::Data(Vec::new())));
    expect_failed(&out, "unexpected EOF", Some(8));
}

#[test]
fn a_short_read_is_sent_as_it_is_and_a_long_one_is_cut() {
    let mut task = task_in_loop(10, 4);
    task.step(StepInput::Control(UploadRunState::Running));
    task.step(StepInput::Offset(Ok(0)));
    let out = task.step(StepInput::Chunk(ReadOutcome::Data(vec![9, 9])));
    match out.action {
        Action::SendChunk { offset, bytes } => {
            assert_eq!(offset, 0);
            assert_eq!(bytes, vec![9, 9]);
        }
        _ => panic!("expected a chunk to be sent"),
    }
    let out = task.step(StepInput::ChunkSent(Ok(())));
    assert_eq!(out.event.expect("an event").bytes_sent, Some(2));

    task.step(StepInput::Control(UploadRunState::Running));
    let out = task.step(StepInput::Offset(Ok(8)));
    assert!(matches!(out.action, Action::ReadChunk { offset: 8, len: 2 }));
    let out = task.step(StepInput::Chunk(ReadOutcome::Data(vec![1, 2, 3, 4, 5])));
    match out.action {
        Action::SendChunk { offset, bytes } => {
            assert_eq!(offset, 8);
            assert_eq!(bytes, vec![1, 2]);
        }
        _ => panic!("expected a chunk to be sent"),
    }
    let out = task.step(StepInput::ChunkSent(Ok(())));
    assert_eq!(out.event.expect("an event").bytes_sent, Some(10));
}

#[test]
fn failed_completion_pauses_and_done_carries_the_attachment() {
    let mut task = task_in_loop(10, 4);
    task.step(StepInput::Control(UploadRunState::Running));
    let out = task.step(StepInput::Offset(Ok(12)));
    assert!(matches!(out.action, Action::Complete));
    let out = task.step(StepInput::Completed(Err("complete failed (500): x".to_string())));
    expect_failed(&out, "complete failed (500): x", Some(12));

    task.step(StepInput::Control(UploadRunState::Running));
    task.step(StepInput::Offset(Ok(10)));
    let doc: serde_json::Value =
        serde_json::from_str(r#"{"success":true,"data":{"id":"att-7"}}"#).unwrap();
    let out = task.step(StepInput::Completed(Ok(doc)));
    let e = out.event.expect("an event");
    assert_eq!(e.status, TaskStatus::Done);
    assert_eq!(e.bytes_sent, Some(10));
    assert_eq!(e.total_bytes, Some(10));
    let expected: serde_json::Value = serde_json::from_str(r#"{"id":"att-7"}"#).unwrap();
    assert_eq!(e.attachment, Some(expected));
    assert!(matches!(out.action, Action::Finish));
    assert!(!out.pause_self);
    assert!(task.is_finished());
}

#[test]
fn done_without_data_has_no_attachment() {
    let mut task = task_in_loop(0, 4);
    task.step(StepInput::Control(UploadRunState::Running));
    task.step(StepInput::Offset(Ok(0)));
    let doc: serde_json::Value = serde_json::from_str(r#"{"success":true}"#).unwrap();
    let out = task.step(StepInput::Completed(Ok(doc)));
    let e = out.event.expect("an event");
    assert_eq!(e.status, TaskStatus::Done);
    assert_eq!(e.attachment, None);
}

#[test]
fn setup_failures_end_the_task() {
    let mut task = UploadTask::new("s1".to_string(), "script".to_string());
    task.step(StepInput::Begin);
    let out = task.step(StepInput::FileInfo(Err("No such file".to_string())));
    let e = out.event.expect("an event");
    assert_eq!(e.status, TaskStatus::Failed);
    assert_eq!(e.error.as_deref(), Some("stat file failed: No such file"));
    assert_eq!(e.total_bytes, None);
    assert_eq!(e.upload_id, None);
    assert!(!out.pause_self);
    assert!(matches!(out.action, Action::Finish));

    let mut task = UploadTask::new("s2".to_string(), "script".to_string());
    task.step(StepInput::Begin);
    task.step(StepInput::FileInfo(Ok(source(5))));
    let out = task.step(StepInput::SessionOpened(Err("init failed (403): no".to_string())));
    let e = out.event.expect("an event");
    assert_eq!(e.error.as_deref(), Some("init failed (403): no"));
    assert_eq!(e.total_bytes, Some(5));
    assert_eq!(e.upload_id, None);
    assert!(matches!(out.action, Action::Finish));
}

#[test]
fn a_file_that_cannot_be_opened_aborts_the_session() {
    let mut task = UploadTask::new("s3".to_string(), "video".to_string());
    task.step(StepInput::Begin);
    task.step(StepInput::FileInfo(Ok(source(5))));
    task.step(StepInput::SessionOpened(Ok("up-3".to_string())));
    let out = task.step(StepInput::FileOpened(Err("denied".to_string())));
    let e = out.event.expect("an event");
    assert_eq!(e.status, TaskStatus::Failed);
    assert_eq!(e.error.as_deref(), Some("open file failed: denied"));
    assert_eq!(e.total_bytes, Some(5));
    assert_eq!(e.upload_id.as_deref(), Some("up-3"));
    assert!(matches!(out.action, Action::Abort));
    let out = task.step(StepInput::Aborted);
    assert!(out.event.is_none());
    assert!(matches!(out.action, Action::Finish));
    assert!(task.is_finished());
}

#[test]
fn an_input_that_answers_nothing_ends_the_task() {
    let mut task = task_in_loop(10, 4);
    let out = task.step(StepInput::ChunkSent(Ok(())));
    assert!(out.event.is_none());
    assert!(matches!(out.action, Action::Finish));
    assert!(task.is_finished());
}

#[test]
fn progress_never_decreases_when_the_backend_loses_nothing() {
    // offsets as a backend reports them that took part of a chunk twice
    let mut task = task_in_loop(20, 8);
    let mut seen: Vec<u64> = Vec::new();
    for offset in [0u64, 8, 8, 11, 16, 19] {
        task.step(StepInput::Control(UploadRunState::Running));
        let out = task.step(StepInput::Offset(Ok(offset)));
        let len = match out.action {
            Action::ReadChunk { offset: o, len } => {
                assert_eq!(o, offset);
                len
            }
            _ => panic!("expected a read"),
        };
        task.step(StepInput::Chunk(ReadOutcome::Data(vec![0; len as usize])));
        let out = task.step(StepInput::ChunkSent(Ok(())));
        seen.push(out.event.expect("an event").bytes_sent.expect("progress"));
    }
    assert_eq!(seen, vec![8, 16, 16, 19, 20, 20]);
    assert!(seen.windows(2).all(|w| w[0] <= w[1]));
}

#[test]
fn source_file_names_and_types() {
    let f = SourceFile::from_parts(3, None, "text/plain".to_string());
    assert_eq!(f.name, "file");
    assert_eq!(f.size, 3);
    assert_eq!(f.mime, "text/plain");
    let f = SourceFile::from_parts(4, Some("a.txt".to_string()), "text/plain".to_string());
    assert_eq!(f.name, "a.txt");
    let f = SourceFile::describe("dir/photo.PNG", 9);
    assert_eq!(f.size, 9);
    assert_eq!(f.name, "photo.PNG");
    assert_eq!(f.mime, "image/png");
    let f = SourceFile::describe("notes.unknownext", 1);
    assert_eq!(f.mime, "application/octet-stream");
    let f = SourceFile::describe("..", 1);
    assert_eq!(f.name, "file");
}

#[test]
fn status_names() {
    assert_eq!(TaskStatus::Uploading.name(), "uploading");
    assert_eq!(TaskStatus::Paused.name(), "paused");
    assert_eq!(TaskStatus::Canceled.name(), "canceled");
    assert_eq!(TaskStatus::Failed.name(), "failed");
    assert_eq!(TaskStatus::Done.name(), "done");
}
