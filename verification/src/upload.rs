//! The resumable upload task: a state machine that is told the outcome of
//! each outside operation and answers with the next operation to perform.

use crate::json::{json_member, member};
use crate::text::{concat2, opt_view, text_eq, trim, trimmed};
use vstd::prelude::*;

verus! {

/// Largest number of bytes sent in one chunk request, unless a task is
/// created with another limit.
pub const CHUNK_SIZE: u64 = 1048576;

/// The value of a task's control cell.
#[derive(Clone, Copy, Debug, PartialEq, Eq, Structural)]
pub enum UploadRunState {
    Running,
    Paused,
    Canceled,
}

/// The status that an event reports.
#[derive(Clone, Copy, Debug, PartialEq, Eq, Structural)]
pub enum TaskStatus {
    Uploading,
    Paused,
    Canceled,
    Failed,
    Done,
}

impl TaskStatus {
    /// The status as events spell it.
    pub open spec fn text(self) -> Seq<char> {
        match self {
            TaskStatus::Uploading => "uploading"@,
            TaskStatus::Paused => "paused"@,
            TaskStatus::Canceled => "canceled"@,
            TaskStatus::Failed => "failed"@,
            TaskStatus::Done => "done"@,
        }
    }

    /// The status as events spell it.
    pub fn name(&self) -> (name: &'static str)
        ensures
            name@ == self.text(),
    {
        match self {
            TaskStatus::Uploading => "uploading",
            TaskStatus::Paused => "paused",
            TaskStatus::Canceled => "canceled",
            TaskStatus::Failed => "failed",
            TaskStatus::Done => "done",
        }
    }
}

/// How much of the session an event carries.
#[derive(Clone, Copy, Debug, PartialEq, Eq, Structural)]
pub enum Known {
    /// Neither the size of the file nor the upload id.
    Nothing,
    /// The size of the file.
    Size,
    /// The size of the file and the upload id.
    Session,
}

/// Where a task stands: which outcome it is waiting for.
#[derive(Clone, Copy, Debug, PartialEq, Eq, Structural)]
pub enum Phase {
    /// Nothing was done yet.
    Created,
    /// Waiting for the size and name of the source file.
    Stat,
    /// Waiting for the backend to open an upload session.
    Init,
    /// Waiting for the source file to be opened.
    Open,
    /// At the top of the loop: waiting for the value of the control cell.
    Idle,
    /// Paused: waiting for the control cell to change.
    Waiting,
    /// Waiting for the backend to report how many bytes it holds.
    Status,
    /// Waiting for the backend to finish the session.
    Completing { offset: u64 },
    /// Waiting for `len` bytes of the file, read at `offset`.
    Reading { offset: u64, len: u64 },
    /// Waiting for the backend to accept `len` bytes at `offset`.
    Sending { offset: u64, len: u64 },
    /// Waiting for the attempt to abort the session.
    Aborting { canceled: bool },
    /// The task has ended.
    Finished,
}

/// What is known of the source file before the session is opened.
pub struct SourceFile {
    pub size: u64,
    pub name: String,
    pub mime: String,
}

/// `mime_guess::from_path`, then `MimeGuess::first_or_octet_stream` and
/// `Mime::essence_str`: the media type guessed from the extension of a
/// path, `application/octet-stream` where none is known. Which part of a
/// path is its extension is for the platform to say, so nothing is stated
/// of the answer.
#[verifier::external_body]
pub(crate) fn guess_mime(path: &str) -> String {
    mime_guess::from_path(path).first_or_octet_stream().essence_str().to_string()
}

/// `Path::file_name`, as text: the last component of a path, if it has one
/// that is valid Unicode. Where it begins is for the platform to say, so
/// nothing is stated of the answer.
#[verifier::external_body]
pub(crate) fn path_file_name(path: &str) -> Option<String> {
    std::path::Path::new(path).file_name().and_then(|name| name.to_str()).map(|name| name.to_string())
}

/// The name that a file goes under: its own, or `file` where it has none.
pub open spec fn name_or_file(name: Option<Seq<char>>) -> Seq<char> {
    match name {
        Some(n) => n,
        None => "file"@,
    }
}

impl SourceFile {
    /// What is sent to the backend about a file of `size` bytes: the name
    /// it goes under, `file` where it has none, and its media type.
    pub fn from_parts(size: u64, name: Option<String>, mime: String) -> (file: SourceFile)
        ensures
            file.size == size,
            file.mime@ == mime@,
            file.name@ == name_or_file(opt_view(name)),
    {
        SourceFile {
            size,
            name: match name {
                Some(n) => n,
                None => "file".to_owned(),
            },
            mime,
        }
    }

    /// What is sent to the backend about the file at `path`, of `size`
    /// bytes: what [`SourceFile::from_parts`] makes of the size, of the
    /// last component of the path, if the platform finds one, and of the
    /// media type guessed from the path.
    pub fn describe(path: &str, size: u64) -> (file: SourceFile)
        ensures
            file.size == size,
            exists|name: Option<Seq<char>>| file.name@ == #[trigger] name_or_file(name),
    {
        let name = path_file_name(path);
        let mime = guess_mime(path);
        let ghost found = opt_view(name);
        let file = SourceFile::from_parts(size, name, mime);
        assert(file.name@ == name_or_file(found));
        file
    }
}

/// The outcome of seeking to an offset and reading a chunk.
pub enum ReadOutcome {
    SeekFailed(String),
    ReadFailed(String),
    Data(Vec<u8>),
}

/// The outcome of the operation that the task asked for last.
pub enum StepInput {
    /// The task was spawned.
    Begin,
    /// The source file's metadata, or why it could not be read.
    FileInfo(Result<SourceFile, String>),
    /// The id of the new upload session, or why none was opened.
    SessionOpened(Result<String, String>),
    /// Whether the source file could be opened.
    FileOpened(Result<(), String>),
    /// The current value of the control cell.
    Control(UploadRunState),
    /// The control cell changed (`true`), or its writer is gone (`false`).
    Woken(bool),
    /// The number of bytes the backend holds, or why it could not be asked.
    Offset(Result<u64, String>),
    /// The document that the backend answered the completion with, or the failure.
    Completed(Result<serde_json::Value, String>),
    /// The chunk read from the file.
    Chunk(ReadOutcome),
    /// Whether the backend accepted the chunk.
    ChunkSent(Result<(), String>),
    /// The attempt to abort the session is over, whatever its outcome.
    Aborted,
}

/// The operation that the task asks for next.
pub enum Action {
    StatFile,
    InitSession { category: String, original_name: String, mime_type: String, size: u64 },
    OpenFile,
    ReadControl,
    AwaitChange,
    QueryStatus,
    Complete,
    ReadChunk { offset: u64, len: u64 },
    SendChunk { offset: u64, bytes: Vec<u8> },
    Abort,
    /// Remove the task from the registry and stop.
    Finish,
}

/// [`Action`] over mathematical values.
pub enum ActionModel {
    StatFile,
    InitSession { category: Seq<char>, original_name: Seq<char>, mime_type: Seq<char>, size: u64 },
    OpenFile,
    ReadControl,
    AwaitChange,
    QueryStatus,
    Complete,
    ReadChunk { offset: u64, len: u64 },
    SendChunk { offset: u64, bytes: Seq<u8> },
    Abort,
    Finish,
}

impl View for Action {
    type V = ActionModel;

    open spec fn view(&self) -> ActionModel {
        match *self {
            Action::StatFile => ActionModel::StatFile,
            Action::InitSession { category, original_name, mime_type, size } => {
                ActionModel::InitSession {
                    category: category@,
                    original_name: original_name@,
                    mime_type: mime_type@,
                    size,
                }
            },
            Action::OpenFile => ActionModel::OpenFile,
            Action::ReadControl => ActionModel::ReadControl,
            Action::AwaitChange => ActionModel::AwaitChange,
            Action::QueryStatus => ActionModel::QueryStatus,
            Action::Complete => ActionModel::Complete,
            Action::ReadChunk { offset, len } => ActionModel::ReadChunk { offset, len },
            Action::SendChunk { offset, bytes } => ActionModel::SendChunk { offset, bytes: bytes@ },
            Action::Abort => ActionModel::Abort,
            Action::Finish => ActionModel::Finish,
        }
    }
}

/// An event for the user interface.
pub struct UploadEvent {
    pub task_id: String,
    pub status: TaskStatus,
    pub bytes_sent: Option<u64>,
    pub total_bytes: Option<u64>,
    pub upload_id: Option<String>,
    pub error: Option<String>,
    /// What the backend says of the finished attachment: the member `data`
    /// of its answer, if it has one.
    pub attachment: Option<serde_json::Value>,
}

/// [`UploadEvent`] over mathematical values.
pub struct EventModel {
    pub task_id: Seq<char>,
    pub status: TaskStatus,
    pub bytes_sent: Option<u64>,
    pub total_bytes: Option<u64>,
    pub upload_id: Option<Seq<char>>,
    pub error: Option<Seq<char>>,
    pub attachment: Option<serde_json::Value>,
}

impl View for UploadEvent {
    type V = EventModel;

    open spec fn view(&self) -> EventModel {
        EventModel {
            task_id: self.task_id@,
            status: self.status,
            bytes_sent: self.bytes_sent,
            total_bytes: self.total_bytes,
            upload_id: opt_view(self.upload_id),
            error: opt_view(self.error),
            attachment: self.attachment,
        }
    }
}

/// What one step hands back.
pub struct StepOutput {
    /// The event to emit, if any.
    pub event: Option<UploadEvent>,
    /// Whether the task sets its own control cell to `Paused`.
    pub pause_self: bool,
    /// The operation to perform before the next step.
    pub action: Action,
}

/// [`StepOutput`] over mathematical values.
pub struct OutputModel {
    pub event: Option<EventModel>,
    pub pause_self: bool,
    pub action: ActionModel,
}

impl View for StepOutput {
    type V = OutputModel;

    open spec fn view(&self) -> OutputModel {
        OutputModel {
            event: match self.event {
                Some(e) => Some(e@),
                None => None,
            },
            pause_self: self.pause_self,
            action: self.action@,
        }
    }
}

/// Whether `c` names one of the attachment categories.
pub open spec fn category_known(c: Seq<char>) -> bool {
    c == "image"@ || c == "video"@ || c == "document"@ || c == "script"@
}

/// The category that the backend knows, for a category as the caller wrote it.
pub fn normalize_attachment_category(category: &str) -> (r: Result<&'static str, String>)
    ensures
        match r {
            Ok(c) => category_known(trimmed(category@)) && c@ == trimmed(category@),
            Err(e) => !category_known(trimmed(category@)) && e@ == "invalid attachment category"@,
        },
{
    let t = trim(category);
    if text_eq(t.as_str(), "image") {
        Ok("image")
    } else if text_eq(t.as_str(), "video") {
        Ok("video")
    } else if text_eq(t.as_str(), "document") {
        Ok("document")
    } else if text_eq(t.as_str(), "script") {
        Ok("script")
    } else {
        Err("invalid attachment category".to_owned())
    }
}

/// Number of bytes to read next when `offset` of `total` bytes have arrived
/// and a chunk holds at most `chunk` bytes.
pub open spec fn chunk_len(total: u64, offset: u64, chunk: u64) -> u64 {
    if total - offset < chunk {
        (total - offset) as u64
    } else {
        chunk
    }
}

/// An upload task over mathematical values.
pub struct TaskModel {
    pub task_id: Seq<char>,
    pub category: Seq<char>,
    pub chunk_size: u64,
    pub total: u64,
    pub upload_id: Seq<char>,
    pub phase: Phase,
}

impl TaskModel {
    /// The chunk size is positive, and a pending read or send lies inside the file.
    pub open spec fn wf(self) -> bool {
        &&& self.chunk_size >= 1
        &&& match self.phase {
            Phase::Completing { offset } => offset >= self.total,
            Phase::Reading { offset, len } => offset < self.total && len == chunk_len(
                self.total,
                offset,
                self.chunk_size,
            ),
            Phase::Sending { offset, len } => offset < self.total && 1 <= len <= chunk_len(
                self.total,
                offset,
                self.chunk_size,
            ),
            _ => true,
        }
    }

    /// The same task in another phase.
    pub open spec fn at(self, phase: Phase) -> TaskModel {
        TaskModel { phase, ..self }
    }

    /// An event of the task, carrying as much of the session as `known` says.
    pub open spec fn event(
        self,
        status: TaskStatus,
        known: Known,
        bytes_sent: Option<u64>,
        error: Option<Seq<char>>,
        attachment: Option<serde_json::Value>,
    ) -> EventModel {
        EventModel {
            task_id: self.task_id,
            status,
            bytes_sent,
            total_bytes: if known != Known::Nothing {
                Some(self.total)
            } else {
                None
            },
            upload_id: if known == Known::Session {
                Some(self.upload_id)
            } else {
                None
            },
            error,
            attachment,
        }
    }

    /// The task ends: it emits `event`, if any, and asks to be removed.
    pub open spec fn finish(self, event: Option<EventModel>) -> (TaskModel, OutputModel) {
        (
            self.at(Phase::Finished),
            OutputModel { event, pause_self: false, action: ActionModel::Finish },
        )
    }

    /// A step inside the session failed: the task reports it, pauses itself
    /// and goes back to the top of its loop.
    pub open spec fn fail_and_pause(self, error: Seq<char>, bytes_sent: Option<u64>) -> (
        TaskModel,
        OutputModel,
    ) {
        (
            self.at(Phase::Idle),
            OutputModel {
                event: Some(self.event(TaskStatus::Failed, Known::Session, bytes_sent, Some(error), None)),
                pause_self: true,
                action: ActionModel::ReadControl,
            },
        )
    }

    /// The task goes on to `phase` and asks for `action`, emitting `event`.
    pub open spec fn go(self, phase: Phase, event: Option<EventModel>, action: ActionModel) -> (
        TaskModel,
        OutputModel,
    ) {
        (self.at(phase), OutputModel { event, pause_self: false, action })
    }

    /// The transition of the task on `input`. An input that does not answer
    /// the operation the task is waiting for ends the task without an event.
    pub open spec fn step(self, input: StepInput) -> (TaskModel, OutputModel) {
        match (self.phase, input) {
            (Phase::Created, StepInput::Begin) => {
                if category_known(trimmed(self.category)) {
                    TaskModel { category: trimmed(self.category), ..self }.go(
                        Phase::Stat,
                        None,
                        ActionModel::StatFile,
                    )
                } else {
                    self.finish(
                        Some(
                            self.event(
                                TaskStatus::Failed,
                                Known::Nothing,
                                None,
                                Some("invalid attachment category"@),
                                None,
                            ),
                        ),
                    )
                }
            },
            (Phase::Stat, StepInput::FileInfo(Err(e))) => self.finish(
                Some(
                    self.event(TaskStatus::Failed, Known::Nothing, None, Some("stat file failed: "@ + e@), None),
                ),
            ),
            (Phase::Stat, StepInput::FileInfo(Ok(file))) => TaskModel {
                total: file.size,
                ..self
            }.go(
                Phase::Init,
                None,
                ActionModel::InitSession {
                    category: self.category,
                    original_name: file.name@,
                    mime_type: file.mime@,
                    size: file.size,
                },
            ),
            (Phase::Init, StepInput::SessionOpened(Err(e))) => self.finish(
                Some(self.event(TaskStatus::Failed, Known::Size, None, Some(e@), None)),
            ),
            (Phase::Init, StepInput::SessionOpened(Ok(id))) => TaskModel {
                upload_id: id@,
                ..self
            }.go(Phase::Open, None, ActionModel::OpenFile),
            (Phase::Open, StepInput::FileOpened(Err(e))) => self.go(
                Phase::Aborting { canceled: false },
                Some(
                    self.event(TaskStatus::Failed, Known::Session, None, Some("open file failed: "@ + e@), None),
                ),
                ActionModel::Abort,
            ),
            (Phase::Open, StepInput::FileOpened(Ok(_))) => self.go(
                Phase::Idle,
                None,
                ActionModel::ReadControl,
            ),
            (Phase::Idle, StepInput::Control(UploadRunState::Canceled)) => self.go(
                Phase::Aborting { canceled: true },
                None,
                ActionModel::Abort,
            ),
            (Phase::Idle, StepInput::Control(UploadRunState::Paused)) => self.go(
                Phase::Waiting,
                Some(self.event(TaskStatus::Paused, Known::Session, None, None, None)),
                ActionModel::AwaitChange,
            ),
            (Phase::Idle, StepInput::Control(UploadRunState::Running)) => self.go(
                Phase::Status,
                None,
                ActionModel::QueryStatus,
            ),
            (Phase::Waiting, StepInput::Woken(changed)) => if changed {
                self.go(Phase::Idle, None, ActionModel::ReadControl)
            } else {
                self.finish(None)
            },
            (Phase::Status, StepInput::Offset(Err(e))) => self.fail_and_pause(e@, None),
            (Phase::Status, StepInput::Offset(Ok(offset))) => if offset >= self.total {
                self.go(Phase::Completing { offset }, None, ActionModel::Complete)
            } else {
                let len = chunk_len(self.total, offset, self.chunk_size);
                self.go(Phase::Reading { offset, len }, None, ActionModel::ReadChunk { offset, len })
            },
            (Phase::Completing { offset }, StepInput::Completed(Err(e))) => self.fail_and_pause(
                e@,
                Some(offset),
            ),
            (Phase::Completing { offset }, StepInput::Completed(Ok(doc))) => self.finish(
                Some(
                    self.event(
                        TaskStatus::Done,
                        Known::Session,
                        Some(self.total),
                        None,
                        json_member(doc, "data"@),
                    ),
                ),
            ),
            (
                Phase::Reading { offset, len },
                StepInput::Chunk(ReadOutcome::SeekFailed(e)),
            ) => self.fail_and_pause("seek failed: "@ + e@, Some(offset)),
            (
                Phase::Reading { offset, len },
                StepInput::Chunk(ReadOutcome::ReadFailed(e)),
            ) => self.fail_and_pause("read failed: "@ + e@, Some(offset)),
            (Phase::Reading { offset, len }, StepInput::Chunk(ReadOutcome::Data(bytes))) => {
                if bytes@.len() == 0 {
                    self.fail_and_pause("unexpected EOF"@, Some(offset))
                } else {
                    let kept = if bytes@.len() > len {
                        bytes@.take(len as int)
                    } else {
                        bytes@
                    };
                    self.go(
                        Phase::Sending { offset, len: kept.len() as u64 },
                        None,
                        ActionModel::SendChunk { offset, bytes: kept },
                    )
                }
            },
            (Phase::Sending { offset, len }, StepInput::ChunkSent(Err(e))) => self.fail_and_pause(
                e@,
                Some(offset),
            ),
            (Phase::Sending { offset, len }, StepInput::ChunkSent(Ok(_))) => self.go(
                Phase::Idle,
                Some(
                    self.event(TaskStatus::Uploading, Known::Session, Some((offset + len) as u64), None, None),
                ),
                ActionModel::ReadControl,
            ),
            (Phase::Aborting { canceled }, StepInput::Aborted) => self.finish(
                if canceled {
                    Some(self.event(TaskStatus::Canceled, Known::Session, Some(0), None, None))
                } else {
                    None
                },
            ),
            _ => self.finish(None),
        }
    }
}

/// An upload task: its identity, what it learned of the file and of the
/// session, and the outcome it is waiting for.
pub struct UploadTask {
    task_id: String,
    category: String,
    chunk_size: u64,
    total: u64,
    upload_id: String,
    phase: Phase,
}

impl View for UploadTask {
    type V = TaskModel;

    closed spec fn view(&self) -> TaskModel {
        TaskModel {
            task_id: self.task_id@,
            category: self.category@,
            chunk_size: self.chunk_size,
            total: self.total,
            upload_id: self.upload_id@,
            phase: self.phase,
        }
    }
}

impl UploadTask {
    /// A task that sends chunks of at most [`CHUNK_SIZE`] bytes.
    pub fn new(task_id: String, category: String) -> (task: UploadTask)
        ensures
            task@ == (TaskModel {
                task_id: task_id@,
                category: category@,
                chunk_size: CHUNK_SIZE,
                total: 0,
                upload_id: Seq::<char>::empty(),
                phase: Phase::Created,
            }),
            task@.wf(),
    {
        UploadTask {
            task_id,
            category,
            chunk_size: CHUNK_SIZE,
            total: 0,
            upload_id: String::new(),
            phase: Phase::Created,
        }
    }

    /// A task that sends chunks of at most `chunk_size` bytes.
    pub fn with_chunk_size(task_id: String, category: String, chunk_size: u64) -> (task:
        UploadTask)
        requires
            chunk_size >= 1,
        ensures
            task@ == (TaskModel {
                task_id: task_id@,
                category: category@,
                chunk_size,
                total: 0,
                upload_id: Seq::<char>::empty(),
                phase: Phase::Created,
            }),
            task@.wf(),
    {
        UploadTask {
            task_id,
            category,
            chunk_size,
            total: 0,
            upload_id: String::new(),
            phase: Phase::Created,
        }
    }

    /// The outcome the task is waiting for.
    pub fn phase(&self) -> (p: Phase)
        ensures
            p == self@.phase,
    {
        self.phase
    }

    /// The id the task was started under.
    pub fn task_id(&self) -> (id: &String)
        ensures
            id@ == self@.task_id,
    {
        &self.task_id
    }

    /// The id of the upload session; empty until the session is open.
    pub fn upload_id(&self) -> (id: &String)
        ensures
            id@ == self@.upload_id,
    {
        &self.upload_id
    }

    /// The size of the source file; 0 until it is known.
    pub fn total_bytes(&self) -> (n: u64)
        ensures
            n == self@.total,
    {
        self.total
    }

    /// Whether the task has ended.
    pub fn is_finished(&self) -> (b: bool)
        ensures
            b == (self@.phase == Phase::Finished),
    {
        match self.phase {
            Phase::Finished => true,
            _ => false,
        }
    }

    fn make_event(
        &self,
        status: TaskStatus,
        known: Known,
        bytes_sent: Option<u64>,
        error: Option<String>,
        attachment: Option<serde_json::Value>,
    ) -> (e: UploadEvent)
        ensures
            e@ == self@.event(status, known, bytes_sent, opt_view(error), attachment),
    {
        UploadEvent {
            task_id: self.task_id.clone(),
            status,
            bytes_sent,
            total_bytes: match known {
                Known::Nothing => None,
                _ => Some(self.total),
            },
            upload_id: match known {
                Known::Session => Some(self.upload_id.clone()),
                _ => None,
            },
            error,
            attachment,
        }
    }

    fn finish(&mut self, event: Option<UploadEvent>) -> (out: StepOutput)
        ensures
            (final(self)@, out@) == old(self)@.finish(
                match event {
                    Some(e) => Some(e@),
                    None => None,
                },
            ),
    {
        self.phase = Phase::Finished;
        StepOutput { event, pause_self: false, action: Action::Finish }
    }

    fn fail_and_pause(&mut self, error: String, bytes_sent: Option<u64>) -> (out: StepOutput)
        ensures
            (final(self)@, out@) == old(self)@.fail_and_pause(error@, bytes_sent),
    {
        let event = self.make_event(TaskStatus::Failed, Known::Session, bytes_sent, Some(error), None);
        self.phase = Phase::Idle;
        StepOutput { event: Some(event), pause_self: true, action: Action::ReadControl }
    }

    fn go(&mut self, phase: Phase, event: Option<UploadEvent>, action: Action) -> (out: StepOutput)
        ensures
            (final(self)@, out@) == old(self)@.go(
                phase,
                match event {
                    Some(e) => Some(e@),
                    None => None,
                },
                action@,
            ),
    {
        self.phase = phase;
        StepOutput { event, pause_self: false, action }
    }

    /// Takes the outcome of the operation asked for last, and answers with
    /// the event to emit and the operation to perform next.
    pub fn step(&mut self, input: StepInput) -> (out: StepOutput)
        requires
            old(self)@.wf(),
        ensures
            (final(self)@, out@) == old(self)@.step(input),
            final(self)@.wf(),
    {
        match self.phase {
            Phase::Created => match input {
                StepInput::Begin => match normalize_attachment_category(self.category.as_str()) {
                    Ok(c) => {
                        self.category = c.to_owned();
                        self.go(Phase::Stat, None, Action::StatFile)
                    },
                    Err(e) => {
                        let event = self.make_event(TaskStatus::Failed, Known::Nothing, None, Some(e), None);
                        self.finish(Some(event))
                    },
                },
                _ => self.finish(None),
            },
            Phase::Stat => match input {
                StepInput::FileInfo(Err(e)) => {
                    let error = concat2("stat file failed: ", e.as_str());
                    let event = self.make_event(TaskStatus::Failed, Known::Nothing, None, Some(error), None);
                    self.finish(Some(event))
                },
                StepInput::FileInfo(Ok(file)) => {
                    self.total = file.size;
                    let action = Action::InitSession {
                        category: self.category.clone(),
                        original_name: file.name,
                        mime_type: file.mime,
                        size: file.size,
                    };
                    self.go(Phase::Init, None, action)
                },
                _ => self.finish(None),
            },
            Phase::Init => match input {
                StepInput::SessionOpened(Err(e)) => {
                    let event = self.make_event(TaskStatus::Failed, Known::Size, None, Some(e), None);
                    self.finish(Some(event))
                },
                StepInput::SessionOpened(Ok(id)) => {
                    self.upload_id = id;
                    self.go(Phase::Open, None, Action::OpenFile)
                },
                _ => self.finish(None),
            },
            Phase::Open => match input {
                StepInput::FileOpened(Err(e)) => {
                    let error = concat2("open file failed: ", e.as_str());
                    let event = self.make_event(TaskStatus::Failed, Known::Session, None, Some(error), None);
                    self.go(Phase::Aborting { canceled: false }, Some(event), Action::Abort)
                },
                StepInput::FileOpened(Ok(_)) => self.go(Phase::Idle, None, Action::ReadControl),
                _ => self.finish(None),
            },
            Phase::Idle => match input {
                StepInput::Control(UploadRunState::Canceled) => self.go(
                    Phase::Aborting { canceled: true },
                    None,
                    Action::Abort,
                ),
                StepInput::Control(UploadRunState::Paused) => {
                    let event = self.make_event(TaskStatus::Paused, Known::Session, None, None, None);
                    self.go(Phase::Waiting, Some(event), Action::AwaitChange)
                },
                StepInput::Control(UploadRunState::Running) => self.go(
                    Phase::Status,
                    None,
                    Action::QueryStatus,
                ),
                _ => self.finish(None),
            },
            Phase::Waiting => match input {
                StepInput::Woken(changed) => {
                    if changed {
                        self.go(Phase::Idle, None, Action::ReadControl)
                    } else {
                        self.finish(None)
                    }
                },
                _ => self.finish(None),
            },
            Phase::Status => match input {
                StepInput::Offset(Err(e)) => self.fail_and_pause(e, None),
                StepInput::Offset(Ok(offset)) => {
                    if offset >= self.total {
                        self.go(Phase::Completing { offset }, None, Action::Complete)
                    } else {
                        let remaining: u64 = self.total - offset;
                        let len: u64 = if remaining < self.chunk_size {
                            remaining
                        } else {
                            self.chunk_size
                        };
                        self.go(
                            Phase::Reading { offset, len },
                            None,
                            Action::ReadChunk { offset, len },
                        )
                    }
                },
                _ => self.finish(None),
            },
            Phase::Completing { offset } => match input {
                StepInput::Completed(Err(e)) => self.fail_and_pause(e, Some(offset)),
                StepInput::Completed(Ok(doc)) => {
                    let attachment = match member(&doc, "data") {
                        Some(data) => Some(data.clone()),
                        None => None,
                    };
                    let event = self.make_event(
                        TaskStatus::Done,
                        Known::Session,
                        Some(self.total),
                        None,
                        attachment,
                    );
                    self.finish(Some(event))
                },
                _ => self.finish(None),
            },
            Phase::Reading { offset, len } => match input {
                StepInput::Chunk(ReadOutcome::SeekFailed(e)) => {
                    let error = concat2("seek failed: ", e.as_str());
                    self.fail_and_pause(error, Some(offset))
                },
                StepInput::Chunk(ReadOutcome::ReadFailed(e)) => {
                    let error = concat2("read failed: ", e.as_str());
                    self.fail_and_pause(error, Some(offset))
                },
                StepInput::Chunk(ReadOutcome::Data(bytes)) => {
                    if bytes.len() == 0 {
                        self.fail_and_pause("unexpected EOF".to_owned(), Some(offset))
                    } else {
                        let mut kept = bytes;
                        if kept.len() as u64 > len {
                            kept.truncate(len as usize);
                        }
                        let sent: u64 = kept.len() as u64;
                        self.go(
                            Phase::Sending { offset, len: sent },
                            None,
                            Action::SendChunk { offset, bytes: kept },
                        )
                    }
                },
                _ => self.finish(None),
            },
            Phase::Sending { offset, len } => match input {
                StepInput::ChunkSent(Err(e)) => self.fail_and_pause(e, Some(offset)),
                StepInput::ChunkSent(Ok(_)) => {
                    let event = self.make_event(
                        TaskStatus::Uploading,
                        Known::Session,
                        Some(offset + len),
                        None,
                        None,
                    );
                    self.go(Phase::Idle, Some(event), Action::ReadControl)
                },
                _ => self.finish(None),
            },
            Phase::Aborting { canceled } => match input {
                StepInput::Aborted => {
                    if canceled {
                        let event = self.make_event(TaskStatus::Canceled, Known::Session, Some(0), None, None);
                        self.finish(Some(event))
                    } else {
                        self.finish(None)
                    }
                },
                _ => self.finish(None),
            },
            Phase::Finished => self.finish(None),
        }
    }
}

} // verus!
