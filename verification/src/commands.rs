//! The commands that start uploads: what is checked before anything is
//! sent, and what the task or the request is made of.

use crate::gateway::{ConfigModel, GatewayConfig};
use crate::json::{error_message, json_error_text, json_parsed, parse_json};
use crate::protocol::{error_view, failure_message, failure_text, is_success, success, HttpReply};
use crate::registry::TaskRegistry;
use crate::text::{concat3, trim, trimmed};
use crate::upload::{
    category_known, normalize_attachment_category, Phase, TaskModel, UploadRunState, UploadTask,
    CHUNK_SIZE,
};
use vstd::prelude::*;

verus! {

/// Why a command was refused before it did anything.
#[derive(Clone, Copy, Debug, PartialEq, Eq, Structural)]
pub enum CommandError {
    /// The task id is blank.
    EmptyTaskId,
    /// No backend address is configured.
    BackendNotSet,
    /// The path of the file is blank.
    EmptyPath,
    /// A task with this id is registered already.
    AlreadyExists,
    /// The category is none of the known ones.
    InvalidCategory,
}

impl CommandError {
    /// The message shown to the caller.
    pub open spec fn text(self) -> Seq<char> {
        match self {
            CommandError::EmptyTaskId => "taskId is empty"@,
            CommandError::BackendNotSet => "backend url not set"@,
            CommandError::EmptyPath => "path is empty"@,
            CommandError::AlreadyExists => "task already exists"@,
            CommandError::InvalidCategory => "invalid attachment category"@,
        }
    }

    /// The message shown to the caller.
    pub fn message(&self) -> (m: String)
        ensures
            m@ == self.text(),
    {
        match self {
            CommandError::EmptyTaskId => "taskId is empty".to_owned(),
            CommandError::BackendNotSet => "backend url not set".to_owned(),
            CommandError::EmptyPath => "path is empty".to_owned(),
            CommandError::AlreadyExists => "task already exists".to_owned(),
            CommandError::InvalidCategory => "invalid attachment category".to_owned(),
        }
    }
}

/// A task that was registered, and what it needs to run.
pub struct TaskStart {
    pub task: UploadTask,
    pub backend: String,
    pub token: String,
    pub path: String,
}

/// The token of a configuration, or the empty text.
pub open spec fn token_text(config: ConfigModel) -> Seq<char> {
    match config.bearer_token {
        Some(t) => t,
        None => Seq::empty(),
    }
}

/// Why the start of a task is refused, if it is: the first of a blank id,
/// a missing backend, a blank path and an id that is registered already.
pub open spec fn start_refusal(
    config: ConfigModel,
    tasks: Map<Seq<char>, UploadRunState>,
    task_id: Seq<char>,
    path: Seq<char>,
) -> Option<CommandError> {
    if trimmed(task_id).len() == 0 {
        Some(CommandError::EmptyTaskId)
    } else if config.backend_base_url is None {
        Some(CommandError::BackendNotSet)
    } else if trimmed(path).len() == 0 {
        Some(CommandError::EmptyPath)
    } else if tasks.dom().contains(trimmed(task_id)) {
        Some(CommandError::AlreadyExists)
    } else {
        None
    }
}

/// Starts an upload task: registers it under the trimmed id, its control
/// cell at `Running`, and hands out the new task with the backend, the
/// token and the path it works with. A start that is refused changes nothing.
pub fn start_upload_task(
    config: &GatewayConfig,
    registry: &mut TaskRegistry,
    task_id: &str,
    path: &str,
    category: &str,
) -> (r: Result<TaskStart, CommandError>)
    requires
        old(registry).wf(),
    ensures
        final(registry).wf(),
        match r {
            Ok(start) => {
                &&& start_refusal(config@, old(registry)@, task_id@, path@) is None
                &&& final(registry)@ == old(registry)@.insert(
                    trimmed(task_id@),
                    UploadRunState::Running,
                )
                &&& start.task@ == (TaskModel {
                    task_id: trimmed(task_id@),
                    category: category@,
                    chunk_size: CHUNK_SIZE,
                    total: 0,
                    upload_id: Seq::<char>::empty(),
                    phase: Phase::Created,
                })
                &&& start.task@.wf()
                &&& Some(start.backend@) == config@.backend_base_url
                &&& start.token@ == token_text(config@)
                &&& start.path@ == trimmed(path@)
            },
            Err(e) => {
                &&& start_refusal(config@, old(registry)@, task_id@, path@) == Some(e)
                &&& final(registry)@ == old(registry)@
            },
        },
{
    let id = trim(task_id);
    if id.as_str().is_empty() {
        return Err(CommandError::EmptyTaskId);
    }
    let backend = match config.backend_base_url_from_state() {
        Ok(url) => url,
        Err(_) => {
            return Err(CommandError::BackendNotSet);
        },
    };
    let token = config.token_or_empty();
    let file_path = trim(path);
    if file_path.as_str().is_empty() {
        return Err(CommandError::EmptyPath);
    }
    proof {
        crate::text::lemma_trim_twice(task_id@);
    }
    match registry.register(id.as_str()) {
        Ok(registered) => Ok(
            TaskStart {
                task: UploadTask::new(registered, category.to_owned()),
                backend,
                token,
                path: file_path,
            },
        ),
        Err(_) => Err(CommandError::AlreadyExists),
    }
}

/// A file to send to the backend in one request.
pub struct DirectUpload {
    pub url: String,
    pub path: String,
    pub token: String,
}

/// The address that takes a whole file of a category.
pub open spec fn direct_upload_address(backend: Seq<char>, category: Seq<char>) -> Seq<char> {
    backend + "/api/attachments/"@ + category
}

/// Why an upload in one request is refused, if it is: the first of a
/// missing backend, an unknown category and a blank path.
pub open spec fn direct_refusal(config: ConfigModel, path: Seq<char>, category: Seq<char>) -> Option<
    CommandError,
> {
    if config.backend_base_url is None {
        Some(CommandError::BackendNotSet)
    } else if !category_known(trimmed(category)) {
        Some(CommandError::InvalidCategory)
    } else if trimmed(path).len() == 0 {
        Some(CommandError::EmptyPath)
    } else {
        None
    }
}

/// Prepares the upload of a file in one request: where it goes, which file
/// it is and which token goes with it.
pub fn pdh_upload_attachment_from_path(config: &GatewayConfig, path: &str, category: &str) -> (r:
    Result<DirectUpload, CommandError>)
    ensures
        match r {
            Ok(upload) => {
                &&& direct_refusal(config@, path@, category@) is None
                &&& upload.url@ == direct_upload_address(
                    config@.backend_base_url->0,
                    trimmed(category@),
                )
                &&& upload.path@ == trimmed(path@)
                &&& upload.token@ == token_text(config@)
            },
            Err(e) => direct_refusal(config@, path@, category@) == Some(e),
        },
{
    let backend = match config.backend_base_url_from_state() {
        Ok(url) => url,
        Err(_) => {
            return Err(CommandError::BackendNotSet);
        },
    };
    let known = match normalize_attachment_category(category) {
        Ok(c) => c,
        Err(_) => {
            return Err(CommandError::InvalidCategory);
        },
    };
    let file_path = trim(path);
    if file_path.as_str().is_empty() {
        return Err(CommandError::EmptyPath);
    }
    let url = concat3(backend.as_str(), "/api/attachments/", known);
    Ok(DirectUpload { url, path: file_path, token: config.token_or_empty() })
}

/// What the reply to an upload in one request means: the document it
/// holds, or the failure.
pub open spec fn direct_upload_outcome(reply: Result<HttpReply, String>) -> Result<
    serde_json::Value,
    Seq<char>,
> {
    match reply {
        Err(e) => Err(e@),
        Ok(reply) => if !success(reply.status) {
            Err(failure_text("upload"@, reply.status, reply.body@))
        } else {
            match json_parsed(reply.body@) {
                Err(e) => Err(json_error_text(e)),
                Ok(doc) => Ok(doc),
            }
        },
    }
}

/// Reads the reply to an upload in one request.
pub fn direct_upload_reply(reply: Result<HttpReply, String>) -> (r: Result<
    serde_json::Value,
    String,
>)
    ensures
        error_view(r) == direct_upload_outcome(reply),
{
    match reply {
        Err(e) => Err(e),
        Ok(reply) => {
            if !is_success(reply.status) {
                return Err(failure_message("upload", reply.status, reply.body.as_str()));
            }
            match parse_json(reply.body.as_str()) {
                Err(e) => Err(error_message(&e)),
                Ok(doc) => Ok(doc),
            }
        },
    }
}

} // verus!
