//! The chunked transfer protocol: where each request goes, and what the
//! backend's reply means.

use crate::json::{
    error_message, json_error_text, json_member, json_number, json_parsed, json_text, member,
    parse_json,
};
use crate::text::{
    concat2, concat3, decimal, decimal_text, strip_end, trim, trim_end_of, trimmed, Strip,
};
use vstd::prelude::*;

verus! {

/// The status and the body of a reply of the backend.
pub struct HttpReply {
    pub status: u16,
    pub body: String,
}

/// The address of the backend without blanks around it and slashes after it.
pub open spec fn backend_root(backend: Seq<char>) -> Seq<char> {
    strip_end(trimmed(backend), Strip::Char('/'))
}

/// The address at which a session is opened.
pub open spec fn init_address(backend: Seq<char>) -> Seq<char> {
    backend_root(backend) + "/api/attachments/uploads/init"@
}

/// The address of the session `upload_id`: asked for its status, deleted to abort it.
pub open spec fn session_address(backend: Seq<char>, upload_id: Seq<char>) -> Seq<char> {
    backend_root(backend) + "/api/attachments/uploads/"@ + trimmed(upload_id)
}

/// The address that takes a chunk of the session `upload_id` at `offset`.
pub open spec fn chunk_address(backend: Seq<char>, upload_id: Seq<char>, offset: u64) -> Seq<char> {
    session_address(backend, upload_id) + "/chunk?offset="@ + decimal(offset as nat)
}

/// The address at which the session `upload_id` is completed.
pub open spec fn complete_address(backend: Seq<char>, upload_id: Seq<char>) -> Seq<char> {
    session_address(backend, upload_id) + "/complete"@
}

/// Whether `status` reports success: 200 to 299.
pub open spec fn success(status: u16) -> bool {
    200 <= status <= 299
}

/// The failure that a reply without success stands for: the operation, the
/// status and the body as it came.
pub open spec fn failure_text(operation: Seq<char>, status: u16, body: Seq<char>) -> Seq<char> {
    operation + " failed ("@ + decimal(status as nat) + "): "@ + body
}

/// The token to authenticate with, if there is one.
pub open spec fn bearer_of(token: Seq<char>) -> Option<Seq<char>> {
    if trimmed(token).len() == 0 {
        None
    } else {
        Some(trimmed(token))
    }
}

/// The text under `outer`.`inner` of a document, or the empty text.
pub open spec fn nested_text(doc: serde_json::Value, outer: Seq<char>, inner: Seq<char>) -> Seq<
    char,
> {
    match json_member(doc, outer) {
        Some(part) => match json_member(part, inner) {
            Some(leaf) => match json_text(leaf) {
                Some(text) => text,
                None => Seq::empty(),
            },
            None => Seq::empty(),
        },
        None => Seq::empty(),
    }
}

/// The number under `outer`.`inner` of a document, or 0.
pub open spec fn nested_number(doc: serde_json::Value, outer: Seq<char>, inner: Seq<char>) -> u64 {
    match json_member(doc, outer) {
        Some(part) => match json_member(part, inner) {
            Some(leaf) => match json_number(leaf) {
                Some(n) => n,
                None => 0,
            },
            None => 0,
        },
        None => 0,
    }
}

/// The upload id that a text stands for: trimmed, and an error where nothing is left.
pub open spec fn upload_id_of(text: Seq<char>) -> Result<Seq<char>, Seq<char>> {
    if trimmed(text).len() == 0 {
        Err("init response missing uploadId"@)
    } else {
        Ok(trimmed(text))
    }
}

/// What the reply to `init` means: the id of the new session, or the failure.
pub open spec fn init_outcome(reply: Result<HttpReply, String>) -> Result<Seq<char>, Seq<char>> {
    match reply {
        Err(e) => Err(e@),
        Ok(reply) => if !success(reply.status) {
            Err(failure_text("init"@, reply.status, reply.body@))
        } else {
            match json_parsed(reply.body@) {
                Err(e) => Err(json_error_text(e)),
                Ok(doc) => upload_id_of(nested_text(doc, "data"@, "uploadId"@)),
            }
        },
    }
}

/// What the reply to `status` means: the number of bytes the backend
/// holds, 0 where it names none, or the failure.
pub open spec fn status_outcome(reply: Result<HttpReply, String>) -> Result<u64, Seq<char>> {
    match reply {
        Err(e) => Err(e@),
        Ok(reply) => if !success(reply.status) {
            Err(failure_text("status"@, reply.status, reply.body@))
        } else {
            match json_parsed(reply.body@) {
                Err(e) => Err(json_error_text(e)),
                Ok(doc) => Ok(nested_number(doc, "data"@, "bytesReceived"@)),
            }
        },
    }
}

/// What the reply to a chunk means: nothing, or the failure.
pub open spec fn chunk_outcome(reply: Result<HttpReply, String>) -> Result<(), Seq<char>> {
    match reply {
        Err(e) => Err(e@),
        Ok(reply) => if !success(reply.status) {
            Err(failure_text("chunk"@, reply.status, reply.body@))
        } else {
            Ok(())
        },
    }
}

/// What the reply to `complete` means: the document it holds, or the failure.
pub open spec fn complete_outcome(reply: Result<HttpReply, String>) -> Result<
    serde_json::Value,
    Seq<char>,
> {
    match reply {
        Err(e) => Err(e@),
        Ok(reply) => if !success(reply.status) {
            Err(failure_text("complete"@, reply.status, reply.body@))
        } else {
            match json_parsed(reply.body@) {
                Err(e) => Err(json_error_text(e)),
                Ok(doc) => Ok(doc),
            }
        },
    }
}

/// The view of an outcome that holds a text.
pub open spec fn text_outcome(r: Result<String, String>) -> Result<Seq<char>, Seq<char>> {
    match r {
        Ok(v) => Ok(v@),
        Err(e) => Err(e@),
    }
}

/// The view of an outcome that may hold an error text.
pub open spec fn error_view<T>(r: Result<T, String>) -> Result<T, Seq<char>> {
    match r {
        Ok(v) => Ok(v),
        Err(e) => Err(e@),
    }
}

fn root_of(backend: &str) -> (root: String)
    ensures
        root@ == backend_root(backend@),
{
    let t = trim(backend);
    trim_end_of(t.as_str(), Strip::Char('/'))
}

/// The address at which a session is opened.
pub fn init_url(backend: &str) -> (url: String)
    ensures
        url@ == init_address(backend@),
{
    let root = root_of(backend);
    concat2(root.as_str(), "/api/attachments/uploads/init")
}

/// The address of the session `upload_id`.
pub fn session_url(backend: &str, upload_id: &str) -> (url: String)
    ensures
        url@ == session_address(backend@, upload_id@),
{
    let root = root_of(backend);
    let id = trim(upload_id);
    concat3(root.as_str(), "/api/attachments/uploads/", id.as_str())
}

/// The address that takes a chunk of the session `upload_id` at `offset`.
pub fn chunk_url(backend: &str, upload_id: &str, offset: u64) -> (url: String)
    ensures
        url@ == chunk_address(backend@, upload_id@, offset),
{
    let session = session_url(backend, upload_id);
    let digits = decimal_text(offset as u128);
    concat3(session.as_str(), "/chunk?offset=", digits.as_str())
}

/// The address at which the session `upload_id` is completed.
pub fn complete_url(backend: &str, upload_id: &str) -> (url: String)
    ensures
        url@ == complete_address(backend@, upload_id@),
{
    let session = session_url(backend, upload_id);
    concat2(session.as_str(), "/complete")
}

/// The token to authenticate with: the trimmed token, none where it is blank.
pub fn bearer_token(token: &str) -> (r: Option<String>)
    ensures
        crate::text::opt_view(r) == bearer_of(token@),
{
    let t = trim(token);
    if t.as_str().is_empty() {
        None
    } else {
        Some(t)
    }
}

/// Whether `status` reports success.
pub fn is_success(status: u16) -> (r: bool)
    ensures
        r == success(status),
{
    200 <= status && status <= 299
}

/// The failure that a reply without success stands for.
pub fn failure_message(operation: &str, status: u16, body: &str) -> (m: String)
    ensures
        m@ == failure_text(operation@, status, body@),
{
    let digits = decimal_text(status as u128);
    let head = concat3(operation, " failed (", digits.as_str());
    concat3(head.as_str(), "): ", body)
}

/// The upload id that the text of a reply stands for.
pub fn upload_id_from(text: &str) -> (r: Result<String, String>)
    ensures
        text_outcome(r) == upload_id_of(text@),
{
    let id = trim(text);
    if id.as_str().is_empty() {
        Err("init response missing uploadId".to_owned())
    } else {
        Ok(id)
    }
}

/// The text under `outer`.`inner` of a document, or the empty text.
pub fn text_at(doc: &serde_json::Value, outer: &str, inner: &str) -> (r: String)
    ensures
        r@ == nested_text(*doc, outer@, inner@),
{
    match member(doc, outer) {
        Some(part) => match member(part, inner) {
            Some(leaf) => match leaf.as_str() {
                Some(text) => text.to_owned(),
                None => String::new(),
            },
            None => String::new(),
        },
        None => String::new(),
    }
}

/// The number under `outer`.`inner` of a document, or 0.
pub fn number_at(doc: &serde_json::Value, outer: &str, inner: &str) -> (r: u64)
    ensures
        r == nested_number(*doc, outer@, inner@),
{
    match member(doc, outer) {
        Some(part) => match member(part, inner) {
            Some(leaf) => match leaf.as_u64() {
                Some(n) => n,
                None => 0,
            },
            None => 0,
        },
        None => 0,
    }
}

/// Reads the reply to `init`: the id of the new session. A reply without
/// success, a body that is no JSON and a missing or blank id are failures.
pub fn upload_init_session(reply: Result<HttpReply, String>) -> (r: Result<String, String>)
    ensures
        text_outcome(r) == init_outcome(reply),
{
    match reply {
        Err(e) => Err(e),
        Ok(reply) => {
            if !is_success(reply.status) {
                return Err(failure_message("init", reply.status, reply.body.as_str()));
            }
            match parse_json(reply.body.as_str()) {
                Err(e) => Err(error_message(&e)),
                Ok(doc) => {
                    let text = text_at(&doc, "data", "uploadId");
                    upload_id_from(text.as_str())
                },
            }
        },
    }
}

/// Reads the reply to `status`: the number of bytes the backend holds.
pub fn upload_status(reply: Result<HttpReply, String>) -> (r: Result<u64, String>)
    ensures
        error_view(r) == status_outcome(reply),
{
    match reply {
        Err(e) => Err(e),
        Ok(reply) => {
            if !is_success(reply.status) {
                return Err(failure_message("status", reply.status, reply.body.as_str()));
            }
            match parse_json(reply.body.as_str()) {
                Err(e) => Err(error_message(&e)),
                Ok(doc) => Ok(number_at(&doc, "data", "bytesReceived")),
            }
        },
    }
}

/// Reads the reply to a chunk.
pub fn upload_chunk(reply: Result<HttpReply, String>) -> (r: Result<(), String>)
    ensures
        error_view(r) == chunk_outcome(reply),
{
    match reply {
        Err(e) => Err(e),
        Ok(reply) => {
            if !is_success(reply.status) {
                return Err(failure_message("chunk", reply.status, reply.body.as_str()));
            }
            Ok(())
        },
    }
}

/// Reads the reply to `complete`: the document that describes the attachment.
pub fn upload_complete(reply: Result<HttpReply, String>) -> (r: Result<serde_json::Value, String>)
    ensures
        error_view(r) == complete_outcome(reply),
{
    match reply {
        Err(e) => Err(e),
        Ok(reply) => {
            if !is_success(reply.status) {
                return Err(failure_message("complete", reply.status, reply.body.as_str()));
            }
            match parse_json(reply.body.as_str()) {
                Err(e) => Err(error_message(&e)),
                Ok(doc) => Ok(doc),
            }
        },
    }
}

/// Reads the outcome of an abort, which is made on best effort: whatever
/// the backend answered, and whether or not the request could be sent, the
/// abort counts as done.
pub fn upload_abort(reply: Result<HttpReply, String>) -> (r: Result<(), String>)
    ensures
        r == Ok::<(), String>(()),
{
    Ok(())
}

} // verus!
