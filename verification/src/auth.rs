//! What the backend's replies to a login and to a token refresh mean.

use crate::text::opt_view;
use crate::json::{json_flag, json_member, json_text, member};
use crate::protocol::{is_success, nested_text, success, text_at};
use crate::text::{trim, trimmed};
use vstd::prelude::*;

verus! {

/// The text under `key` of a document, if it holds one there.
pub open spec fn member_text(doc: serde_json::Value, key: Seq<char>) -> Option<Seq<char>> {
    match json_member(doc, key) {
        Some(m) => json_text(m),
        None => None,
    }
}

/// The member under `outer`.`inner` of a document, if it has one.
pub open spec fn nested_member(doc: serde_json::Value, outer: Seq<char>, inner: Seq<char>) -> Option<
    serde_json::Value,
> {
    match json_member(doc, outer) {
        Some(part) => json_member(part, inner),
        None => None,
    }
}

/// The text under `outer`.`inner` of a document, if it holds one there.
pub open spec fn nested_text_member(
    doc: serde_json::Value,
    outer: Seq<char>,
    inner: Seq<char>,
) -> Option<Seq<char>> {
    match nested_member(doc, outer, inner) {
        Some(leaf) => json_text(leaf),
        None => None,
    }
}

/// Whether a reply calls itself a success: what it says under `success`,
/// and yes where it says nothing.
pub open spec fn claims_success(doc: serde_json::Value) -> bool {
    match json_member(doc, "success"@) {
        Some(m) => match json_flag(m) {
            Some(b) => b,
            None => true,
        },
        None => true,
    }
}

/// The message of a reply, or `fallback` where it has none.
pub open spec fn message_or(doc: serde_json::Value, fallback: Seq<char>) -> Seq<char> {
    match member_text(doc, "message"@) {
        Some(m) => m,
        None => fallback,
    }
}

/// What a successful login or refresh brought.
pub struct AuthOutcome {
    pub success: bool,
    /// The access token, trimmed; empty where the reply holds none.
    pub token: String,
    /// The refresh token as it came, if the reply holds one.
    pub refresh_token: Option<String>,
    /// What the reply says of the user, if anything.
    pub user: Option<serde_json::Value>,
    /// What the reply says of the token's lifetime, if anything.
    pub expires_in: Option<serde_json::Value>,
    pub message: String,
}

/// A refresh that the backend refused.
pub struct RefreshRefusal {
    pub message: String,
    /// Whether the stored refresh token is to be deleted: the backend
    /// answered 401 or 403.
    pub forget_token: bool,
}

/// Whether `out` is what the successful reply `body` brings, `fallback`
/// being the message of a reply without one.
pub open spec fn outcome_of(body: serde_json::Value, fallback: Seq<char>, out: AuthOutcome) -> bool {
    &&& out.success == claims_success(body)
    &&& out.token@ == trimmed(nested_text(body, "data"@, "token"@))
    &&& opt_view(out.refresh_token) == nested_text_member(body, "data"@, "refreshToken"@)
    &&& out.user == nested_member(body, "data"@, "user"@)
    &&& out.expires_in == nested_member(body, "data"@, "expiresIn"@)
    &&& out.message@ == message_or(body, fallback)
}

fn text_of_member(doc: &serde_json::Value, key: &str) -> (r: Option<String>)
    ensures
        opt_view(r) == member_text(*doc, key@),
{
    match member(doc, key) {
        Some(m) => match m.as_str() {
            Some(t) => Some(t.to_owned()),
            None => None,
        },
        None => None,
    }
}

fn member_at(doc: &serde_json::Value, outer: &str, inner: &str) -> (r: Option<serde_json::Value>)
    ensures
        r == nested_member(*doc, outer@, inner@),
{
    match member(doc, outer) {
        Some(part) => match member(part, inner) {
            Some(leaf) => Some(leaf.clone()),
            None => None,
        },
        None => None,
    }
}

fn message_of(doc: &serde_json::Value, fallback: &str) -> (r: String)
    ensures
        r@ == message_or(*doc, fallback@),
{
    match text_of_member(doc, "message") {
        Some(m) => m,
        None => fallback.to_owned(),
    }
}

fn read_outcome(body: &serde_json::Value, fallback: &str) -> (out: AuthOutcome)
    ensures
        outcome_of(*body, fallback@, out),
{
    let claimed = match member(body, "success") {
        Some(m) => match m.as_bool() {
            Some(b) => b,
            None => true,
        },
        None => true,
    };
    let token_text = text_at(body, "data", "token");
    let refresh_token = match member_at(body, "data", "refreshToken") {
        Some(leaf) => match leaf.as_str() {
            Some(t) => Some(t.to_owned()),
            None => None,
        },
        None => None,
    };
    AuthOutcome {
        success: claimed,
        token: trim(token_text.as_str()),
        refresh_token,
        user: member_at(body, "data", "user"),
        expires_in: member_at(body, "data", "expiresIn"),
        message: message_of(body, fallback),
    }
}

/// Reads the reply to a login. A reply without success is a failure with
/// the message it holds, or `login failed`.
pub fn pdh_auth_login(status: u16, body: &serde_json::Value) -> (r: Result<AuthOutcome, String>)
    ensures
        match r {
            Ok(out) => success(status) && outcome_of(*body, "登录成功"@, out),
            Err(message) => !success(status) && message@ == message_or(*body, "login failed"@),
        },
{
    if !is_success(status) {
        return Err(message_of(body, "login failed"));
    }
    Ok(read_outcome(body, "登录成功"))
}

/// Reads the reply to a token refresh. A reply without success is a
/// refusal with the message it holds, or `refresh failed`; after a 401 or
/// a 403 the stored refresh token is to be deleted.
pub fn pdh_auth_refresh(status: u16, body: &serde_json::Value) -> (r: Result<
    AuthOutcome,
    RefreshRefusal,
>)
    ensures
        match r {
            Ok(out) => success(status) && outcome_of(*body, "刷新成功"@, out),
            Err(refusal) => {
                &&& !success(status)
                &&& refusal.message@ == message_or(*body, "refresh failed"@)
                &&& refusal.forget_token == (status == 401 || status == 403)
            },
        },
{
    if !is_success(status) {
        return Err(
            RefreshRefusal {
                message: message_of(body, "refresh failed"),
                forget_token: status == 401 || status == 403,
            },
        );
    }
    Ok(read_outcome(body, "刷新成功"))
}

} // verus!
