use personal_data_hub::protocol::{
    bearer_token, chunk_url, complete_url, failure_message, init_url, is_success, number_at,
    session_url, text_at, upload_abort, upload_chunk, upload_complete, upload_id_from,
    upload_init_session, upload_status, HttpReply,
};

fn reply(status: u16, body: &str) -> Result<HttpReply, String> {
    Ok(HttpReply { status, body: body.to_string() })
}

fn parse(text: &str) -> serde_json::Value {
    serde_json::from_str(text).unwrap()
}

#[test]
fn addresses_of_the_five_operations() {
    assert_eq!(init_url(" http://b:1/ "), "http://b:1/api/attachments/uploads/init");
    assert_eq!(session_url("http://b//", " u-1 "), "http://b/api/attachments/uploads/u-1");
    assert_eq!(
        chunk_url("http://b", "u-1", 1_048_576),
        "http://b/api/attachments/uploads/u-1/chunk?offset=1048576"
    );
    assert_eq!(chunk_url("http://b", "u", 0), "http://b/api/attachments/uploads/u/chunk?offset=0");
    assert_eq!(
        chunk_url("http://b", "u", u64::MAX),
        "http://b/api/attachments/uploads/u/chunk?offset=18446744073709551615"
    );
    assert_eq!(complete_url("http://b/", "u-1"), "http://b/api/attachments/uploads/u-1/complete");
}

#[test]
fn bearer_token_is_used_only_when_not_blank() {
    assert_eq!(bearer_token(" tok "), Some("tok".to_string()));
    assert_eq!(bearer_token(""), None);
    assert_eq!(bearer_token("  \t"), None);
}

#[test]
fn success_is_two_hundred_to_two_ninety_nine() {
    assert!(!is_success(199));
    assert!(is_success(200));
    assert!(is_success(204));
    assert!(is_success(299));
    assert!(!is_success(300));
    assert!(!is_success(404));
    assert!(!is_success(0));
}

#[test]
fn failure_carries_status_and_body() {
    assert_eq!(failure_message("init", 500, "boom"), "init failed (500): boom");
    assert_eq!(failure_message("chunk", 409, ""), "chunk failed (409): ");
}

#[test]
fn init_reads_the_upload_id() {
    let r = upload_init_session(reply(200, r#"{"data":{"uploadId":"  abc-123 "}}"#));
    assert_eq!(r, Ok("abc-123".to_string()));
    let r = upload_init_session(reply(201, r#"{"success":true,"data":{"uploadId":"u","x":1}}"#));
    assert_eq!(r, Ok("u".to_string()));
}

#[test]
fn init_without_an_id_fails() {
    for body in [
        r#"{}"#,
        r#"{"data":{}}"#,
        r#"{"data":{"uploadId":""}}"#,
        r#"{"data":{"uploadId":"   "}}"#,
        r#"{"data":{"uploadId":17}}"#,
        r#"{"data":"uploadId"}"#,
        r#"[1,2]"#,
        r#"null"#,
    ] {
        let r = upload_init_session(reply(200, body));
        assert_eq!(r, Err("init response missing uploadId".to_string()), "{body}");
    }
}

#[test]
fn init_reports_status_body_and_transport_failures() {
    let r = upload_init_session(reply(401, r#"{"message":"no"}"#));
    assert_eq!(r, Err(r#"init failed (401): {"message":"no"}"#.to_string()));
    let r = upload_init_session(Err("connection refused".to_string()));
    assert_eq!(r, Err("connection refused".to_string()));
    let expected = serde_json::from_str::<serde_json::Value>("{oops").unwrap_err().to_string();
    assert!(!expected.is_empty());
    assert_eq!(upload_init_session(reply(200, "{oops")), Err(expected));
}

#[test]
fn status_reads_the_bytes_received() {
    assert_eq!(upload_status(reply(200, r#"{"data":{"bytesReceived":2097152}}"#)), Ok(2_097_152));
    assert_eq!(upload_status(reply(200, r#"{"data":{"bytesReceived":0}}"#)), Ok(0));
    assert_eq!(
        upload_status(reply(200, r#"{"data":{"bytesReceived":18446744073709551615}}"#)),
        Ok(u64::MAX)
    );
}

#[test]
fn status_defaults_to_zero() {
    for body in [
        r#"{}"#,
        r#"{"data":{}}"#,
        r#"{"data":{"bytesReceived":"12"}}"#,
        r#"{"data":{"bytesReceived":-1}}"#,
        r#"{"data":{"bytesReceived":1.5}}"#,
        r#"{"data":null}"#,
    ] {
        assert_eq!(upload_status(reply(200, body)), Ok(0), "{body}");
    }
}

#[test]
fn status_reports_failures() {
    assert_eq!(
        upload_status(reply(404, "gone")),
        Err("status failed (404): gone".to_string())
    );
    assert_eq!(upload_status(Err("timeout".to_string())), Err("timeout".to_string()));
    let expected = serde_json::from_str::<serde_json::Value>("").unwrap_err().to_string();
    assert_eq!(upload_status(reply(200, "")), Err(expected));
}

#[test]
fn chunk_reply_is_judged_by_its_status() {
    assert_eq!(upload_chunk(reply(200, "whatever")), Ok(()));
    assert_eq!(upload_chunk(reply(204, "")), Ok(()));
    assert_eq!(upload_chunk(reply(413, "too big")), Err("chunk failed (413): too big".to_string()));
    assert_eq!(upload_chunk(Err("reset".to_string())), Err("reset".to_string()));
}

#[test]
fn complete_hands_out_the_document() {
    let doc = upload_complete(reply(200, r#"{"data":{"id":"att-1","size":3}}"#)).unwrap();
    assert_eq!(doc, parse(r#"{"data":{"id":"att-1","size":3}}"#));
    assert_eq!(
        upload_complete(reply(500, "x")),
        Err("complete failed (500): x".to_string())
    );
    assert_eq!(upload_complete(Err("down".to_string())), Err("down".to_string()));
    let expected = serde_json::from_str::<serde_json::Value>("nope").unwrap_err().to_string();
    assert_eq!(upload_complete(reply(200, "nope")), Err(expected));
}

#[test]
fn abort_never_fails() {
    assert_eq!(upload_abort(reply(200, "")), Ok(()));
    assert_eq!(upload_abort(reply(204, "")), Ok(()));
    assert_eq!(upload_abort(reply(500, "no")), Ok(()));
    assert_eq!(upload_abort(reply(404, "")), Ok(()));
    assert_eq!(upload_abort(Err("offline".to_string())), Ok(()));
}

#[test]
fn nested_members_of_a_document() {
    let doc = parse(r#"{"data":{"token":"t","n":5,"deep":{"x":"y"}},"message":"hi"}"#);
    assert_eq!(text_at(&doc, "data", "token"), "t");
    assert_eq!(text_at(&doc, "data", "n"), "");
    assert_eq!(text_at(&doc, "data", "missing"), "");
    assert_eq!(text_at(&doc, "message", "x"), "");
    assert_eq!(text_at(&doc, "nothing", "x"), "");
    assert_eq!(number_at(&doc, "data", "n"), 5);
    assert_eq!(number_at(&doc, "data", "token"), 0);
    assert_eq!(number_at(&doc, "data", "deep"), 0);
}

#[test]
fn upload_id_from_a_text() {
    assert_eq!(upload_id_from(" u1 "), Ok("u1".to_string()));
    assert_eq!(upload_id_from(""), Err("init response missing uploadId".to_string()));
    assert_eq!(upload_id_from(" \n"), Err("init response missing uploadId".to_string()));
}
