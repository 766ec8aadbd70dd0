use personal_data_hub::secrets::{
    contains_text, is_no_entry_error, load_refresh_token_for_backend,
    password_account_for_backend, refresh_token_account_for_backend,
    store_refresh_token_for_backend, LoadStep, SecretWrite, TokenSource, LEGACY_ACCOUNT, SERVICE,
};

#[test]
fn account_names() {
    assert_eq!(refresh_token_account_for_backend(" https://hub/ "), "refresh-token|https://hub");
    assert_eq!(refresh_token_account_for_backend("http://a:1//"), "refresh-token|http://a:1");
    assert_eq!(refresh_token_account_for_backend(""), "refresh-token|");
    assert_eq!(
        password_account_for_backend("https://hub/", "  alice "),
        "password|https://hub|alice"
    );
    assert_eq!(password_account_for_backend("", ""), "password||");
    assert_eq!(LEGACY_ACCOUNT, "refresh-token");
    assert_eq!(SERVICE, "personal-data-hub");
}

#[test]
fn substring_search() {
    assert!(contains_text("abcabd", "abd"));
    assert!(contains_text("abc", ""));
    assert!(contains_text("", ""));
    assert!(contains_text("abc", "abc"));
    assert!(contains_text("aab", "ab"));
    assert!(!contains_text("abc", "abcd"));
    assert!(!contains_text("", "a"));
    assert!(!contains_text("ababab", "abb"));
}

#[test]
fn messages_that_mean_no_entry() {
    assert!(is_no_entry_error("There is No Entry for this account"));
    assert!(is_no_entry_error("NO ENTRY"));
    assert!(is_no_entry_error("item Not Found"));
    assert!(!is_no_entry_error("access denied"));
    assert!(!is_no_entry_error("noentry"));
    assert!(!is_no_entry_error("No matching entry found in secure storage"));
    assert!(!is_no_entry_error(""));
}

fn expect_delete(w: SecretWrite, expected: &str) {
    match w {
        SecretWrite::Delete { account } => assert_eq!(account, expected),
        SecretWrite::Store { .. } => panic!("expected a deletion"),
    }
}

#[test]
fn storing_a_token_trims_it_and_a_blank_one_deletes_the_entry() {
    match store_refresh_token_for_backend("http://b/", Some("  rt  ".to_string())) {
        SecretWrite::Store { account, secret } => {
            assert_eq!(account, "refresh-token|http://b");
            assert_eq!(secret, "rt");
        }
        SecretWrite::Delete { .. } => panic!("expected a store"),
    }
    expect_delete(
        store_refresh_token_for_backend("http://b", Some("   ".to_string())),
        "refresh-token|http://b",
    );
    expect_delete(store_refresh_token_for_backend("http://b", None), "refresh-token|http://b");
}

fn expect_done(step: LoadStep, expected: Result<Option<&str>, &str>) {
    match step {
        LoadStep::Done(r) => {
            assert_eq!(r, expected.map(|t| t.map(|s| s.to_string())).map_err(|e| e.to_string()))
        }
        _ => panic!("expected the lookup to be over"),
    }
}

#[test]
fn token_of_the_backend_is_used_first() {
    let step =
        load_refresh_token_for_backend("http://b", TokenSource::Backend, Ok(" rt ".to_string()));
    expect_done(step, Ok(Some("rt")));
    let step =
        load_refresh_token_for_backend("http://b", TokenSource::Backend, Ok("  ".to_string()));
    expect_done(step, Ok(None));
}

#[test]
fn missing_entry_of_the_backend_falls_back_to_the_legacy_entry() {
    let step = load_refresh_token_for_backend(
        "http://b",
        TokenSource::Backend,
        Err("No entry".to_string()),
    );
    assert!(matches!(step, LoadStep::ReadLegacy));
    let step = load_refresh_token_for_backend(
        "http://b",
        TokenSource::Backend,
        Err("locked".to_string()),
    );
    expect_done(step, Err("locked"));
}

#[test]
fn legacy_token_is_migrated() {
    match load_refresh_token_for_backend("http://b/", TokenSource::Legacy, Ok(" old ".to_string()))
    {
        LoadStep::Migrate { account, token } => {
            assert_eq!(account, "refresh-token|http://b");
            assert_eq!(token, "old");
        }
        _ => panic!("expected a migration"),
    }
    let step = load_refresh_token_for_backend("http://b", TokenSource::Legacy, Ok("".to_string()));
    expect_done(step, Ok(None));
    let step = load_refresh_token_for_backend(
        "http://b",
        TokenSource::Legacy,
        Err("not found".to_string()),
    );
    expect_done(step, Ok(None));
    let step = load_refresh_token_for_backend(
        "http://b",
        TokenSource::Legacy,
        Err("dbus down".to_string()),
    );
    expect_done(step, Err("dbus down"));
}
