//! Which entries of the secret store hold a backend's credentials, and what
//! the outcome of each access to the store means.

use crate::text::{
    chars_of, concat2, concat3, lower_ascii, strip_end, to_lower_ascii, trim, trim_end_of, trimmed,
    Strip,
};
use vstd::prelude::*;

verus! {

/// The account that held the one refresh token before tokens were kept per backend.
pub const LEGACY_ACCOUNT: &'static str = "refresh-token";

/// The service under which every entry is kept.
pub const SERVICE: &'static str = "personal-data-hub";

/// The address of a backend as it is written into account names.
pub open spec fn backend_key(backend_base_url: Seq<char>) -> Seq<char> {
    strip_end(trimmed(backend_base_url), Strip::Char('/'))
}

/// Whether `needle` occurs in `hay`.
pub open spec fn occurs_in(hay: Seq<char>, needle: Seq<char>) -> bool {
    exists|i: int|
        0 <= i && i + needle.len() <= hay.len() && #[trigger] hay.subrange(i, i + needle.len())
            == needle
}

/// Whether the message of a failed read says that the entry does not exist.
pub open spec fn no_entry(message: Seq<char>) -> bool {
    occurs_in(lower_ascii(message), "no entry"@) || occurs_in(lower_ascii(message), "not found"@)
}

/// Whether `needle` occurs in `hay`.
pub fn contains_text(hay: &str, needle: &str) -> (r: bool)
    ensures
        r == occurs_in(hay@, needle@),
{
    let h = chars_of(hay);
    let n = chars_of(needle);
    if n.len() > h.len() {
        assert(!occurs_in(hay@, needle@));
        return false;
    }
    let last: usize = h.len() - n.len();
    let mut i: usize = 0;
    while i <= last
        invariant
            h@ == hay@,
            n@ == needle@,
            n.len() <= h.len(),
            last == h.len() - n.len(),
            i <= last + 1,
            forall|k: int| 0 <= k < i ==> #[trigger] h@.subrange(k, k + n.len()) != n@,
        decreases last + 1 - i,
    {
        let mut j: usize = 0;
        while j < n.len() && h[i + j] == n[j]
            invariant
                i <= last,
                last == h.len() - n.len(),
                j <= n.len(),
                forall|k: int| 0 <= k < j ==> h@[i + k] == n@[k],
            decreases n.len() - j,
        {
            j += 1;
        }
        if j == n.len() {
            assert(h@.subrange(i as int, i + n.len()) =~= n@);
            return true;
        }
        assert(h@.subrange(i as int, i + n.len())[j as int] != n@[j as int]);
        i += 1;
    }
    assert forall|k: int| 0 <= k && k + n.len() <= h.len() implies #[trigger] h@.subrange(
        k,
        k + n.len(),
    ) != n@ by {
        assert(k < i);
    }
    false
}

/// Whether the message of a failed read says that the entry does not exist.
pub fn is_no_entry_error(message: &str) -> (r: bool)
    ensures
        r == no_entry(message@),
{
    let lower = to_lower_ascii(message);
    contains_text(lower.as_str(), "no entry") || contains_text(lower.as_str(), "not found")
}

fn key_of(backend_base_url: &str) -> (key: String)
    ensures
        key@ == backend_key(backend_base_url@),
{
    let t = trim(backend_base_url);
    trim_end_of(t.as_str(), Strip::Char('/'))
}

/// The account that holds the refresh token of a backend.
pub fn refresh_token_account_for_backend(backend_base_url: &str) -> (account: String)
    ensures
        account@ == "refresh-token|"@ + backend_key(backend_base_url@),
{
    let key = key_of(backend_base_url);
    concat2("refresh-token|", key.as_str())
}

/// The account that holds the password of a user of a backend.
pub fn password_account_for_backend(backend_base_url: &str, username: &str) -> (account: String)
    ensures
        account@ == "password|"@ + backend_key(backend_base_url@) + "|"@ + trimmed(username@),
{
    let key = key_of(backend_base_url);
    let user = trim(username);
    let head = concat3("password|", key.as_str(), "|");
    concat2(head.as_str(), user.as_str())
}

/// What is written to an entry of the store.
pub enum SecretWrite {
    /// The entry is deleted; a failure to delete it is not reported.
    Delete { account: String },
    /// The secret is stored; a failure to store it is reported.
    Store { account: String, secret: String },
}

/// [`SecretWrite`] over mathematical values.
pub enum SecretWriteModel {
    Delete { account: Seq<char> },
    Store { account: Seq<char>, secret: Seq<char> },
}

impl View for SecretWrite {
    type V = SecretWriteModel;

    open spec fn view(&self) -> SecretWriteModel {
        match *self {
            SecretWrite::Delete { account } => SecretWriteModel::Delete { account: account@ },
            SecretWrite::Store { account, secret } => SecretWriteModel::Store {
                account: account@,
                secret: secret@,
            },
        }
    }
}

/// What storing `secret` under `account` comes to: a blank or missing
/// secret deletes the entry, any other is stored trimmed.
pub open spec fn write_of(account: Seq<char>, secret: Option<Seq<char>>) -> SecretWriteModel {
    match secret {
        Some(raw) => if trimmed(raw).len() == 0 {
            SecretWriteModel::Delete { account }
        } else {
            SecretWriteModel::Store { account, secret: trimmed(raw) }
        },
        None => SecretWriteModel::Delete { account },
    }
}

/// What is written to the store to keep, or forget, the refresh token of a backend.
pub fn store_refresh_token_for_backend(backend_base_url: &str, token: Option<String>) -> (w:
    SecretWrite)
    ensures
        w@ == write_of(
            "refresh-token|"@ + backend_key(backend_base_url@),
            crate::text::opt_view(token),
        ),
{
    let account = refresh_token_account_for_backend(backend_base_url);
    match token {
        Some(raw) => {
            let t = trim(raw.as_str());
            if t.as_str().is_empty() {
                SecretWrite::Delete { account }
            } else {
                SecretWrite::Store { account, secret: t }
            }
        },
        None => SecretWrite::Delete { account },
    }
}

/// The entry that was read.
#[derive(Clone, Copy, Debug, PartialEq, Eq, Structural)]
pub enum TokenSource {
    /// The entry of the backend.
    Backend,
    /// The entry that held the one token of earlier versions.
    Legacy,
}

/// What follows the read of an entry.
pub enum LoadStep {
    /// The token, or that there is none, or why the store could not be read.
    Done(Result<Option<String>, String>),
    /// The entry of the backend does not exist: read the legacy entry.
    ReadLegacy,
    /// The legacy entry holds the token: store it under the backend's
    /// account, delete the legacy entry, ignore failures of both, and hand
    /// out the token.
    Migrate { account: String, token: String },
}

/// [`LoadStep`] over mathematical values.
pub enum LoadStepModel {
    Done(Result<Option<Seq<char>>, Seq<char>>),
    ReadLegacy,
    Migrate { account: Seq<char>, token: Seq<char> },
}

impl View for LoadStep {
    type V = LoadStepModel;

    open spec fn view(&self) -> LoadStepModel {
        match *self {
            LoadStep::Done(Ok(t)) => LoadStepModel::Done(Ok(crate::text::opt_view(t))),
            LoadStep::Done(Err(e)) => LoadStepModel::Done(Err(e@)),
            LoadStep::ReadLegacy => LoadStepModel::ReadLegacy,
            LoadStep::Migrate { account, token } => LoadStepModel::Migrate {
                account: account@,
                token: token@,
            },
        }
    }
}

/// What the read of an entry means for the refresh token of a backend.
/// `read` is the secret, or the message of the failure.
pub open spec fn load_step_of(
    backend_base_url: Seq<char>,
    source: TokenSource,
    read: Result<String, String>,
) -> LoadStepModel {
    match read {
        Ok(secret) => if trimmed(secret@).len() == 0 {
            LoadStepModel::Done(Ok(None))
        } else {
            match source {
                TokenSource::Backend => LoadStepModel::Done(Ok(Some(trimmed(secret@)))),
                TokenSource::Legacy => LoadStepModel::Migrate {
                    account: "refresh-token|"@ + backend_key(backend_base_url),
                    token: trimmed(secret@),
                },
            }
        },
        Err(message) => if no_entry(message@) {
            match source {
                TokenSource::Backend => LoadStepModel::ReadLegacy,
                TokenSource::Legacy => LoadStepModel::Done(Ok(None)),
            }
        } else {
            LoadStepModel::Done(Err(message@))
        },
    }
}

/// Decides what follows the read of an entry while the refresh token of a
/// backend is looked up: first its own entry, then the legacy one.
pub fn load_refresh_token_for_backend(
    backend_base_url: &str,
    source: TokenSource,
    read: Result<String, String>,
) -> (step: LoadStep)
    ensures
        step@ == load_step_of(backend_base_url@, source, read),
{
    match read {
        Ok(secret) => {
            let t = trim(secret.as_str());
            if t.as_str().is_empty() {
                LoadStep::Done(Ok(None))
            } else {
                match source {
                    TokenSource::Backend => LoadStep::Done(Ok(Some(t))),
                    TokenSource::Legacy => LoadStep::Migrate {
                        account: refresh_token_account_for_backend(backend_base_url),
                        token: t,
                    },
                }
            }
        },
        Err(message) => {
            if is_no_entry_error(message.as_str()) {
                match source {
                    TokenSource::Backend => LoadStep::ReadLegacy,
                    TokenSource::Legacy => LoadStep::Done(Ok(None)),
                }
            } else {
                LoadStep::Done(Err(message))
            }
        },
    }
}

/// Why a password command was refused.
#[derive(Clone, Copy, Debug, PartialEq, Eq, Structural)]
pub enum SecretError {
    /// The address of the backend is blank.
    EmptyBackend,
    /// The user name is blank.
    EmptyUsername,
}

impl SecretError {
    /// The message shown to the caller.
    pub open spec fn text(self) -> Seq<char> {
        match self {
            SecretError::EmptyBackend => "backend_base_url is empty"@,
            SecretError::EmptyUsername => "username is empty"@,
        }
    }

    /// The message shown to the caller.
    pub fn message(&self) -> (m: String)
        ensures
            m@ == self.text(),
    {
        match self {
            SecretError::EmptyBackend => "backend_base_url is empty".to_owned(),
            SecretError::EmptyUsername => "username is empty".to_owned(),
        }
    }
}

/// The account that holds the password of a user of a backend, or why
/// there is none: the first of a blank backend and a blank user name.
pub open spec fn password_account_of(backend_base_url: Seq<char>, username: Seq<char>) -> Result<
    Seq<char>,
    SecretError,
> {
    if backend_key(backend_base_url).len() == 0 {
        Err(SecretError::EmptyBackend)
    } else if trimmed(username).len() == 0 {
        Err(SecretError::EmptyUsername)
    } else {
        Ok(
            "password|"@ + backend_key(backend_key(backend_base_url)) + "|"@ + trimmed(username),
        )
    }
}

/// The account that holds the password of a user of a backend.
pub fn password_entry(backend_base_url: &str, username: &str) -> (r: Result<String, SecretError>)
    ensures
        match r {
            Ok(account) => password_account_of(backend_base_url@, username@) == Ok::<
                Seq<char>,
                SecretError,
            >(account@),
            Err(e) => password_account_of(backend_base_url@, username@) == Err::<
                Seq<char>,
                SecretError,
            >(e),
        },
{
    let backend = key_of(backend_base_url);
    if backend.as_str().is_empty() {
        return Err(SecretError::EmptyBackend);
    }
    let user = trim(username);
    if user.as_str().is_empty() {
        return Err(SecretError::EmptyUsername);
    }
    proof {
        crate::text::lemma_trim_twice(username@);
    }
    Ok(password_account_for_backend(backend.as_str(), user.as_str()))
}

/// What is written to the store to keep, or forget, the password of a
/// user: a blank password deletes the entry, any other is stored trimmed.
pub fn pdh_secret_set_password(backend_base_url: &str, username: &str, password: &str) -> (r:
    Result<SecretWrite, SecretError>)
    ensures
        match r {
            Ok(w) => password_account_of(backend_base_url@, username@) is Ok && w@ == write_of(
                password_account_of(backend_base_url@, username@)->Ok_0,
                Some(password@),
            ),
            Err(e) => password_account_of(backend_base_url@, username@) == Err::<
                Seq<char>,
                SecretError,
            >(e),
        },
{
    let account = match password_entry(backend_base_url, username) {
        Ok(account) => account,
        Err(e) => {
            return Err(e);
        },
    };
    let secret = trim(password);
    if secret.as_str().is_empty() {
        Ok(SecretWrite::Delete { account })
    } else {
        Ok(SecretWrite::Store { account, secret })
    }
}

/// What the read of a password entry means: the password trimmed, nothing
/// for a blank one or an entry that does not exist, or the failure.
pub fn pdh_secret_get_password(read: Result<String, String>) -> (r: Result<Option<String>, String>)
    ensures
        match read {
            Ok(secret) => r is Ok && crate::text::opt_view(r->Ok_0) == if trimmed(
                secret@,
            ).len() == 0 {
                None
            } else {
                Some(trimmed(secret@))
            },
            Err(message) => if no_entry(message@) {
                r is Ok && r->Ok_0 is None
            } else {
                r is Err && r->Err_0@ == message@
            },
        },
{
    match read {
        Ok(secret) => {
            let p = trim(secret.as_str());
            if p.as_str().is_empty() {
                Ok(None)
            } else {
                Ok(Some(p))
            }
        },
        Err(message) => {
            if is_no_entry_error(message.as_str()) {
                Ok(None)
            } else {
                Err(message)
            }
        },
    }
}

} // verus!
