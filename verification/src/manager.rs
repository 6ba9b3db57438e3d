//! The token manager: it owns the session, decides among cached token,
//! refresh and interactive login, resolves credentials paths, and names the
//! per-account cache files.  All file and network work is the caller's: the
//! manager hands out actions and takes back events.

use vstd::prelude::*;
use crate::errors::{AuthError, KeyringError, TokenManagerError};
use crate::oauth::WorkspaceAuthenticator;

verus! {

/// The configuration this manager works from: the selected account, the
/// configured credentials paths, and the directories the surroundings know.
pub struct AuthConfig {
    pub current_account: Option<String>,
    pub credentials_path: Option<String>,
    /// Per-account credentials-path mapping.
    pub accounts: Vec<(String, String)>,
    /// The configuration directory, where cache files live.
    pub config_dir: Option<String>,
    /// The user's home directory, searched for credential files.
    pub home_dir: Option<String>,
}

pub open spec fn opt_string_view(o: Option<String>) -> Option<Seq<char>> {
    match o {
        Some(s) => Some(s@),
        None => None,
    }
}

/// The record handed to the credential store at login.
pub struct StoredToken {
    pub access_token: String,
    pub refresh_token: Option<String>,
    pub expires_at: Option<i64>,
}

/// A read-only snapshot of authentication state.
pub struct AuthStatus {
    pub authenticated: bool,
    pub storage_type: String,
    pub token_cache_path: String,
}

/// The cache file name for an account.
pub open spec fn cache_file_name(account: Seq<char>) -> Seq<char> {
    "token_cache_"@ + account + ".json"@
}

/// Where an account's cache file lives: under the configuration directory
/// when one is known, else bare.
pub open spec fn cache_path_model(config_dir: Option<Seq<char>>, account: Seq<char>) -> Seq<
    char,
> {
    match config_dir {
        Some(d) => d + "/"@ + cache_file_name(account),
        None => cache_file_name(account),
    }
}

/// The manager: configuration, the live session if any, the credentials path
/// last used, and the selected account.
pub struct TokenManager {
    pub config: AuthConfig,
    pub authenticator: Option<WorkspaceAuthenticator>,
    pub credentials_path: Option<String>,
    pub current_account: String,
    pub storage_type: String,
}

/// What the manager asks its caller to do while restoring authentication.
pub enum EnsureAction {
    /// Drive the held session to a token; report back ok or failed.
    FetchSessionToken,
    /// Report whether this cache file exists.
    CheckCache(String),
    /// Report the first of these paths that exists, if any.
    FindCredentials(Vec<String>),
    /// Rebuild a session from this credentials file and this cache file,
    /// verify one token fetch, and report the session or the failure.
    RestoreSession(String, String),
    /// Authentication stands.
    Done,
    /// Authentication failed with this error.
    Fail(TokenManagerError),
}

/// What the caller reports back while restoring authentication.
pub enum EnsureEvent {
    /// Begin.
    Start,
    /// The held session produced a token.
    SessionTokenOk,
    /// The held session could not produce a token.
    SessionTokenFailed,
    /// Whether the cache file exists.
    CacheChecked(bool),
    /// The first candidate credentials path that exists, if any.
    CredentialsSearched(Option<String>),
    /// A rebuilt session that passed its verification fetch, and the
    /// credentials path it came from.
    SessionVerified(WorkspaceAuthenticator, String),
    /// Rebuilding or verifying the session failed.
    RestoreFailed(TokenManagerError),
}

impl TokenManager {
    /// A manager for the configured account, or `default` when none is set.
    pub fn new(config: AuthConfig) -> (r: TokenManager)
        ensures
            r.authenticator is None,
            r.credentials_path is None,
            r.current_account@ == (match config.current_account {
                Some(a) => a@,
                None => "default"@,
            }),
            r.config == config,
            r.storage_type@ == "file"@,
    {
        let account: String = match &config.current_account {
            Some(a) => a.clone(),
            None => String::from_str("default"),
        };
        TokenManager {
            config,
            authenticator: None,
            credentials_path: None,
            current_account: account,
            storage_type: String::from_str("file"),
        }
    }

    /// A manager for a named account.
    pub fn new_for_account(config: AuthConfig, account: &str) -> (r: TokenManager)
        ensures
            r.authenticator is None,
            r.credentials_path is None,
            r.current_account@ == account@,
            r.config == config,
            r.storage_type@ == "file"@,
    {
        TokenManager {
            config,
            authenticator: None,
            credentials_path: None,
            current_account: String::from_str(account),
            storage_type: String::from_str("file"),
        }
    }

    /// The account this manager serves.
    pub fn current_account(&self) -> (r: &String)
        ensures
            r@ == self.current_account@,
    {
        &self.current_account
    }

    /// The account-specific token-cache path.
    pub fn token_cache_path(&self) -> (r: String)
        ensures
            r@ == cache_path_model(
                opt_string_view(self.config.config_dir),
                self.current_account@,
            ),
    {
        let mut name = String::from_str("token_cache_");
        name.append(self.current_account.as_str());
        name.append(".json");
        match &self.config.config_dir {
            Some(d) => {
                let mut out = d.clone();
                out.append("/");
                out.append(name.as_str());
                out
            },
            None => name,
        }
    }

    /// Whether credentials are at hand: a live session, or a cache file on
    /// disk (an optimistic signal; the cached token may be stale).
    pub fn is_authenticated(&self, cache_exists: bool) -> (r: bool)
        ensures
            r == (self.authenticator is Some || cache_exists),
    {
        match &self.authenticator {
            Some(_) => true,
            None => cache_exists,
        }
    }

    /// A status snapshot.
    pub fn status(&self, cache_exists: bool) -> (r: AuthStatus)
        ensures
            r.authenticated == (self.authenticator is Some || cache_exists),
            r.storage_type@ == self.storage_type@,
            r.token_cache_path@ == cache_path_model(
                opt_string_view(self.config.config_dir),
                self.current_account@,
            ),
    {
        AuthStatus {
            authenticated: self.is_authenticated(cache_exists),
            storage_type: self.storage_type.clone(),
            token_cache_path: self.token_cache_path(),
        }
    }

    /// The credentials path the configuration maps this account to.
    pub fn account_credentials_path(&self) -> (r: Option<String>)
        ensures
            opt_string_view(r) == lookup_account(
                self.config.accounts@,
                self.current_account@,
            ),
    {
        let ghost entries = self.config.accounts@;
        proof {
            assert(entries.skip(0) =~= entries);
        }
        let mut i: usize = 0;
        while i < self.config.accounts.len()
            invariant
                i <= entries.len(),
                entries == self.config.accounts@,
                lookup_account(entries, self.current_account@) == lookup_account(
                    entries.skip(i as int),
                    self.current_account@,
                ),
            decreases entries.len() - i,
        {
            proof {
                assert(entries.skip(i as int).len() == entries.len() - i);
                assert(entries.skip(i as int)[0] == entries[i as int]);
            }
            if self.config.accounts[i].0.eq(&self.current_account) {
                return Some(self.config.accounts[i].1.clone());
            }
            proof {
                assert(entries.skip(i as int).drop_first() =~= entries.skip(i as int + 1));
            }
            i = i + 1;
        }
        proof {
            assert(entries.skip(i as int).len() == 0);
        }
        None
    }

    /// The conventional locations searched for a credentials file, in order:
    /// the working directory, the configuration directory, the home
    /// directory, and a dotfile in the home directory.  A location whose
    /// directory is unknown degrades to an empty path, which never exists.
    pub fn credential_candidates(&self) -> (r: Vec<String>)
        ensures
            Seq::new(r@.len(), |i: int| r@[i]@) =~= candidates_model(
                opt_string_view(self.config.config_dir),
                opt_string_view(self.config.home_dir),
            ),
    {
        let mut out: Vec<String> = Vec::new();
        out.push(String::from_str("credentials.json"));
        match &self.config.config_dir {
            Some(d) => {
                let mut p = d.clone();
                p.append("/credentials.json");
                out.push(p);
            },
            None => {
                out.push(String::new());
            },
        }
        match &self.config.home_dir {
            Some(d) => {
                let mut p = d.clone();
                p.append("/credentials.json");
                out.push(p);
                let mut p2 = d.clone();
                p2.append("/.credentials.json");
                out.push(p2);
            },
            None => {
                out.push(String::new());
                out.push(String::new());
            },
        }
        out
    }

    /// The credentials path to restore from, before any directory search:
    /// the account mapping first, then the path last used, then the
    /// configured default.
    pub fn resolve_credentials_path(&self) -> (r: Option<String>)
        ensures
            opt_string_view(r) == resolve_model(
                lookup_account(self.config.accounts@, self.current_account@),
                opt_string_view(self.credentials_path),
                opt_string_view(self.config.credentials_path),
            ),
    {
        match self.account_credentials_path() {
            Some(p) => Some(p),
            None => match &self.credentials_path {
                Some(p) => Some(p.clone()),
                None => match &self.config.credentials_path {
                    Some(p) => Some(p.clone()),
                    None => None,
                },
            },
        }
    }

    /// One step of restoring authentication: from the last event to the next
    /// action.  No step performs network or file work itself; in particular,
    /// a missing cache file or unresolvable credentials path fails
    /// immediately, before any session is rebuilt.
    pub fn ensure_step(&mut self, ev: EnsureEvent) -> (r: EnsureAction)
        ensures
            final(self).config == old(self).config,
            final(self).credentials_path == (match ev {
                EnsureEvent::SessionVerified(_, p) => Some(p),
                _ => old(self).credentials_path,
            }),
            final(self).current_account == old(self).current_account,
            final(self).storage_type == old(self).storage_type,
            match ev {
                EnsureEvent::Start => final(self).authenticator == old(self).authenticator
                    && (match old(self).authenticator {
                    Some(_) => r is FetchSessionToken,
                    None => r matches EnsureAction::CheckCache(p) && p@ == cache_path_model(
                        opt_string_view(old(self).config.config_dir),
                        old(self).current_account@,
                    ),
                }),
                EnsureEvent::SessionTokenOk => final(self).authenticator == old(
                    self,
                ).authenticator && r is Done,
                EnsureEvent::SessionTokenFailed => final(self).authenticator is None && (
                r matches EnsureAction::CheckCache(p) && p@ == cache_path_model(
                    opt_string_view(old(self).config.config_dir),
                    old(self).current_account@,
                )),
                EnsureEvent::CacheChecked(exists) => final(self).authenticator == old(
                    self,
                ).authenticator && (if !exists {
                    r matches EnsureAction::Fail(e) && e is NotAuthenticated
                } else {
                    match resolve_model(
                        lookup_account(old(self).config.accounts@, old(self).current_account@),
                        opt_string_view(old(self).credentials_path),
                        opt_string_view(old(self).config.credentials_path),
                    ) {
                        Some(p) => r matches EnsureAction::RestoreSession(cp, tp) && cp@ == p
                            && tp@ == cache_path_model(
                            opt_string_view(old(self).config.config_dir),
                            old(self).current_account@,
                        ),
                        None => r matches EnsureAction::FindCredentials(cands) && Seq::new(
                            cands@.len(),
                            |i: int| cands@[i]@,
                        ) =~= candidates_model(
                            opt_string_view(old(self).config.config_dir),
                            opt_string_view(old(self).config.home_dir),
                        ),
                    }
                }),
                EnsureEvent::CredentialsSearched(found) => final(self).authenticator == old(
                    self,
                ).authenticator && (match found {
                    Some(p) => r matches EnsureAction::RestoreSession(cp, tp) && cp@ == p@
                        && tp@ == cache_path_model(
                        opt_string_view(old(self).config.config_dir),
                        old(self).current_account@,
                    ),
                    None => r matches EnsureAction::Fail(e) && e matches
                        TokenManagerError::MissingCredentials(m) && m@
                        == "No credentials file found. Run 'workspace-cli auth login --credentials <path>' first."@,
                }),
                EnsureEvent::SessionVerified(auth, _) => final(self).authenticator == Some(auth)
                    && r is Done,
                EnsureEvent::RestoreFailed(e) => final(self).authenticator == old(
                    self,
                ).authenticator && (r matches EnsureAction::Fail(e2) && e2 == e),
            },
    {
        match ev {
            EnsureEvent::Start => {
                match &self.authenticator {
                    Some(_) => EnsureAction::FetchSessionToken,
                    None => EnsureAction::CheckCache(self.token_cache_path()),
                }
            },
            EnsureEvent::SessionTokenOk => EnsureAction::Done,
            EnsureEvent::SessionTokenFailed => {
                self.authenticator = None;
                EnsureAction::CheckCache(self.token_cache_path())
            },
            EnsureEvent::CacheChecked(exists) => {
                if !exists {
                    EnsureAction::Fail(TokenManagerError::NotAuthenticated)
                } else {
                    match self.resolve_credentials_path() {
                        Some(p) => EnsureAction::RestoreSession(p, self.token_cache_path()),
                        None => EnsureAction::FindCredentials(self.credential_candidates()),
                    }
                }
            },
            EnsureEvent::CredentialsSearched(found) => {
                match found {
                    Some(p) => EnsureAction::RestoreSession(p, self.token_cache_path()),
                    None => EnsureAction::Fail(
                        TokenManagerError::MissingCredentials(
                            String::from_str(
                                "No credentials file found. Run 'workspace-cli auth login --credentials <path>' first.",
                            ),
                        ),
                    ),
                }
            },
            EnsureEvent::SessionVerified(auth, p) => {
                self.authenticator = Some(auth);
                self.credentials_path = Some(p);
                EnsureAction::Done
            },
            EnsureEvent::RestoreFailed(e) => EnsureAction::Fail(e),
        }
    }

    /// The credentials path an interactive login starts from: the explicit
    /// argument, else the configured default; neither is a fatal
    /// missing-credentials error.
    pub fn login_plan(&self, explicit: Option<String>) -> (r: Result<String, TokenManagerError>)
        ensures
            match r {
                Ok(p) => match explicit {
                    Some(e) => p@ == e@,
                    None => opt_string_view(self.config.credentials_path) == Some(p@),
                },
                Err(e) => explicit is None && self.config.credentials_path is None && (
                e matches TokenManagerError::MissingCredentials(m) && m@
                    == "No credentials path provided. Use --credentials or set WORKSPACE_CREDENTIALS_PATH"@),
            },
    {
        match explicit {
            Some(p) => Ok(p),
            None => match &self.config.credentials_path {
                Some(p) => Ok(p.clone()),
                None => Err(
                    TokenManagerError::MissingCredentials(
                        String::from_str(
                            "No credentials path provided. Use --credentials or set WORKSPACE_CREDENTIALS_PATH",
                        ),
                    ),
                ),
            },
        }
    }

    /// The error reported when the login credentials file is absent.
    pub fn credentials_file_missing(&self, path: &str) -> (r: TokenManagerError)
        ensures
            r matches TokenManagerError::MissingCredentials(m) && m@
                == "Credentials file not found at: "@ + path@,
    {
        let mut msg = String::from_str("Credentials file not found at: ");
        msg.append(path);
        TokenManagerError::MissingCredentials(msg)
    }

    /// Install the session a completed interactive login produced, and give
    /// back the record the credential store keeps: the fresh access token
    /// under a one-hour heuristic expiry, with no refresh credential of its
    /// own (the session refreshes internally).
    pub fn complete_login(
        &mut self,
        auth: WorkspaceAuthenticator,
        creds_path: String,
        access_token: &str,
        now: i64,
    ) -> (r: StoredToken)
        requires
            0 <= now <= i64::MAX - 3600,
        ensures
            final(self).authenticator == Some(auth),
            final(self).credentials_path == Some(creds_path),
            final(self).config == old(self).config,
            final(self).current_account == old(self).current_account,
            final(self).storage_type == old(self).storage_type,
            r.access_token@ == access_token@,
            r.refresh_token is None,
            r.expires_at == Some((now + 3600) as i64),
    {
        self.authenticator = Some(auth);
        self.credentials_path = Some(creds_path);
        StoredToken {
            access_token: String::from_str(access_token),
            refresh_token: None,
            expires_at: Some(now + 3600),
        }
    }

    /// Clear the session and name the cache file to remove.  The caller must
    /// delete both the stored record and the cache file, whatever the other
    /// deletion does.
    pub fn logout(&mut self) -> (r: String)
        ensures
            final(self).authenticator is None,
            final(self).credentials_path is None,
            final(self).config == old(self).config,
            final(self).current_account == old(self).current_account,
            final(self).storage_type == old(self).storage_type,
            r@ == cache_path_model(
                opt_string_view(old(self).config.config_dir),
                old(self).current_account@,
            ),
    {
        self.authenticator = None;
        self.credentials_path = None;
        self.token_cache_path()
    }

    /// The error that answers a token request with no live session.
    pub fn require_session(&self) -> (r: Result<(), TokenManagerError>)
        ensures
            self.authenticator is Some <==> r is Ok,
            r matches Err(e) ==> e is NotAuthenticated,
    {
        match &self.authenticator {
            Some(_) => Ok(()),
            None => Err(TokenManagerError::NotAuthenticated),
        }
    }
}

/// First credentials path bound to `account` in the mapping.
pub open spec fn lookup_account(entries: Seq<(String, String)>, account: Seq<char>) -> Option<
    Seq<char>,
>
    decreases entries.len(),
{
    if entries.len() == 0 {
        None
    } else if entries[0].0@ == account {
        Some(entries[0].1@)
    } else {
        lookup_account(entries.drop_first(), account)
    }
}

/// The conventional credential-file locations, in priority order.
pub open spec fn candidates_model(
    config_dir: Option<Seq<char>>,
    home_dir: Option<Seq<char>>,
) -> Seq<Seq<char>> {
    seq![
        "credentials.json"@,
        match config_dir {
            Some(d) => d + "/credentials.json"@,
            None => Seq::empty(),
        },
        match home_dir {
            Some(d) => d + "/credentials.json"@,
            None => Seq::empty(),
        },
        match home_dir {
            Some(d) => d + "/.credentials.json"@,
            None => Seq::empty(),
        },
    ]
}

/// The pre-search resolution order: account mapping, then the path last
/// used, then the configured default.
pub open spec fn resolve_model(
    mapped: Option<Seq<char>>,
    last_used: Option<Seq<char>>,
    configured: Option<Seq<char>>,
) -> Option<Seq<char>> {
    match mapped {
        Some(p) => Some(p),
        None => match last_used {
            Some(p) => Some(p),
            None => configured,
        },
    }
}

// ---------------------------------------------------------------------------
// Account enumeration from cache-file names.
// ---------------------------------------------------------------------------

/// The account a cache file name stands for: the middle of
/// `token_cache_<account>.json`.
pub open spec fn account_of_filename(name: Seq<char>) -> Option<Seq<char>> {
    if name.len() >= 17 && name.subrange(0, 12) == "token_cache_"@ && name.subrange(
        name.len() - 5,
        name.len() as int,
    ) == ".json"@ {
        Some(name.subrange(12, name.len() - 5))
    } else {
        None
    }
}

/// The accounts a list of file names stands for, in the order given.
pub open spec fn accounts_of(names: Seq<Seq<char>>) -> Seq<Seq<char>>
    decreases names.len(),
{
    if names.len() == 0 {
        Seq::empty()
    } else {
        let rest = accounts_of(names.drop_first());
        match account_of_filename(names[0]) {
            Some(a) => seq![a] + rest,
            None => rest,
        }
    }
}

proof fn lemma_accounts_of_push(a: Seq<Seq<char>>, x: Seq<char>)
    ensures
        accounts_of(a.push(x)) == accounts_of(a) + (match account_of_filename(x) {
            Some(acc) => seq![acc],
            None => Seq::empty(),
        }),
    decreases a.len(),
{
    if a.len() == 0 {
        assert(a.push(x).drop_first() =~= a);
        assert(accounts_of(a.push(x)) =~= accounts_of(a) + (match account_of_filename(x) {
            Some(acc) => seq![acc],
            None => Seq::empty(),
        }));
    } else {
        lemma_accounts_of_push(a.drop_first(), x);
        assert(a.push(x).drop_first() =~= a.drop_first().push(x));
        assert(a.push(x)[0] == a[0]);
        assert(accounts_of(a.push(x)) =~= accounts_of(a) + (match account_of_filename(x) {
            Some(acc) => seq![acc],
            None => Seq::empty(),
        }));
    }
}

/// The account one file name stands for.
pub fn account_of_name(name: &str) -> (r: Option<String>)
    ensures
        crate::token::opt_text_view(r) == account_of_filename(name@),
{
    let v = crate::json::chars_vec(name);
    let prefix = crate::json::chars_vec("token_cache_");
    let suffix = crate::json::chars_vec(".json");
    if v.len() < 17 {
        proof {
            reveal_strlit("token_cache_");
            reveal_strlit(".json");
        }
        return None;
    }
    let mut i: usize = 0;
    while i < 12
        invariant
            i <= 12,
            v@ == name@,
            v@.len() >= 17,
            prefix@ == "token_cache_"@,
            forall|q: int| 0 <= q < i ==> v@[q] == prefix@[q],
        decreases 12 - i,
    {
        proof {
            reveal_strlit("token_cache_");
        }
        if v[i] != prefix[i] {
            proof {
                assert(name@.subrange(0, 12)[i as int] != "token_cache_"@[i as int]);
            }
            return None;
        }
        i = i + 1;
    }
    let base = v.len() - 5;
    let mut j: usize = 0;
    while j < 5
        invariant
            j <= 5,
            v@ == name@,
            v@.len() >= 17,
            v@.len() <= usize::MAX,
            base == v@.len() - 5,
            suffix@ == ".json"@,
            forall|q: int| 0 <= q < j ==> v@[base + q] == suffix@[q],
        decreases 5 - j,
    {
        proof {
            reveal_strlit(".json");
        }
        if v[base + j] != suffix[j] {
            proof {
                assert(name@.subrange(name@.len() - 5, name@.len() as int)[j as int]
                    != ".json"@[j as int]);
            }
            return None;
        }
        j = j + 1;
    }
    proof {
        reveal_strlit("token_cache_");
        reveal_strlit(".json");
        assert(name@.subrange(0, 12) =~= "token_cache_"@);
        assert(name@.subrange(name@.len() - 5, name@.len() as int) =~= ".json"@);
    }
    let mid = crate::json::subrange_vec(&v, 12, base);
    Some(crate::json::string_of_chars(&mid))
}

/// The accounts present in a directory, read off its file names.
pub fn accounts_from_filenames(names: &Vec<String>) -> (r: Vec<String>)
    ensures
        Seq::new(r@.len(), |i: int| r@[i]@) == accounts_of(
            Seq::new(names@.len(), |i: int| names@[i]@),
        ),
{
    let ghost model = Seq::new(names@.len(), |i: int| names@[i]@);
    let mut out: Vec<String> = Vec::new();
    let mut i: usize = 0;
    while i < names.len()
        invariant
            i <= names@.len(),
            model == Seq::new(names@.len(), |q: int| names@[q]@),
            Seq::new(out@.len(), |q: int| out@[q]@) == accounts_of(model.subrange(0, i as int)),
        decreases names@.len() - i,
    {
        let ghost before = Seq::new(out@.len(), |q: int| out@[q]@);
        match account_of_name(names[i].as_str()) {
            Some(a) => {
                out.push(a);
            },
            None => {},
        }
        i = i + 1;
        proof {
            let pre = model.subrange(0, i as int - 1);
            assert(model.subrange(0, i as int) =~= pre.push(model[i as int - 1]));
            lemma_accounts_of_push(pre, model[i as int - 1]);
            assert(Seq::new(out@.len(), |q: int| out@[q]@) =~= before + (
            match account_of_filename(model[i as int - 1]) {
                Some(acc) => seq![acc],
                None => Seq::empty(),
            }));
        }
    }
    proof {
        assert(model.subrange(0, model.len() as int) =~= model);
    }
    out
}

} // verus!
