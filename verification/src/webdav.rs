//! WebDAV configuration sync: validation of the server URL, the backup
//! file's location, and what a PUT (push) or GET (pull) of the backup
//! returns for each server reply.

use vstd::prelude::*;
use crate::error::{AppError, DetailView, ErrorDetail, ErrorKind, err_view};
use crate::text::str_eq;

verus! {

/// The name of the backup file on the server.
pub const BACKUP_FILE: &'static str = "rssh_backup.enc";

#[verifier::external_type_specification]
#[verifier::external_body]
pub struct ExClient(reqwest::Client);

/// What `url::Url::parse` gives for `input`: the URL's scheme, host text
/// (`None` where it has no host) and serialization, or the parse error's
/// message.
pub uninterp spec fn url_parse_result(input: Seq<char>) -> Result<
    (Seq<char>, Option<Seq<char>>, Seq<char>),
    Seq<char>,
>;

/// The parts of a parsed URL that the sync reads.
pub struct UrlParts {
    pub scheme: String,
    pub host: Option<String>,
    pub serialization: String,
}

/// The value of `p`.
pub open spec fn url_parts_view(p: UrlParts) -> (Seq<char>, Option<Seq<char>>, Seq<char>) {
    (
        p.scheme@,
        match p.host {
            Some(h) => Some(h@),
            None => None,
        },
        p.serialization@,
    )
}

/// The value of a parse result.
pub open spec fn parse_view(r: Result<UrlParts, String>) -> Result<
    (Seq<char>, Option<Seq<char>>, Seq<char>),
    Seq<char>,
> {
    match r {
        Ok(p) => Ok(url_parts_view(p)),
        Err(m) => Err(m@),
    }
}

/// Calls `url::Url::parse` and reads the URL's `scheme`, `host_str` and
/// serialization (`to_string`), or the error's `to_string`.
///
/// The contract names the result (`url_parse_result`); what the WHATWG URL
/// parser produces is not stated.
#[verifier::external_body]
fn parse_url(input: &str) -> (r: Result<UrlParts, String>)
    ensures
        parse_view(r) == url_parse_result(input@),
{
    match url::Url::parse(input) {
        Ok(u) => Ok(
            UrlParts {
                scheme: u.scheme().to_string(),
                host: u.host_str().map(|h| h.to_string()),
                serialization: u.to_string(),
            },
        ),
        Err(e) => Err(e.to_string()),
    }
}

/// Calls `reqwest::Client::builder().build()` and renders a failure with
/// `to_string`. Nothing is stated of the outcome: whether a TLS backend and
/// the resolver configuration can be loaded depends on the machine.
#[verifier::external_body]
fn build_http_client() -> Result<reqwest::Client, String> {
    match reqwest::Client::builder().build() {
        Ok(c) => Ok(c),
        Err(e) => Err(e.to_string()),
    }
}

/// `s` ending with `/` (one is added where it does not).
pub open spec fn with_trailing_slash(s: Seq<char>) -> Seq<char> {
    if s.len() > 0 && s.last() == '/' {
        s
    } else {
        s.push('/')
    }
}

/// The configuration error expected for a WebDAV URL: its code and details.
pub type UrlError = (Seq<char>, DetailView);

/// The base URL that the sync uses for the configured `url`, given what
/// parsing it gives: a missing URL, an unparsable one, a scheme other than
/// http(s) and a URL without host are refused.
pub open spec fn webdav_url_result(
    url: Seq<char>,
    parsed: Result<(Seq<char>, Option<Seq<char>>, Seq<char>), Seq<char>>,
) -> Result<Seq<char>, UrlError> {
    if url.len() == 0 {
        Err(("webdav_url_missing"@, DetailView::Empty))
    } else {
        match parsed {
            Err(m) => Err(("webdav_url_invalid"@, DetailView::Message(m))),
            Ok((scheme, host, ser)) => if scheme != "http"@ && scheme != "https"@ {
                Err(
                    (
                        "webdav_url_invalid"@,
                        DetailView::Message("URL scheme must be http or https"@),
                    ),
                )
            } else if host is None || host.unwrap().len() == 0 {
                Err(("webdav_url_invalid"@, DetailView::Message("URL must have a valid host"@)))
            } else {
                Ok(with_trailing_slash(ser))
            },
        }
    }
}

/// `r` is the outcome `expected`, with configuration errors.
pub open spec fn config_outcome_is(r: Result<String, AppError>, expected: Result<Seq<char>, UrlError>) -> bool {
    match r {
        Ok(s) => expected == Ok::<Seq<char>, UrlError>(s@),
        Err(e) => e.kind == ErrorKind::Config && expected == Err::<Seq<char>, UrlError>(err_view(e)),
    }
}

fn ends_with_slash(s: &str) -> (r: bool)
    ensures
        r == (s@.len() > 0 && s@.last() == '/'),
{
    let n = s.unicode_len();
    n > 0 && s.get_char(n - 1) == '/'
}

/// The base URL for `url` given its parse result `parsed` (which is not
/// read where `url` is empty).
pub fn normalize_webdav_url(url: &str, parsed: Result<UrlParts, String>) -> (r: Result<
    String,
    AppError,
>)
    ensures
        config_outcome_is(r, webdav_url_result(url@, parse_view(parsed))),
        url@.len() > 0 ==> match parsed {
            Ok(p) => (p.scheme@ == "http"@ || p.scheme@ == "https"@) && (match p.host {
                Some(h) => h@.len() > 0,
                None => false,
            }) ==> match r {
                Ok(u) => u@ == (if p.serialization@.len() > 0 && p.serialization@.last() == '/' {
                    p.serialization@
                } else {
                    p.serialization@.push('/')
                }),
                Err(_) => false,
            },
            Err(_) => true,
        },
{
    if url.unicode_len() == 0 {
        return Err(AppError::config("webdav_url_missing", ErrorDetail::Empty));
    }
    match parsed {
        Err(m) => Err(AppError::config("webdav_url_invalid", ErrorDetail::Message(m))),
        Ok(p) => {
            if !str_eq(p.scheme.as_str(), "http") && !str_eq(p.scheme.as_str(), "https") {
                return Err(
                    AppError::config(
                        "webdav_url_invalid",
                        ErrorDetail::Message(String::from_str("URL scheme must be http or https")),
                    ),
                );
            }
            let host_ok = match &p.host {
                Some(h) => h.as_str().unicode_len() > 0,
                None => false,
            };
            if !host_ok {
                return Err(
                    AppError::config(
                        "webdav_url_invalid",
                        ErrorDetail::Message(String::from_str("URL must have a valid host")),
                    ),
                );
            }
            let mut u = p.serialization;
            let ghost ser = u@;
            if !ends_with_slash(u.as_str()) {
                proof {
                    reveal_strlit("/");
                    assert("/"@ =~= seq!['/']);
                }
                u.append("/");
                proof {
                    assert(u@ =~= ser.push('/'));
                }
            }
            proof {
                assert(u@ == with_trailing_slash(ser));
            }
            Ok(u)
        },
    }
}

/// A WebDAV sync target: the base URL (ending with `/`), the credentials,
/// and the HTTP client used for requests.
#[derive(Debug)]
pub struct WebDavSync {
    pub url: String,
    pub username: String,
    pub password: String,
    pub client: reqwest::Client,
}

/// `r` is the sync that the settings `url`, `username`, `password` give, or
/// the configuration error they give.
pub open spec fn sync_outcome_is(
    r: Result<WebDavSync, AppError>,
    url: Seq<char>,
    username: Seq<char>,
    password: Seq<char>,
) -> bool {
    let expected = webdav_url_result(url, url_parse_result(url));
    match r {
        Ok(s) => expected == Ok::<Seq<char>, UrlError>(s.url@) && s.username@ == username
            && s.password@ == password,
        Err(e) => e.kind == ErrorKind::Config && expected == Err::<Seq<char>, UrlError>(
            err_view(e),
        ),
    }
}

/// `r` is the failure to build an HTTP client.
pub open spec fn client_init_failed(r: Result<WebDavSync, AppError>) -> bool {
    match r {
        Err(e) => e.kind == ErrorKind::Other && e.code@ == "webdav_client_init_failed"@,
        Ok(_) => false,
    }
}

impl WebDavSync {
    /// A sync for the given settings with a new HTTP client;
    /// `webdav_client_init_failed` with the client builder's message where
    /// no HTTP client can be built.
    pub fn from_settings(url: &str, username: &str, password: &str) -> (r: Result<
        WebDavSync,
        AppError,
    >)
        ensures
            client_init_failed(r) || sync_outcome_is(r, url@, username@, password@),
    {
        match build_http_client() {
            Ok(client) => WebDavSync::with_client(url, username, password, client),
            Err(m) => Err(AppError::other("webdav_client_init_failed", ErrorDetail::Message(m))),
        }
    }

    /// A sync for the given settings using `client`.
    pub fn with_client(url: &str, username: &str, password: &str, client: reqwest::Client) -> (r:
        Result<WebDavSync, AppError>)
        ensures
            sync_outcome_is(r, url@, username@, password@),
            r matches Ok(s) ==> s.client == client,
    {
        let parsed = if url.unicode_len() == 0 {
            Err(String::new())
        } else {
            parse_url(url)
        };
        match normalize_webdav_url(url, parsed) {
            Ok(base) => Ok(
                WebDavSync {
                    url: base,
                    username: String::from_str(username),
                    password: String::from_str(password),
                    client,
                },
            ),
            Err(e) => Err(e),
        }
    }

    /// The URL of the backup file: the base URL followed by the file name.
    pub fn backup_url(&self) -> (r: String)
        ensures
            r@ == self.url@ + BACKUP_FILE@,
    {
        let mut r = self.url.clone();
        r.append(BACKUP_FILE);
        r
    }

    /// The HTTP client.
    pub fn client(&self) -> (c: &reqwest::Client)
        ensures
            *c == self.client,
    {
        &self.client
    }
}

/// A reply of the server: its status code and its body text (or the error
/// met reading it).
pub struct HttpReply {
    pub status: u16,
    pub body: Result<String, String>,
}

/// The value of a request's outcome: the reply's status and body, or the
/// error message of a request that got no reply.
pub open spec fn reply_view(r: Result<HttpReply, String>) -> Result<
    (u16, Result<Seq<char>, Seq<char>>),
    Seq<char>,
> {
    match r {
        Ok(h) => Ok(
            (
                h.status,
                match h.body {
                    Ok(t) => Ok(t@),
                    Err(m) => Err(m@),
                },
            ),
        ),
        Err(m) => Err(m@),
    }
}

/// A 2xx status.
pub open spec fn is_success(status: u16) -> bool {
    200 <= status && status <= 299
}

/// The error for a failed status: 401 and 403 are authentication
/// failures, anything else an API error carrying the body text (empty where
/// it could not be read).
pub open spec fn failure_error(status: u16, body: Result<Seq<char>, Seq<char>>) -> (
    Seq<char>,
    DetailView,
) {
    let msg = match body {
        Ok(t) => t,
        Err(_) => Seq::empty(),
    };
    if status == 401 || status == 403 {
        ("webdav_auth_failed"@, DetailView::Status(status))
    } else {
        ("webdav_api_error"@, DetailView::StatusMessage(status, msg))
    }
}

/// What a push returns for the outcome of its PUT.
pub open spec fn push_spec(sent: Result<(u16, Result<Seq<char>, Seq<char>>), Seq<char>>) -> Result<
    (),
    (Seq<char>, DetailView),
> {
    match sent {
        Err(m) => Err(("webdav_push_failed"@, DetailView::Message(m))),
        Ok((status, body)) => if is_success(status) {
            Ok(())
        } else {
            Err(failure_error(status, body))
        },
    }
}

/// What a pull returns for the outcome of its GET.
pub open spec fn pull_spec(sent: Result<(u16, Result<Seq<char>, Seq<char>>), Seq<char>>) -> Result<
    Seq<char>,
    (Seq<char>, DetailView),
> {
    match sent {
        Err(m) => Err(("webdav_pull_failed"@, DetailView::Message(m))),
        Ok((status, body)) => if status == 404 {
            Err(("webdav_not_found"@, DetailView::Empty))
        } else if is_success(status) {
            match body {
                Ok(t) => Ok(t),
                Err(m) => Err(("webdav_pull_failed"@, DetailView::Message(m))),
            }
        } else {
            Err(failure_error(status, body))
        },
    }
}

fn status_failure(status: u16, body: Result<String, String>) -> (e: AppError)
    ensures
        e.kind == ErrorKind::Other,
        err_view(e) == failure_error(
            status,
            match body {
                Ok(t) => Ok(t@),
                Err(m) => Err(m@),
            },
        ),
{
    let msg = match body {
        Ok(t) => t,
        Err(_) => String::new(),
    };
    if status == 401 || status == 403 {
        AppError::other("webdav_auth_failed", ErrorDetail::Status(status))
    } else {
        AppError::other("webdav_api_error", ErrorDetail::StatusMessage(status, msg))
    }
}

/// The result of a push whose PUT had the outcome `sent`.
pub fn push_outcome(sent: Result<HttpReply, String>) -> (r: Result<(), AppError>)
    ensures
        sent matches Ok(reply) && 200 <= reply.status <= 299 ==> r is Ok,
        sent matches Ok(reply) && !(200 <= reply.status <= 299) ==> r is Err,
        sent is Err ==> r is Err,
        match r {
            Ok(()) => push_spec(reply_view(sent)) is Ok,
            Err(e) => e.kind == ErrorKind::Other && push_spec(reply_view(sent)) == Err::<
                (),
                (Seq<char>, DetailView),
            >(err_view(e)),
        },
{
    match sent {
        Err(m) => Err(AppError::other("webdav_push_failed", ErrorDetail::Message(m))),
        Ok(reply) => {
            if 200 <= reply.status && reply.status <= 299 {
                Ok(())
            } else {
                Err(status_failure(reply.status, reply.body))
            }
        },
    }
}

/// The result of a pull whose GET had the outcome `sent`.
pub fn pull_outcome(sent: Result<HttpReply, String>) -> (r: Result<String, AppError>)
    ensures
        match sent {
            Ok(reply) => 200 <= reply.status <= 299 ==> match reply.body {
                Ok(b) => match r {
                    Ok(t) => t@ == b@,
                    Err(_) => false,
                },
                Err(_) => r is Err,
            },
            Err(_) => r is Err,
        },
        match r {
            Ok(t) => pull_spec(reply_view(sent)) == Ok::<Seq<char>, (Seq<char>, DetailView)>(t@),
            Err(e) => e.kind == ErrorKind::Other && pull_spec(reply_view(sent)) == Err::<
                Seq<char>,
                (Seq<char>, DetailView),
            >(err_view(e)),
        },
{
    match sent {
        Err(m) => Err(AppError::other("webdav_pull_failed", ErrorDetail::Message(m))),
        Ok(reply) => {
            if reply.status == 404 {
                Err(AppError::other("webdav_not_found", ErrorDetail::Empty))
            } else if 200 <= reply.status && reply.status <= 299 {
                match reply.body {
                    Ok(t) => Ok(t),
                    Err(m) => Err(AppError::other("webdav_pull_failed", ErrorDetail::Message(m))),
                }
            } else {
                Err(status_failure(reply.status, reply.body))
            }
        },
    }
}

/// A base URL that the sync accepts always ends with `/`, so the backup
/// file's URL is the base URL followed directly by the file name.
pub proof fn lemma_base_url_ends_with_slash(
    url: Seq<char>,
    parsed: Result<(Seq<char>, Option<Seq<char>>, Seq<char>), Seq<char>>,
)
    ensures
        webdav_url_result(url, parsed) matches Ok(u) ==> u.len() > 0 && u.last() == '/',
{
}

/// Only URLs with an http or https scheme and a non-empty host are
/// accepted.
pub proof fn lemma_accepted_urls_are_http_with_host(
    url: Seq<char>,
    parsed: Result<(Seq<char>, Option<Seq<char>>, Seq<char>), Seq<char>>,
)
    ensures
        webdav_url_result(url, parsed) is Ok ==> url.len() > 0,
        webdav_url_result(url, parsed) is Ok ==> match parsed {
            Ok((scheme, host, _)) => (scheme == "http"@ || scheme == "https"@) && match host {
                Some(h) => h.len() > 0,
                None => false,
            },
            Err(_) => false,
        },
{
}

/// A push succeeds exactly when the server answers with a 2xx status; a
/// 401 or 403 answer is always reported as an authentication failure.
pub proof fn lemma_push_succeeds_iff_2xx(status: u16, body: Result<Seq<char>, Seq<char>>)
    ensures
        push_spec(Ok((status, body))) is Ok <==> is_success(status),
        (status == 401 || status == 403) ==> push_spec(Ok((status, body))) == Err::<
            (),
            (Seq<char>, DetailView),
        >(("webdav_auth_failed"@, DetailView::Status(status))),
{
}

/// A pull returns exactly the body the server sent with a 2xx status, and
/// reports a 404 as a missing backup.
pub proof fn lemma_pull_returns_body(status: u16, body: Seq<char>)
    ensures
        is_success(status) ==> pull_spec(Ok((status, Ok(body)))) == Ok::<
            Seq<char>,
            (Seq<char>, DetailView),
        >(body),
        status == 404 ==> pull_spec(Ok((status, Ok(body)))) == Err::<
            Seq<char>,
            (Seq<char>, DetailView),
        >(("webdav_not_found"@, DetailView::Empty)),
{
}

/// Every status from 200 to 299 is a successful push, and no other status
/// is; every status from 200 to 299 makes a pull return exactly the body.
pub proof fn lemma_push_pull_success_range(status: u16, body: Seq<char>, err: Seq<char>)
    ensures
        200 <= status <= 299 ==> push_spec(Ok((status, Ok(body)))) is Ok && push_spec(
            Ok((status, Err(err))),
        ) is Ok,
        !(200 <= status <= 299) ==> push_spec(Ok((status, Ok(body)))) is Err,
        200 <= status <= 299 ==> pull_spec(Ok((status, Ok(body)))) == Ok::<
            Seq<char>,
            (Seq<char>, DetailView),
        >(body),
        push_spec(Err(err)) is Err && pull_spec(Err(err)) is Err,
{
}

/// Every non-empty URL that parses with scheme `http` or `https` and a
/// non-empty host is accepted, and its base URL is the parsed serialization
/// with a `/` appended where it does not already end with one.
pub proof fn lemma_http_urls_with_host_accepted(
    url: Seq<char>,
    scheme: Seq<char>,
    host: Seq<char>,
    ser: Seq<char>,
)
    requires
        url.len() > 0,
        scheme == "http"@ || scheme == "https"@,
        host.len() > 0,
    ensures
        webdav_url_result(url, Ok((scheme, Some(host), ser))) == Ok::<Seq<char>, UrlError>(
            if ser.len() > 0 && ser[ser.len() - 1] == '/' {
                ser
            } else {
                ser.push('/')
            },
        ),
{
}

} // verus!
