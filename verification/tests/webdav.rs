use rssh::error::{ErrorDetail, ErrorKind};
use rssh::webdav::{
    normalize_webdav_url, pull_outcome, push_outcome, HttpReply, UrlParts, WebDavSync,
};

#[test]
fn from_settings_accepts_valid_https_url() {
    let s = WebDavSync::from_settings("https://dav.example.com/rssh/", "u", "p").unwrap();
    assert_eq!(s.url, "https://dav.example.com/rssh/");
    assert_eq!(s.username, "u");
    assert_eq!(s.password, "p");
}

#[test]
fn from_settings_adds_trailing_slash() {
    let s = WebDavSync::from_settings("https://dav.example.com/rssh", "u", "p").unwrap();
    assert_eq!(s.url, "https://dav.example.com/rssh/");
}

#[test]
fn from_settings_rejects_empty_url() {
    let err = WebDavSync::from_settings("", "u", "p").unwrap_err();
    assert_eq!(err.code(), "webdav_url_missing");
}

#[test]
fn from_settings_rejects_invalid_scheme() {
    let err = WebDavSync::from_settings("ftp://dav.example.com/", "u", "p").unwrap_err();
    assert_eq!(err.code(), "webdav_url_invalid");
}

#[test]
fn from_settings_rejects_missing_host() {
    let err = WebDavSync::from_settings("http://", "u", "p").unwrap_err();
    assert_eq!(err.code(), "webdav_url_invalid");
}

#[test]
fn from_settings_accepts_plain_http_and_normalises() {
    let s = WebDavSync::from_settings("HTTP://Dav.Example.com", "u", "p").unwrap();
    assert_eq!(s.url, "http://dav.example.com/");
}

#[test]
fn from_settings_reports_parse_error_message() {
    let err = WebDavSync::from_settings("not a url", "u", "p").unwrap_err();
    assert_eq!(err.code(), "webdav_url_invalid");
    assert_eq!(err.kind, ErrorKind::Config);
    match err.detail {
        ErrorDetail::Message(m) => assert!(!m.is_empty()),
        other => panic!("unexpected detail {:?}", other),
    }
}

#[test]
fn from_settings_scheme_error_message() {
    let err = WebDavSync::from_settings("ftp://dav.example.com/", "u", "p").unwrap_err();
    match err.detail {
        ErrorDetail::Message(m) => assert_eq!(m, "URL scheme must be http or https"),
        other => panic!("unexpected detail {:?}", other),
    }
}

#[test]
fn backup_url_appends_file_name() {
    let s = WebDavSync::from_settings("https://dav.example.com/rssh", "u", "p").unwrap();
    assert_eq!(s.backup_url(), "https://dav.example.com/rssh/rssh_backup.enc");
}

fn parts(scheme: &str, host: Option<&str>, ser: &str) -> Result<UrlParts, String> {
    Ok(UrlParts {
        scheme: scheme.to_string(),
        host: host.map(|h| h.to_string()),
        serialization: ser.to_string(),
    })
}

#[test]
fn normalize_rejects_empty_host() {
    let err = normalize_webdav_url("http://x", parts("http", Some(""), "http:///")).unwrap_err();
    assert_eq!(err.code(), "webdav_url_invalid");
    match err.detail {
        ErrorDetail::Message(m) => assert_eq!(m, "URL must have a valid host"),
        other => panic!("unexpected detail {:?}", other),
    }
}

#[test]
fn normalize_keeps_existing_slash() {
    let u = normalize_webdav_url("x", parts("https", Some("h"), "https://h/a/")).unwrap();
    assert_eq!(u, "https://h/a/");
}

#[test]
fn normalize_passes_parse_error_through() {
    let err = normalize_webdav_url("x", Err("relative URL without a base".to_string())).unwrap_err();
    match err.detail {
        ErrorDetail::Message(m) => assert_eq!(m, "relative URL without a base"),
        other => panic!("unexpected detail {:?}", other),
    }
}

fn reply(status: u16, body: &str) -> Result<HttpReply, String> {
    Ok(HttpReply { status, body: Ok(body.to_string()) })
}

#[test]
fn push_succeeds_on_201() {
    assert!(push_outcome(reply(201, "")).is_ok());
}

#[test]
fn pull_returns_body_on_200() {
    assert_eq!(pull_outcome(reply(200, "encrypted-data")).unwrap(), "encrypted-data");
}

#[test]
fn pull_not_found_on_404() {
    let err = pull_outcome(reply(404, "missing")).unwrap_err();
    assert_eq!(err.code(), "webdav_not_found");
}

#[test]
fn push_401_returns_auth_failed() {
    let err = push_outcome(reply(401, "denied")).unwrap_err();
    assert_eq!(err.code(), "webdav_auth_failed");
    match err.detail {
        ErrorDetail::Status(s) => assert_eq!(s, 401),
        other => panic!("unexpected detail {:?}", other),
    }
}

#[test]
fn push_outcome_403_returns_auth_failed() {
    let err = push_outcome(reply(403, "")).unwrap_err();
    assert_eq!(err.code(), "webdav_auth_failed");
}

#[test]
fn push_outcome_404_is_api_error_with_body() {
    let err = push_outcome(reply(404, "no such collection")).unwrap_err();
    assert_eq!(err.code(), "webdav_api_error");
    match err.detail {
        ErrorDetail::StatusMessage(s, m) => {
            assert_eq!(s, 404);
            assert_eq!(m, "no such collection");
        }
        other => panic!("unexpected detail {:?}", other),
    }
}

#[test]
fn push_outcome_unreadable_body_gives_empty_message() {
    let err = push_outcome(Ok(HttpReply { status: 500, body: Err("reset".to_string()) })).unwrap_err();
    match err.detail {
        ErrorDetail::StatusMessage(s, m) => {
            assert_eq!(s, 500);
            assert_eq!(m, "");
        }
        other => panic!("unexpected detail {:?}", other),
    }
}

#[test]
fn push_outcome_transport_error() {
    let err = push_outcome(Err("connection refused".to_string())).unwrap_err();
    assert_eq!(err.code(), "webdav_push_failed");
    assert_eq!(err.kind, ErrorKind::Other);
}

#[test]
fn pull_outcome_transport_error() {
    let err = pull_outcome(Err("timeout".to_string())).unwrap_err();
    assert_eq!(err.code(), "webdav_pull_failed");
}

#[test]
fn pull_outcome_unreadable_body_on_200() {
    let err = pull_outcome(Ok(HttpReply { status: 200, body: Err("decode".to_string()) })).unwrap_err();
    assert_eq!(err.code(), "webdav_pull_failed");
    match err.detail {
        ErrorDetail::Message(m) => assert_eq!(m, "decode"),
        other => panic!("unexpected detail {:?}", other),
    }
}

#[test]
fn pull_outcome_403_and_500() {
    assert_eq!(pull_outcome(reply(403, "")).unwrap_err().code(), "webdav_auth_failed");
    assert_eq!(pull_outcome(reply(500, "boom")).unwrap_err().code(), "webdav_api_error");
}
