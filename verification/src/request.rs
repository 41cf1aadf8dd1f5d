//! The request that carries the module set: where it goes, how it is
//! authenticated, how long it may take, and what it holds. Sending it is left
//! to the caller.

use crate::modules::ModuleSet;
use crate::text::{decimal, push_decimal};
use vstd::prelude::*;
use vstd::string::*;

verus! {

/// The credential of one upload: a token, or a user name with a password.
#[derive(Debug, PartialEq, Eq)]
pub enum Authentication {
    Token { auth_token: String },
    Basic { username: String, password: String },
}

/// How a request is authenticated.
#[derive(Debug, PartialEq, Eq)]
pub enum RequestAuth {
    /// By a header with this name and value.
    Header { name: String, value: String },
    /// By HTTP Basic authentication with this user name and password.
    Basic { username: String, password: String },
}

/// The name of the header that carries a token.
pub open spec fn token_header() -> Seq<char> {
    "X-Token"@
}

/// Whether `auth` is how a request is authenticated with the credential
/// `authentication`: a token in the `X-Token` header, a user name and a
/// password by HTTP Basic authentication, each as it was given.
pub open spec fn authenticates(authentication: Authentication, auth: RequestAuth) -> bool {
    match authentication {
        Authentication::Token { auth_token } => {
            &&& auth matches RequestAuth::Header { name, value }
            &&& name@ == token_header()
            &&& value@ == auth_token@
        },
        Authentication::Basic { username, password } => {
            &&& auth matches RequestAuth::Basic { username: user, password: pass }
            &&& user@ == username@
            &&& pass@ == password@
        },
    }
}

/// Decides how a request is authenticated with the given credential: a token
/// travels in the `X-Token` header, a user name and a password by HTTP Basic
/// authentication.
pub fn authenticate(authentication: &Authentication) -> (auth: RequestAuth)
    ensures
        authenticates(*authentication, auth),
{
    match authentication {
        Authentication::Token { auth_token } => RequestAuth::Header {
            name: String::from_str("X-Token"),
            value: auth_token.clone(),
        },
        Authentication::Basic { username, password } => RequestAuth::Basic {
            username: username.clone(),
            password: password.clone(),
        },
    }
}

/// The scheme of the URL: `https` with TLS, `http` without.
pub open spec fn scheme(ssl: bool) -> Seq<char> {
    if ssl {
        "https"@
    } else {
        "http"@
    }
}

/// The path of the URL behind its first slash: the fixed path of the service,
/// with the prefix and a slash in front where a prefix is configured.
pub open spec fn api_path(prefix: Option<Seq<char>>) -> Seq<char> {
    match prefix {
        Some(segment) => segment + "/api/user/code"@,
        None => "api/user/code"@,
    }
}

/// The URL that the request is sent to. The parts are put together as they
/// are; no slash is added or removed.
pub open spec fn url_text(
    hostname: Seq<char>,
    ssl: bool,
    port: u16,
    prefix: Option<Seq<char>>,
) -> Seq<char> {
    scheme(ssl) + "://"@ + hostname + ":"@ + decimal(port as nat) + "/"@ + api_path(prefix)
}

/// The text of an optional string.
pub open spec fn text_of(s: Option<String>) -> Option<Seq<char>> {
    match s {
        Some(s) => Some(s@),
        None => None,
    }
}

/// Builds the URL of the service from the connection parameters.
pub fn build_url(hostname: &str, ssl: bool, port: u16, prefix: &Option<String>) -> (url: String)
    ensures
        url@ == url_text(hostname@, ssl, port, text_of(*prefix)),
{
    let mut url = String::from_str(
        if ssl {
            "https"
        } else {
            "http"
        },
    );
    url.append("://");
    url.append(hostname);
    url.append(":");
    push_decimal(&mut url, port);
    url.append("/");
    match prefix {
        Some(segment) => {
            url.append(segment.as_str());
            url.append("/api/user/code");
            assert(url@ =~= url_text(hostname@, ssl, port, text_of(*prefix)));
        },
        None => {
            url.append("api/user/code");
        },
    }
    url
}

/// Whatever the scheme, the host and the port: a configured prefix stands as
/// one segment between the slash that follows the port and the fixed path of
/// the service, and the URL is `{scheme}://{host}:{port}/{prefix}/api/user/code`.
pub proof fn lemma_url_with_prefix(hostname: Seq<char>, ssl: bool, port: u16, segment: Seq<char>)
    ensures
        url_text(hostname, ssl, port, Some(segment)) == scheme(ssl) + "://"@ + hostname + ":"@
            + decimal(port as nat) + "/"@ + segment + "/"@ + "api/user/code"@,
        url_text(hostname, ssl, port, Some(segment)).len() == url_text(
            hostname,
            ssl,
            port,
            None,
        ).len() + segment.len() + 1,
{
    reveal_strlit("/");
    reveal_strlit("api/user/code");
    reveal_strlit("/api/user/code");
    let front = scheme(ssl) + "://"@ + hostname + ":"@ + decimal(port as nat) + "/"@;
    assert("/api/user/code"@ =~= "/"@ + "api/user/code"@);
    assert(url_text(hostname, ssl, port, Some(segment)) =~= front + segment + "/"@
        + "api/user/code"@);
}

/// The time that the whole request may take, in seconds; `None` leaves it
/// unbounded.
pub open spec fn timeout_of(http_timeout: Option<u32>) -> Option<u64> {
    match http_timeout {
        Some(seconds) => Some(seconds as u64),
        None => None,
    }
}

/// The time that the whole request may take, in seconds.
pub fn request_timeout(http_timeout: Option<u32>) -> (timeout: Option<u64>)
    ensures
        timeout == timeout_of(http_timeout),
{
    match http_timeout {
        Some(seconds) => Some(seconds as u64),
        None => None,
    }
}

/// What is uploaded: the module set and the branch it is meant for. This is the
/// shape of the request's body, with the two members `modules` and `branch`.
pub struct UploadRequest {
    pub modules: ModuleSet,
    pub branch: String,
}

/// One request, ready to be sent.
pub struct Submission {
    /// The URL to post to.
    pub url: String,
    /// How the request is authenticated.
    pub auth: RequestAuth,
    /// The seconds that the request may take, `None` for no limit.
    pub timeout: Option<u64>,
    /// The body of the request.
    pub request: UploadRequest,
}

/// Puts the one request of an upload together.
pub fn prepare(
    modules: ModuleSet,
    authentication: &Authentication,
    branch: &str,
    hostname: &str,
    ssl: bool,
    port: u16,
    prefix: &Option<String>,
    http_timeout: Option<u32>,
) -> (submission: Submission)
    ensures
        submission.url@ == url_text(hostname@, ssl, port, text_of(*prefix)),
        authenticates(*authentication, submission.auth),
        submission.timeout == timeout_of(http_timeout),
        submission.request.modules@ == modules@,
        submission.request.branch@ == branch@,
{
    Submission {
        url: build_url(hostname, ssl, port, prefix),
        auth: authenticate(authentication),
        timeout: request_timeout(http_timeout),
        request: UploadRequest { modules, branch: String::from_str(branch) },
    }
}

} // verus!
