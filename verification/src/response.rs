//! The response validator: whether the answer of the service means that the
//! upload was accepted. The body is parsed by `serde_json`; what is read of the
//! parsed document is whether it has an `error` member and what that member
//! holds.

use crate::error::{message_text, UploadError, UploadErrorView};
use vstd::prelude::*;
use vstd::string::*;

verus! {

/// A parsed JSON document of `serde_json`. Nothing of it is visible to the
/// proofs but what `json_members` names.
#[verifier::external_type_specification]
#[verifier::external_body]
pub struct ExJsonValue(serde_json::Value);

/// The reason `serde_json` gives for refusing a text.
#[verifier::external_type_specification]
#[verifier::external_body]
pub struct ExJsonError(serde_json::Error);

/// The members of a parsed document: for a JSON object, each of its keys with
/// the compact JSON text of the value under it; for any other document, none.
pub uninterp spec fn json_members(document: serde_json::Value) -> Map<Seq<char>, Seq<char>>;

/// What `serde_json` makes of a text: the members of the document that it
/// parses to, or `None` where it refuses the text as JSON.
pub uninterp spec fn json_document(text: Seq<char>) -> Option<Map<Seq<char>, Seq<char>>>;

/// Calls `serde_json::from_str` for a `serde_json::Value`. The outcome depends
/// on the text alone, and the contract only gives it its name: the document's
/// members on success, `None` on refusal.
#[verifier::external_body]
fn parse_json(text: &str) -> (r: Result<serde_json::Value, serde_json::Error>)
    ensures
        match r {
            Ok(document) => json_document(text@) == Some(json_members(document)),
            Err(_) => json_document(text@) is None,
        },
{
    serde_json::from_str::<serde_json::Value>(text)
}

/// Calls `serde_json::Value::get` with a string key, which finds a member of an
/// object and nothing in any other document, and writes what it found as
/// compact JSON text, as `Display` for `Value` does.
#[verifier::external_body]
fn json_member(document: &serde_json::Value, key: &str) -> (r: Option<String>)
    ensures
        match r {
            Some(value) => json_members(*document).contains_key(key@) && json_members(
                *document,
            )[key@] == value@,
            None => !json_members(*document).contains_key(key@),
        },
{
    match document.get(key) {
        Some(value) => Some(value.to_string()),
        None => None,
    }
}

/// What the validator reads of the body of an answer.
#[derive(Debug, PartialEq, Eq)]
pub enum Reply {
    /// The body is not JSON.
    NotJson,
    /// The body is JSON; `error` holds the JSON text of its top-level `error`
    /// member where it is an object that has one.
    Json { error: Option<String> },
}

/// A `Reply` with the text of its field in place of the string.
pub enum ReplyView {
    NotJson,
    Json { error: Option<Seq<char>> },
}

impl View for Reply {
    type V = ReplyView;

    open spec fn view(&self) -> ReplyView {
        match self {
            Reply::NotJson => ReplyView::NotJson,
            Reply::Json { error: Some(error) } => ReplyView::Json { error: Some(error@) },
            Reply::Json { error: None } => ReplyView::Json { error: None },
        }
    }
}

/// The key of the member by which the service reports that it refused the
/// upload.
pub open spec fn error_key() -> Seq<char> {
    "error"@
}

/// What the validator reads of a body that `serde_json` parsed to `document`.
pub open spec fn reply_of(document: Option<Map<Seq<char>, Seq<char>>>) -> ReplyView {
    match document {
        Some(members) => ReplyView::Json {
            error: if members.contains_key(error_key()) {
                Some(members[error_key()])
            } else {
                None
            },
        },
        None => ReplyView::NotJson,
    }
}

/// Whether an HTTP status reports success: the 2xx range.
pub open spec fn is_success(status: u16) -> bool {
    200 <= status < 300
}

/// The failure that an answer means, `None` where it means success. A status
/// outside the 2xx range is an upload error, whatever the body holds; then a
/// body that is not JSON is a parse error; then an `error` member, whatever its
/// value, is an application error.
pub open spec fn verdict(
    status: u16,
    url: Seq<char>,
    body: Seq<char>,
    branch: Seq<char>,
    reply: ReplyView,
) -> Option<UploadErrorView> {
    if !is_success(status) {
        Some(UploadErrorView::Upload { url, body })
    } else {
        match reply {
            ReplyView::NotJson => Some(UploadErrorView::Parse),
            ReplyView::Json { error: Some(error) } => Some(
                UploadErrorView::Application { branch, url, error },
            ),
            ReplyView::Json { error: None } => None,
        }
    }
}

/// The upload succeeds exactly where the status is in the 2xx range and the body
/// is JSON without a top-level `error` member.
pub proof fn lemma_success(
    status: u16,
    url: Seq<char>,
    body: Seq<char>,
    branch: Seq<char>,
    reply: ReplyView,
)
    ensures
        verdict(status, url, body, branch, reply) is None <==> is_success(status) && reply
            == (ReplyView::Json { error: None }),
{
}

/// A status outside the 2xx range is an upload error, whatever the body holds,
/// and its message ends with the body as it was received.
pub proof fn lemma_failed_status(
    status: u16,
    url: Seq<char>,
    body: Seq<char>,
    branch: Seq<char>,
    reply: ReplyView,
)
    requires
        !is_success(status),
    ensures
        verdict(status, url, body, branch, reply) == Some(UploadErrorView::Upload { url, body }),
        message_text(verdict(status, url, body, branch, reply)->0) == "uploading to '"@ + url
            + "' failed: "@ + body,
{
}

/// With a status in the 2xx range, a body that is not JSON is a parse error.
pub proof fn lemma_malformed_body(
    status: u16,
    url: Seq<char>,
    body: Seq<char>,
    branch: Seq<char>,
)
    requires
        is_success(status),
    ensures
        verdict(status, url, body, branch, reply_of(None)) == Some(UploadErrorView::Parse),
{
}

/// With a status in the 2xx range, an `error` member is an application error
/// that holds the member's value, whatever that value is, and the message of
/// the error ends with it.
pub proof fn lemma_error_member(
    status: u16,
    url: Seq<char>,
    body: Seq<char>,
    branch: Seq<char>,
    members: Map<Seq<char>, Seq<char>>,
)
    requires
        is_success(status),
        members.contains_key(error_key()),
    ensures
        verdict(status, url, body, branch, reply_of(Some(members))) == Some(
            UploadErrorView::Application { branch, url, error: members[error_key()] },
        ),
        message_text(verdict(status, url, body, branch, reply_of(Some(members)))->0)
            == "error sending to branch '"@ + branch + "' of '"@ + url + "': "@
            + members[error_key()],
{
}

/// Parses the body of an answer and reads its `error` member.
pub fn read_reply(body: &str) -> (reply: Reply)
    ensures
        reply@ == reply_of(json_document(body@)),
{
    match parse_json(body) {
        Ok(document) => Reply::Json { error: json_member(&document, "error") },
        Err(_) => Reply::NotJson,
    }
}

/// Judges an answer of which the body has been read already.
pub fn judge(status: u16, url: &str, body: &str, branch: &str, reply: Reply) -> (r: Result<
    (),
    UploadError,
>)
    ensures
        match r {
            Ok(_) => verdict(status, url@, body@, branch@, reply@) is None,
            Err(e) => verdict(status, url@, body@, branch@, reply@) == Some(e@),
        },
{
    if status < 200 || status >= 300 {
        return Err(UploadError::Upload { url: String::from_str(url), body: String::from_str(body) });
    }
    match reply {
        Reply::NotJson => Err(UploadError::Parse),
        Reply::Json { error: Some(error) } => Err(
            UploadError::Application {
                branch: String::from_str(branch),
                url: String::from_str(url),
                error,
            },
        ),
        Reply::Json { error: None } => Ok(()),
    }
}

/// Decides whether the answer of the service means success. `status` is the
/// HTTP status, `url` the URL that answered, `body` the text of the answer and
/// `branch` the branch that the upload was meant for. The body is parsed only
/// where the status reports success.
pub fn validate_response(status: u16, url: &str, body: &str, branch: &str) -> (r: Result<
    (),
    UploadError,
>)
    ensures
        match r {
            Ok(_) => verdict(status, url@, body@, branch@, reply_of(json_document(body@))) is None,
            Err(e) => verdict(status, url@, body@, branch@, reply_of(json_document(body@)))
                == Some(e@),
        },
{
    if status < 200 || status >= 300 {
        judge(status, url, body, branch, Reply::NotJson)
    } else {
        judge(status, url, body, branch, read_reply(body))
    }
}

} // verus!
