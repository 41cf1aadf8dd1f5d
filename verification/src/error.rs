//! The ways an upload fails. Every failure ends the operation; none is retried.

use vstd::prelude::*;
use vstd::string::*;

verus! {

/// Why an upload failed.
#[derive(Debug, PartialEq, Eq)]
pub enum UploadError {
    /// A directory could not be listed, or a file could not be read as what its
    /// extension promises. Holds a description of the cause.
    Io(String),
    /// The request could not be sent or its answer not received. Holds a
    /// description of the cause.
    Transport(String),
    /// The service answered with a status outside the 2xx range.
    Upload { url: String, body: String },
    /// The body of the answer is not JSON.
    Parse,
    /// The service answered with a JSON object that has an `error` member.
    Application { branch: String, url: String, error: String },
}

/// An `UploadError` with the text of every field in place of the string.
pub enum UploadErrorView {
    Io(Seq<char>),
    Transport(Seq<char>),
    Upload { url: Seq<char>, body: Seq<char> },
    Parse,
    Application { branch: Seq<char>, url: Seq<char>, error: Seq<char> },
}

impl View for UploadError {
    type V = UploadErrorView;

    open spec fn view(&self) -> UploadErrorView {
        match self {
            UploadError::Io(cause) => UploadErrorView::Io(cause@),
            UploadError::Transport(cause) => UploadErrorView::Transport(cause@),
            UploadError::Upload { url, body } => UploadErrorView::Upload { url: url@, body: body@ },
            UploadError::Parse => UploadErrorView::Parse,
            UploadError::Application { branch, url, error } => UploadErrorView::Application {
                branch: branch@,
                url: url@,
                error: error@,
            },
        }
    }
}

/// The cause given for a script file that is not valid UTF-8.
pub open spec fn invalid_text_cause() -> Seq<char> {
    "stream did not contain valid UTF-8"@
}

/// The line that describes a failure to the user.
pub open spec fn message_text(e: UploadErrorView) -> Seq<char> {
    match e {
        UploadErrorView::Io(cause) => cause,
        UploadErrorView::Transport(cause) => cause,
        UploadErrorView::Upload { url, body } => "uploading to '"@ + url + "' failed: "@ + body,
        UploadErrorView::Parse => "response body is not valid JSON"@,
        UploadErrorView::Application { branch, url, error } => "error sending to branch '"@
            + branch + "' of '"@ + url + "': "@ + error,
    }
}

impl UploadError {
    /// The failure for a script file whose bytes are not valid UTF-8.
    pub fn invalid_text() -> (e: UploadError)
        ensures
            e@ == UploadErrorView::Io(invalid_text_cause()),
    {
        UploadError::Io(String::from_str("stream did not contain valid UTF-8"))
    }

    /// The line that describes this failure to the user.
    pub fn message(&self) -> (text: String)
        ensures
            text@ == message_text(self@),
    {
        match self {
            UploadError::Io(cause) => cause.clone(),
            UploadError::Transport(cause) => cause.clone(),
            UploadError::Upload { url, body } => {
                let mut text = String::from_str("uploading to '");
                text.append(url.as_str());
                text.append("' failed: ");
                text.append(body.as_str());
                text
            },
            UploadError::Parse => String::from_str("response body is not valid JSON"),
            UploadError::Application { branch, url, error } => {
                let mut text = String::from_str("error sending to branch '");
                text.append(branch.as_str());
                text.append("' of '");
                text.append(url.as_str());
                text.append("': ");
                text.append(error.as_str());
                text
            },
        }
    }
}

} // verus!
