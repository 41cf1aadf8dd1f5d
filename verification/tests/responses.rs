use code_upload::error::UploadError;
use code_upload::response::{judge, read_reply, validate_response, Reply};

const URL: &str = "https://example.com:443/api/user/code";

fn validate(status: u16, body: &str) -> Result<(), UploadError> {
    validate_response(status, URL, body, "default")
}

fn application(error: &str) -> Result<(), UploadError> {
    Err(UploadError::Application {
        branch: "default".to_string(),
        url: URL.to_string(),
        error: error.to_string(),
    })
}

fn upload(body: &str) -> Result<(), UploadError> {
    Err(UploadError::Upload { url: URL.to_string(), body: body.to_string() })
}

#[test]
fn success_with_ok_body() {
    assert_eq!(validate(200, "{\"ok\":true}"), Ok(()));
}

#[test]
fn error_member_is_an_application_error() {
    let result = validate(200, "{\"error\":\"bad branch\"}");
    assert_eq!(result, application("\"bad branch\""));
    let message = result.unwrap_err().message();
    assert!(message.contains("bad branch"));
    assert!(message.contains("default"));
    assert!(message.contains(URL));
}

#[test]
fn status_500_is_an_upload_error_with_the_body() {
    let result = validate(500, "internal server error");
    assert_eq!(result, upload("internal server error"));
    assert!(result.unwrap_err().message().contains("internal server error"));
}

#[test]
fn status_outside_2xx_wins_over_the_body() {
    assert_eq!(validate(500, "{\"ok\":true}"), upload("{\"ok\":true}"));
    assert_eq!(validate(401, "{\"error\":\"unauthorized\"}"), upload("{\"error\":\"unauthorized\"}"));
    assert_eq!(validate(404, ""), upload(""));
    assert_eq!(validate(302, "moved"), upload("moved"));
}

#[test]
fn malformed_body_is_a_parse_error() {
    assert_eq!(validate(200, "{\"ok\":"), Err(UploadError::Parse));
    assert_eq!(validate(200, "<html></html>"), Err(UploadError::Parse));
    assert_eq!(validate(200, "{\"ok\":true} trailing"), Err(UploadError::Parse));
    assert_eq!(validate(200, "{'ok':true}"), Err(UploadError::Parse));
}

#[test]
fn empty_body_is_a_parse_error() {
    assert_eq!(validate(200, ""), Err(UploadError::Parse));
    assert_eq!(validate(204, ""), Err(UploadError::Parse));
    assert_eq!(validate(200, "   "), Err(UploadError::Parse));
}

#[test]
fn the_edges_of_the_2xx_range() {
    assert_eq!(validate(199, "{}"), upload("{}"));
    assert_eq!(validate(200, "{}"), Ok(()));
    assert_eq!(validate(201, "{}"), Ok(()));
    assert_eq!(validate(299, "{}"), Ok(()));
    assert_eq!(validate(300, "{}"), upload("{}"));
    assert_eq!(validate(0, "{}"), upload("{}"));
    assert_eq!(validate(u16::MAX, "{}"), upload("{}"));
}

#[test]
fn error_member_of_any_value_counts() {
    assert_eq!(validate(200, "{\"error\":null}"), application("null"));
    assert_eq!(validate(200, "{\"error\":false}"), application("false"));
    assert_eq!(validate(200, "{\"error\":0}"), application("0"));
    assert_eq!(validate(200, "{\"error\":\"\"}"), application("\"\""));
    assert_eq!(
        validate(200, "{ \"error\" : { \"code\" : 7, \"why\" : [ 1, 2 ] } }"),
        application("{\"code\":7,\"why\":[1,2]}")
    );
}

#[test]
fn error_member_beside_others() {
    assert_eq!(
        validate(200, "{\"ok\":1,\"error\":\"branch does not exist\",\"z\":2}"),
        application("\"branch does not exist\"")
    );
}

#[test]
fn only_a_top_level_error_member_counts() {
    assert_eq!(validate(200, "{\"data\":{\"error\":\"nested\"}}"), Ok(()));
    assert_eq!(validate(200, "[{\"error\":\"in an array\"}]"), Ok(()));
    assert_eq!(validate(200, "{\"Error\":\"other key\"}"), Ok(()));
    assert_eq!(validate(200, "{\"errors\":[]}"), Ok(()));
}

#[test]
fn json_that_is_no_object_has_no_error_member() {
    assert_eq!(validate(200, "null"), Ok(()));
    assert_eq!(validate(200, "true"), Ok(()));
    assert_eq!(validate(200, "17"), Ok(()));
    assert_eq!(validate(200, "\"error\""), Ok(()));
    assert_eq!(validate(200, "[]"), Ok(()));
}

#[test]
fn read_reply_of_bodies() {
    assert_eq!(read_reply("{\"ok\":true}"), Reply::Json { error: None });
    assert_eq!(
        read_reply("{\"error\":\"bad branch\"}"),
        Reply::Json { error: Some("\"bad branch\"".to_string()) }
    );
    assert_eq!(read_reply("not json"), Reply::NotJson);
    assert_eq!(read_reply("error"), Reply::NotJson);
}

#[test]
fn read_reply_escapes_as_json_does() {
    assert_eq!(
        read_reply("{\"error\":\"line\\nbreak \\u00e9\"}"),
        Reply::Json { error: Some("\"line\\nbreak \u{e9}\"".to_string()) }
    );
}

#[test]
fn judge_success() {
    assert_eq!(judge(200, URL, "{}", "default", Reply::Json { error: None }), Ok(()));
}

#[test]
fn judge_status_first() {
    assert_eq!(judge(503, URL, "busy", "default", Reply::Json { error: None }), upload("busy"));
    assert_eq!(judge(503, URL, "busy", "default", Reply::NotJson), upload("busy"));
    assert_eq!(
        judge(503, URL, "busy", "default", Reply::Json { error: Some("1".to_string()) }),
        upload("busy")
    );
}

#[test]
fn judge_parse_error() {
    assert_eq!(judge(200, URL, "busy", "default", Reply::NotJson), Err(UploadError::Parse));
}

#[test]
fn judge_application_error() {
    assert_eq!(
        judge(200, URL, "{}", "default", Reply::Json { error: Some("\"no\"".to_string()) }),
        application("\"no\"")
    );
}
