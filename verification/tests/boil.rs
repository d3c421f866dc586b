use boilchangeip::boil::{
    accept_reply, directory_path, parse_api_error, parse_base_url, parse_change_ip_response,
    parse_get_ip_response, redact_token, safe_api_message, sanitize_transport_error, ApiCall,
    ApiErrorResponse, BoilApiError, BoilClient, HttpStatus, IpAddress, RawChangeIpResponse,
    RawGetIpResponse,
};
use boilchangeip::config::SecretToken;
use boilchangeip::redact::redact;
use serde_json::Value;

fn status(code: u16) -> HttpStatus {
    HttpStatus::from_u16(code).unwrap()
}

fn raw_ip(ok: bool, ip: Option<&str>, error: Option<&str>) -> Option<RawGetIpResponse> {
    Some(RawGetIpResponse {
        ok,
        ip: ip.map(str::to_string),
        error: error.map(str::to_string),
    })
}

fn address(text: &str) -> Option<IpAddress> {
    Some(IpAddress { text: text.to_string() })
}

#[test]
fn replies_to_a_query_are_read() {
    let ok = parse_get_ip_response(
        status(200),
        raw_ip(true, Some("42.1.1.1"), None),
        address("42.1.1.1"),
    );
    assert_eq!(ok.unwrap().ip.text, "42.1.1.1");
    let text = |r: Result<boilchangeip::boil::GetIpResponse, BoilApiError>| r.unwrap_err().text();
    assert_eq!(
        text(parse_get_ip_response(status(200), None, None)),
        "Boil API returned invalid JSON with HTTP 200 OK"
    );
    assert_eq!(
        text(parse_get_ip_response(status(200), raw_ip(true, None, None), None)),
        "Boil API invalid response: getIP missing ip"
    );
    assert_eq!(
        text(parse_get_ip_response(status(200), raw_ip(true, Some("x"), None), None)),
        "Boil API invalid response: getIP returned invalid ip"
    );
    assert_eq!(
        text(parse_get_ip_response(
            status(200),
            raw_ip(false, None, Some("no\nway")),
            None
        )),
        "Boil API rejected request: no way"
    );
    assert_eq!(
        text(parse_get_ip_response(status(200), raw_ip(false, None, None), None)),
        "Boil API rejected request: ok=false"
    );
}

#[test]
fn replies_to_a_change_are_read() {
    let raw = |ok: bool, message: Option<&str>| {
        Some(RawChangeIpResponse {
            ok,
            message: message.map(str::to_string),
            uses_left: Some(2),
            next_allowed_at: Some(1782732942),
            error: None,
        })
    };
    let ok = parse_change_ip_response(status(200), raw(true, Some("accepted"))).unwrap();
    assert_eq!(ok.message, "accepted");
    assert_eq!(ok.uses_left, Some(2));
    assert_eq!(ok.next_allowed_at, Some(1782732942));
    assert_eq!(
        parse_change_ip_response(status(200), raw(true, None)).unwrap_err().text(),
        "Boil API invalid response: changeIP missing message"
    );
    assert_eq!(
        parse_change_ip_response(status(200), raw(false, None)).unwrap_err().text(),
        "Boil API rejected request: ok=false"
    );
    assert_eq!(
        parse_change_ip_response(status(200), None).unwrap_err().text(),
        "Boil API returned invalid JSON with HTTP 200 OK"
    );
}

#[test]
fn errors_of_the_api_are_told_apart() {
    let error = || Some(ApiErrorResponse { error: "denied".to_string() });
    assert_eq!(
        accept_reply(status(400), "{}".to_string(), error()).unwrap_err().text(),
        "Boil API rejected request with HTTP 400 Bad Request: denied"
    );
    assert_eq!(
        accept_reply(status(400), "x".to_string(), None).unwrap_err().text(),
        "Boil API returned invalid JSON with HTTP 400 Bad Request"
    );
    assert_eq!(
        accept_reply(status(405), "x".to_string(), None).unwrap_err().text(),
        "Boil API returned HTTP status 405 Method Not Allowed"
    );
    assert_eq!(
        accept_reply(status(500), " ".to_string(), error()).unwrap_err().text(),
        "Boil API returned HTTP status 500 Internal Server Error"
    );
    assert_eq!(parse_api_error(status(500), "x", error()).ok().as_deref(), Some("denied"));
    let (s, body) = accept_reply(status(204), "body".to_string(), None).unwrap();
    assert_eq!((s.as_u16(), body.as_str()), (204, "body"));
    assert_eq!(HttpStatus::from_u16(99), None);
    assert_eq!(HttpStatus::from_u16(1000), None);
    assert_eq!(status(799).text(), "799 <unknown status code>");
}

#[test]
fn messages_are_short_and_on_one_line() {
    assert_eq!(safe_api_message("a\r\nb"), "a  b");
    assert_eq!(safe_api_message(&"x".repeat(300)).len(), 200);
    assert_eq!(sanitize_transport_error(true, true), "request timed out");
    assert_eq!(sanitize_transport_error(false, true), "connection failed");
    assert_eq!(sanitize_transport_error(false, false), "request failed");
}

#[test]
fn tokens_are_taken_out_of_texts() {
    let token = SecretToken::from_stored("s3cret".to_string());
    assert_eq!(redact_token("a s3cret b s3crets3cret", &token), "a <redacted> b <redacted><redacted>");
    assert_eq!(redact("plain", "s3cret"), "plain");
    assert_eq!(redact("plain", ""), "plain");
}

#[test]
fn requests_go_to_their_paths() {
    let client = BoilClient::with_api_base_url("http://127.0.0.1:8080").unwrap();
    assert_eq!(
        client.request_url(ApiCall::GetIp).unwrap(),
        "http://127.0.0.1:8080/api/v1/getIP"
    );
    assert_eq!(
        client.request_url(ApiCall::ChangeIp).unwrap(),
        "http://127.0.0.1:8080/api/v1/changeIP/"
    );
    let below = BoilClient::with_api_base_url("https://example.com/panel").unwrap();
    assert_eq!(
        below.request_url(ApiCall::GetIp).unwrap(),
        "https://example.com/panel/api/v1/getIP"
    );
    assert_eq!(
        BoilClient::new().unwrap().request_url(ApiCall::GetIp).unwrap(),
        "https://ippanel.boil.network/api/v1/getIP"
    );
    assert!(BoilClient::with_api_base_url("no url").is_err());
    assert!(BoilClient::at("https://example.com/panel") == Some(Ok(below)));
    assert!(matches!(BoilClient::at("no url"), Some(Err(_))));
    let long = format!("https://example.com/{}", "a".repeat(100_000));
    assert!(matches!(BoilClient::at(&long), Some(Ok(_))));
    assert_eq!(
        parse_base_url("http://h/a?q=1").as_deref(),
        Some("http://h/a/?q=1")
    );
    assert_eq!(directory_path("/a/"), None);
    assert_eq!(directory_path("/a").as_deref(), Some("/a/"));
}

/// What the library makes of a reply, with its JSON decoded.
struct Mock {
    code: u16,
    body: String,
}

fn test_credential() -> String {
    ["unit", "test", "credential"].join("-")
}

fn test_token() -> SecretToken {
    SecretToken::from_stored(test_credential())
}

fn received(reply: &Mock) -> Result<(HttpStatus, Value), BoilApiError> {
    let body = redact_token(&reply.body, &test_token());
    let json = serde_json::from_str::<Value>(&body).unwrap_or(Value::Null);
    let error = json["error"]
        .as_str()
        .map(|error| ApiErrorResponse { error: error.to_string() });
    let (status, _) = accept_reply(status(reply.code), body, error)?;
    Ok((status, json))
}

/// A text that may be missing; `None` where the field holds something else.
fn optional(json: &Value, field: &str) -> Option<Option<String>> {
    match &json[field] {
        Value::Null => Some(None),
        Value::String(text) => Some(Some(text.clone())),
        _ => None,
    }
}

fn get_ip(reply: Mock) -> Result<boilchangeip::boil::GetIpResponse, BoilApiError> {
    let (status, json) = received(&reply)?;
    let raw = match (json["ok"].as_bool(), optional(&json, "ip"), optional(&json, "error")) {
        (Some(ok), Some(ip), Some(error)) => Some(RawGetIpResponse { ok, ip, error }),
        _ => None,
    };
    let address = raw
        .as_ref()
        .and_then(|r| r.ip.as_deref())
        .filter(|ip| ip.split('.').count() == 4)
        .map(|ip| IpAddress { text: ip.to_string() });
    parse_get_ip_response(status, raw, address)
}

fn change_ip(reply: Mock) -> Result<boilchangeip::boil::ChangeIpResponse, BoilApiError> {
    let (status, json) = received(&reply)?;
    let raw = match (json["ok"].as_bool(), optional(&json, "message"), optional(&json, "error")) {
        (Some(ok), Some(message), Some(error)) => Some(RawChangeIpResponse {
            ok,
            message,
            uses_left: json["uses_left"].as_u64().map(|n| n as u32),
            next_allowed_at: json["next_allowed_at"].as_i64(),
            error,
        }),
        _ => None,
    };
    parse_change_ip_response(status, raw)
}

fn reply(code: u16, body: &str) -> Mock {
    Mock { code, body: body.to_string() }
}

#[test]
fn an_address_is_asked_for_at_its_path_and_read() {
    let client = BoilClient::with_api_base_url("http://127.0.0.1:1").unwrap();
    let url = client.request_url(ApiCall::GetIp).unwrap();
    assert_eq!(url.strip_prefix("http://127.0.0.1:1"), Some("/api/v1/getIP"));

    let result = get_ip(reply(200, r#"{"ok":true,"ip":"42.1.2.3"}"#)).unwrap();

    assert!(result.ok);
    assert_eq!(result.ip.text, "42.1.2.3");
}

#[test]
fn a_change_is_requested_at_its_path_and_read() {
    let client = BoilClient::with_api_base_url("http://127.0.0.1:1").unwrap();
    let url = client.request_url(ApiCall::ChangeIp).unwrap();
    assert_eq!(url.strip_prefix("http://127.0.0.1:1"), Some("/api/v1/changeIP/"));

    let result = change_ip(reply(
        200,
        r#"{"ok":true,"message":"accepted","uses_left":2,"next_allowed_at":1782732942}"#,
    ))
    .unwrap();

    assert!(result.ok);
    assert_eq!(result.message, "accepted");
    assert_eq!(result.uses_left, Some(2));
    assert_eq!(result.next_allowed_at, Some(1782732942));
}

#[test]
fn an_error_of_the_api_rejects_a_change() {
    let err = change_ip(reply(400, r#"{"error":"quota exhausted"}"#)).unwrap_err();

    assert_eq!(
        err,
        BoilApiError::ApiRejected {
            status: Some(status(400)),
            message: "quota exhausted".to_string(),
        }
    );
}

#[test]
fn errors_without_json_give_their_status() {
    let method_err = get_ip(reply(405, "method not allowed")).unwrap_err();
    let server_err = get_ip(reply(500, "server error")).unwrap_err();

    assert_eq!(method_err, BoilApiError::HttpStatus { status: status(405) });
    assert_eq!(server_err, BoilApiError::HttpStatus { status: status(500) });
}

#[test]
fn invalid_responses_are_classified() {
    assert!(matches!(
        get_ip(reply(200, "not-json")).unwrap_err(),
        BoilApiError::InvalidJson { .. }
    ));
    assert_eq!(
        get_ip(reply(200, r#"{"ok":true}"#)).unwrap_err(),
        BoilApiError::InvalidResponse("getIP missing ip".to_string())
    );
    assert_eq!(
        get_ip(reply(200, r#"{"ok":true,"ip":"not-an-ip"}"#)).unwrap_err(),
        BoilApiError::InvalidResponse("getIP returned invalid ip".to_string())
    );
    assert_eq!(
        get_ip(reply(200, r#"{"ok":false,"error":"denied"}"#)).unwrap_err(),
        BoilApiError::ApiRejected {
            status: None,
            message: "denied".to_string(),
        }
    );
    assert!(matches!(
        get_ip(reply(200, r#"{"ok":true,"ip":42}"#)).unwrap_err(),
        BoilApiError::InvalidJson { .. }
    ));
}

#[test]
fn tokens_are_not_in_errors() {
    let token = test_token();
    assert!(!token.display().contains(&test_credential()));

    let refused = format!(r#"{{"error":"{} denied"}}"#, test_credential());
    let http_error = change_ip(reply(400, &refused)).unwrap_err();
    let not_ok = format!(r#"{{"ok":false,"error":"{} denied"}}"#, test_credential());
    let api_error = get_ip(reply(200, &not_ok)).unwrap_err();
    assert!(!format!("{http_error:?}").contains(&test_credential()));
    assert!(!http_error.text().contains(&test_credential()));
    assert!(!format!("{api_error:?}").contains(&test_credential()));
    assert!(!api_error.text().contains(&test_credential()));
}
