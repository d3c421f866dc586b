use boilchangeip::boil::{
    accept_reply, parse_change_ip_response, parse_get_ip_response, redact_token, ApiErrorResponse,
    BoilApiError, ChangeIpResponse, GetIpResponse, HttpStatus, IpAddress, RawChangeIpResponse,
    RawGetIpResponse,
};
use boilchangeip::config::{
    AppConfig, ChangeIpCooldownConfig, SecretToken, ServerConfig, ServerSelection,
};
use boilchangeip::reconnect::cooldown::{
    cooldown_hit_or_zero, format_wait_duration, last_integer_in_text, manual_cooldown_message,
    parse_rate_limit_next_available_at, unix_seconds, ChangeIpCooldownState,
};
use boilchangeip::reconnect::run::{ReconnectAction, ReconnectEvent, ReconnectRun};
use boilchangeip::reconnect::{
    BatchReconnectResult, BatchRun, ChangeIpCooldownMode, ReconnectPolicy, ReconnectResult,
    ReconnectStatus,
};
use boilchangeip::time::Duration;
use serde_json::Value;
use std::collections::VecDeque;

const SUCCESS_MESSAGE: &str = "换 IP 已完成";
const UNCONFIRMED_MESSAGE: &str =
    "换 IP 请求已被接受，Boil 后端仍在切换，请稍后使用 boil status 或 Telegram /status 查看。";

/// A reply of the API: a status and a body, or none.
#[derive(Clone)]
enum Reply {
    Http(u16, String),
    Disconnect,
}

fn response(status: u16, body: &str) -> Reply {
    Reply::Http(status, body.to_string())
}

fn ip(body: &str) -> Reply {
    response(200, body)
}

fn accepted() -> Reply {
    response(
        200,
        r#"{"ok":true,"message":"accepted","uses_left":2,"next_allowed_at":1782732942}"#,
    )
}

fn rate_limited(next_available_at: i64) -> Reply {
    response(
        400,
        &format!(r#"{{"error":"频率限制中，下次可用时间: {next_available_at}"}}"#),
    )
}

fn text(v: &Value, field: &str) -> Option<String> {
    v[field].as_str().map(str::to_string)
}

fn test_credential() -> String {
    ["phase", "three", "credential"].join("-")
}

fn ok_body(reply: Reply) -> Result<(HttpStatus, String), BoilApiError> {
    let Reply::Http(code, body) = reply else {
        return Err(BoilApiError::Transport("connection failed".to_string()));
    };
    let status = HttpStatus::from_u16(code).unwrap();
    let body = redact_token(&body, &SecretToken::from_stored(test_credential()));
    let error = serde_json::from_str::<Value>(&body)
        .ok()
        .and_then(|v| text(&v, "error"))
        .map(|error| ApiErrorResponse { error });
    accept_reply(status, body, error)
}

fn get_ip(reply: Reply) -> Result<GetIpResponse, BoilApiError> {
    let (status, body) = ok_body(reply)?;
    let raw = serde_json::from_str::<Value>(&body).ok().map(|v| RawGetIpResponse {
        ok: v["ok"].as_bool().unwrap_or(false),
        ip: text(&v, "ip"),
        error: text(&v, "error"),
    });
    let address = raw
        .as_ref()
        .and_then(|r| r.ip.clone())
        .filter(|t| t.parse::<Ipv4>().is_ok())
        .map(|text| IpAddress { text });
    parse_get_ip_response(status, raw, address)
}

/// Four numbers with dots between them.
struct Ipv4;

impl std::str::FromStr for Ipv4 {
    type Err = ();

    fn from_str(s: &str) -> Result<Self, ()> {
        let parts: Vec<&str> = s.split('.').collect();
        if parts.len() == 4 && parts.iter().all(|p| p.parse::<u8>().is_ok()) {
            Ok(Ipv4)
        } else {
            Err(())
        }
    }
}

fn change_ip(reply: Reply) -> Result<ChangeIpResponse, BoilApiError> {
    let (status, body) = ok_body(reply)?;
    let raw = serde_json::from_str::<Value>(&body).ok().map(|v| RawChangeIpResponse {
        ok: v["ok"].as_bool().unwrap_or(false),
        message: text(&v, "message"),
        uses_left: v["uses_left"].as_u64().map(|n| n as u32),
        next_allowed_at: v["next_allowed_at"].as_i64(),
        error: text(&v, "error"),
    });
    parse_change_ip_response(status, raw)
}

/// The API, and what it was asked.
struct Mock {
    replies: VecDeque<Reply>,
    records: Vec<&'static str>,
    now: i64,
}

impl Mock {
    fn start(replies: Vec<Reply>) -> Self {
        Mock {
            replies: replies.into(),
            records: Vec::new(),
            now: 1_000_000,
        }
    }

    fn ask(&mut self, path: &'static str) -> Reply {
        self.records.push(path);
        self.replies.pop_front().unwrap_or(Reply::Disconnect)
    }

    fn change_count(&self) -> usize {
        self.records.iter().filter(|p| **p == "/api/v1/changeIP/").count()
    }
}

/// What happened besides requests.
#[derive(Default)]
struct Seen {
    waits: Vec<(u64, usize)>,
    verifying: Vec<String>,
}

fn run(
    mock: &mut Mock,
    server: &ServerConfig,
    policy: ReconnectPolicy,
    current: Option<&str>,
    mode: ChangeIpCooldownMode,
    cooldown: &mut ChangeIpCooldownState,
    seen: &mut Seen,
) -> ReconnectResult {
    let current = current.map(|t| IpAddress { text: t.to_string() });
    let (mut state, mut action) = ReconnectRun::start(server, policy, current, mode);
    loop {
        let event = match action {
            ReconnectAction::QueryIp => ReconnectEvent::Ip(get_ip(mock.ask("/api/v1/getIP"))),
            ReconnectAction::ReadClock => ReconnectEvent::Clock(mock.now),
            ReconnectAction::RequestChange => {
                let request_at = mock.now;
                let reply = change_ip(mock.ask("/api/v1/changeIP/"));
                ReconnectEvent::Change { request_at, reply, now: mock.now }
            }
            ReconnectAction::WaitCooldown(hit) => {
                seen.waits.push((hit.remaining.as_secs(), mock.change_count()));
                mock.now += hit.remaining.as_secs() as i64;
                ReconnectEvent::Waited
            }
            ReconnectAction::Verify { progress, .. } => {
                let boilchangeip::reconnect::ReconnectProgress::VerifyingNewIp { old_ip } = progress;
                seen.verifying.push(old_ip.text);
                ReconnectEvent::Waited
            }
            ReconnectAction::Pause(_) => ReconnectEvent::Waited,
            ReconnectAction::Finish(result) => return result,
        };
        let next = state.step(cooldown, event);
        state = next.0;
        action = next.1;
    }
}

fn reconnect_one(mock: &mut Mock, server: &ServerConfig, policy: ReconnectPolicy) -> ReconnectResult {
    run(
        mock,
        server,
        policy,
        None,
        ChangeIpCooldownMode::FailFast,
        &mut ChangeIpCooldownState::default(),
        &mut Seen::default(),
    )
}

fn reconnect_selected(
    mock: &mut Mock,
    config: &AppConfig,
    selection: ServerSelection<'_>,
    policy: ReconnectPolicy,
) -> Result<BatchReconnectResult, String> {
    let mut batch = BatchRun::select(config, selection).map_err(|e| e.message())?;
    loop {
        let result = match batch.next() {
            Some(server) => reconnect_one(mock, server, policy),
            None => break,
        };
        batch.record(result);
    }
    Ok(batch.finish())
}

fn server(id: &str, enabled: bool) -> ServerConfig {
    ServerConfig {
        id: id.to_string(),
        name: format!("Server {id}"),
        token: SecretToken::from_stored(test_credential()),
        enabled,
        address: None,
        country: None,
        flag: None,
        resolved_ip: None,
        timer: None,
    }
}

fn config(servers: Vec<ServerConfig>) -> AppConfig {
    AppConfig {
        servers,
        global_timer: None,
        change_ip_cooldown: None,
        tg_token: None,
        tg_chat_id: None,
        tg_pair_code: None,
        tg_pair_expires_at: None,
        migration_notice: None,
    }
}

fn policy(attempts: usize) -> ReconnectPolicy {
    ReconnectPolicy {
        initial_delay: Duration::from_secs(0),
        poll_interval: Duration::from_secs(0),
        max_poll_attempts: attempts,
    }
}

#[test]
fn rate_limit_parser_extracts_next_available_timestamp() {
    let error = BoilApiError::ApiRejected {
        status: HttpStatus::from_u16(400),
        message: "频率限制中，下次可用时间: 1785704991".to_string(),
    };

    assert_eq!(parse_rate_limit_next_available_at(&error), Some(1785704991));
}

#[test]
fn cooldown_state_only_increases_when_api_proves_it_is_too_short() {
    let mut state = ChangeIpCooldownState {
        cooldown: Some(Duration::from_secs(30)),
        last_changeip_at: Some(100),
        next_changeip_available_at: None,
    };

    state.record_rate_limit(130, 120);
    assert_eq!(state.cooldown, Some(Duration::from_secs(30)));

    state.record_rate_limit(130, 160);
    assert_eq!(state.cooldown, Some(Duration::from_secs(63)));
    assert_eq!(state.next_changeip_available_at, Some(163));
}

#[test]
fn successful_change_sets_next_available_when_cooldown_is_known() {
    let mut state = ChangeIpCooldownState {
        cooldown: Some(Duration::from_secs(60)),
        last_changeip_at: None,
        next_changeip_available_at: None,
    };

    state.record_success(1000);

    assert_eq!(state.last_changeip_at, Some(1000));
    assert_eq!(state.next_changeip_available_at, Some(1060));
}

#[test]
fn known_cooldown_can_be_reported_without_requesting_api() {
    let state = ChangeIpCooldownState {
        cooldown: Some(Duration::from_secs(60)),
        last_changeip_at: Some(1000),
        next_changeip_available_at: Some(1060),
    };

    let hit = state.cooldown_hit_at(1001).unwrap();

    assert_eq!(hit.remaining, Duration::from_secs(59));
    assert_eq!(
        manual_cooldown_message(hit.remaining),
        "⏳ 换 IP 频率限制中\n\n预计 59 秒后可再次换 IP"
    );
}

#[test]
fn reconnect_succeeds_with_one_change_request() {
    let mut mock = Mock::start(vec![
        ip(r#"{"ok":true,"ip":"42.1.1.1"}"#),
        accepted(),
        ip(r#"{"ok":true,"ip":"42.1.1.2"}"#),
    ]);

    let result = reconnect_one(&mut mock, &server("success", true), policy(3));

    assert_eq!(result.status, ReconnectStatus::Success);
    assert!(result.changed);
    assert_eq!(result.poll_attempts, 1);
    assert_eq!(result.uses_left, Some(2));
    assert_eq!(result.message.as_deref(), Some(SUCCESS_MESSAGE));
    assert_eq!(mock.change_count(), 1);
}

#[test]
fn reconnect_polls_without_repeating_change() {
    let mut mock = Mock::start(vec![
        ip(r#"{"ok":true,"ip":"42.1.1.1"}"#),
        accepted(),
        ip(r#"{"ok":true,"ip":"42.1.1.1"}"#),
        ip(r#"{"ok":true,"ip":"42.1.1.1"}"#),
        ip(r#"{"ok":true,"ip":"42.1.1.2"}"#),
    ]);

    let result = reconnect_one(&mut mock, &server("poll", true), policy(3));

    assert_eq!(result.status, ReconnectStatus::Success);
    assert_eq!(result.poll_attempts, 3);
    assert_eq!(mock.change_count(), 1);
}

#[test]
fn unchanged_ip_is_unconfirmed_without_second_change() {
    let mut mock = Mock::start(vec![
        ip(r#"{"ok":true,"ip":"42.1.1.1"}"#),
        accepted(),
        ip(r#"{"ok":true,"ip":"42.1.1.1"}"#),
        ip(r#"{"ok":true,"ip":"42.1.1.1"}"#),
    ]);

    let result = reconnect_one(&mut mock, &server("unchanged", true), policy(2));

    assert_eq!(result.status, ReconnectStatus::ChangeAcceptedButUnconfirmed);
    assert_eq!(result.poll_attempts, 2);
    assert_eq!(mock.change_count(), 1);
}

#[test]
fn transient_http_400_then_new_ip_succeeds_without_second_change() {
    let mut mock = Mock::start(vec![
        ip(r#"{"ok":true,"ip":"42.1.1.1"}"#),
        accepted(),
        response(400, r#"{"error":"temporary backend error"}"#),
        ip(r#"{"ok":true,"ip":"42.1.1.2"}"#),
    ]);

    let result = reconnect_one(&mut mock, &server("http-400", true), policy(3));

    assert_eq!(result.status, ReconnectStatus::Success);
    assert!(result.changed);
    assert_eq!(result.poll_attempts, 2);
    assert_eq!(mock.change_count(), 1);
}

#[test]
fn three_http_400_responses_are_unconfirmed_without_second_change() {
    let mut mock = Mock::start(vec![
        ip(r#"{"ok":true,"ip":"42.1.1.1"}"#),
        accepted(),
        response(400, r#"{"error":"temporary backend error"}"#),
        response(400, r#"{"error":"temporary backend error"}"#),
        response(400, r#"{"error":"temporary backend error"}"#),
    ]);

    let result = reconnect_one(&mut mock, &server("http-400", true), policy(3));

    assert_eq!(result.status, ReconnectStatus::ChangeAcceptedButUnconfirmed);
    assert_eq!(result.poll_attempts, 3);
    assert_eq!(mock.change_count(), 1);
    assert_eq!(mock.records.len(), 5);
    assert_eq!(result.message.as_deref(), Some(UNCONFIRMED_MESSAGE));
}

#[test]
fn preflight_failure_never_calls_change() {
    let mut mock = Mock::start(vec![response(500, "server unavailable")]);

    let result = reconnect_one(&mut mock, &server("preflight", true), policy(1));

    assert_eq!(result.status, ReconnectStatus::PreflightFailed);
    assert_eq!(mock.change_count(), 0);
}

#[test]
fn rejected_change_is_not_retried_or_polled() {
    let mut mock = Mock::start(vec![
        ip(r#"{"ok":true,"ip":"42.1.1.1"}"#),
        response(400, r#"{"error":"quota exhausted"}"#),
    ]);

    let result = reconnect_one(&mut mock, &server("rejected", true), policy(3));

    assert_eq!(result.status, ReconnectStatus::ApiRejected);
    assert_eq!(result.poll_attempts, 0);
    assert_eq!(mock.change_count(), 1);
    assert_eq!(mock.records.len(), 2);
    assert!(result
        .message
        .as_deref()
        .unwrap_or_default()
        .contains("quota exhausted"));
}

#[test]
fn background_change_waits_and_retries_current_server_after_rate_limit() {
    let mut mock = Mock::start(vec![
        ip(r#"{"ok":true,"ip":"42.1.1.1"}"#),
        rate_limited(1_000_000 - 2),
        accepted(),
        ip(r#"{"ok":true,"ip":"42.1.1.2"}"#),
    ]);
    let mut seen = Seen::default();

    let result = run(
        &mut mock,
        &server("rate-limit", true),
        policy(3),
        None,
        ChangeIpCooldownMode::Wait,
        &mut ChangeIpCooldownState::default(),
        &mut seen,
    );

    assert_eq!(result.status, ReconnectStatus::Success);
    assert_eq!(mock.change_count(), 2);
    assert_eq!(seen.waits.len(), 1);
    assert!(seen.waits[0].0 > 0);
    assert_eq!(seen.waits[0].1, 1);
    assert_eq!(
        mock.records,
        vec![
            "/api/v1/getIP",
            "/api/v1/changeIP/",
            "/api/v1/changeIP/",
            "/api/v1/getIP",
        ]
    );
}

#[test]
fn uncertain_change_response_polls_and_can_confirm_success() {
    let mut mock = Mock::start(vec![
        ip(r#"{"ok":true,"ip":"42.1.1.1"}"#),
        Reply::Disconnect,
        ip(r#"{"ok":true,"ip":"42.1.1.2"}"#),
    ]);

    let result = reconnect_one(&mut mock, &server("uncertain-change", true), policy(3));

    assert_eq!(result.status, ReconnectStatus::Success);
    assert!(result.changed);
    assert_eq!(result.old_ip.map(|ip| ip.text).as_deref(), Some("42.1.1.1"));
    assert_eq!(result.new_ip.map(|ip| ip.text).as_deref(), Some("42.1.1.2"));
    assert_eq!(result.poll_attempts, 1);
    assert_eq!(mock.change_count(), 1);
    assert_eq!(mock.records.len(), 3);
}

#[test]
fn provided_current_ip_skips_duplicate_preflight_get_ip() {
    let mut mock = Mock::start(vec![accepted(), ip(r#"{"ok":true,"ip":"42.1.1.2"}"#)]);
    let mut seen = Seen::default();

    let result = run(
        &mut mock,
        &server("prefetched", true),
        policy(3),
        Some("42.1.1.1"),
        ChangeIpCooldownMode::FailFast,
        &mut ChangeIpCooldownState::default(),
        &mut seen,
    );

    assert_eq!(result.status, ReconnectStatus::Success);
    assert_eq!(mock.records, vec!["/api/v1/changeIP/", "/api/v1/getIP"]);
    assert_eq!(seen.verifying, vec!["42.1.1.1"]);
}

#[test]
fn accepted_change_with_invalid_poll_is_unconfirmed() {
    let mut mock = Mock::start(vec![
        ip(r#"{"ok":true,"ip":"42.1.1.1"}"#),
        accepted(),
        response(200, "not-json"),
    ]);

    let result = reconnect_one(&mut mock, &server("unconfirmed", true), policy(3));

    assert_eq!(result.status, ReconnectStatus::ChangeAcceptedButUnconfirmed);
    assert_eq!(result.poll_attempts, 3);
    assert_eq!(mock.change_count(), 1);
}

#[test]
fn accepted_change_with_network_failure_is_unconfirmed() {
    let mut mock = Mock::start(vec![
        ip(r#"{"ok":true,"ip":"42.1.1.1"}"#),
        accepted(),
        Reply::Disconnect,
    ]);

    let result = reconnect_one(&mut mock, &server("network", true), policy(3));

    assert_eq!(result.status, ReconnectStatus::ChangeAcceptedButUnconfirmed);
    assert_eq!(result.poll_attempts, 3);
    assert_eq!(mock.change_count(), 1);
}

#[test]
fn invalid_preflight_ip_has_explicit_status_and_no_change() {
    let mut mock = Mock::start(vec![ip(r#"{"ok":true,"ip":"invalid"}"#)]);

    let result = reconnect_one(&mut mock, &server("invalid", true), policy(1));

    assert_eq!(result.status, ReconnectStatus::InvalidResponse);
    assert_eq!(mock.change_count(), 0);
    assert!(!format!("{result:?}").contains(&test_credential()));
}

#[test]
fn disabled_server_makes_no_http_request() {
    let mut mock = Mock::start(Vec::new());

    let result = reconnect_one(&mut mock, &server("disabled", false), policy(1));

    assert_eq!(result.status, ReconnectStatus::Disabled);
    assert_eq!(mock.records.len(), 0);
}

#[test]
fn unspecified_multiple_servers_fail_before_http() {
    let mut mock = Mock::start(Vec::new());
    let config = config(vec![server("a", true), server("b", true)]);

    let error = reconnect_selected(&mut mock, &config, ServerSelection::Unspecified, policy(1))
        .err()
        .unwrap();

    assert!(error.contains("必须明确指定"));
    assert_eq!(mock.records.len(), 0);
}

#[test]
fn all_with_no_enabled_servers_fails_before_http() {
    let mut mock = Mock::start(Vec::new());
    let config = config(vec![server("disabled-a", false), server("disabled-b", false)]);

    let error = reconnect_selected(&mut mock, &config, ServerSelection::All, policy(1))
        .err()
        .unwrap();

    assert!(error.contains("没有已启用"));
    assert_eq!(mock.records.len(), 0);
}

#[test]
fn all_runs_in_configuration_order() {
    let mut mock = Mock::start(vec![
        ip(r#"{"ok":true,"ip":"42.1.1.1"}"#),
        accepted(),
        ip(r#"{"ok":true,"ip":"42.1.1.2"}"#),
        ip(r#"{"ok":true,"ip":"42.2.2.1"}"#),
        accepted(),
        ip(r#"{"ok":true,"ip":"42.2.2.2"}"#),
    ]);
    let config = config(vec![
        server("a", true),
        server("ignored", false),
        server("b", true),
    ]);

    let batch = match reconnect_selected(&mut mock, &config, ServerSelection::All, policy(1)) {
        Ok(b) => b,
        Err(e) => panic!("{e}"),
    };

    assert_eq!(
        batch
            .results
            .iter()
            .map(|result| result.server_id.as_str())
            .collect::<Vec<_>>(),
        vec!["a", "b"]
    );
    assert_eq!(batch.success_count(), 2);
    assert_eq!(
        mock.records,
        vec![
            "/api/v1/getIP",
            "/api/v1/changeIP/",
            "/api/v1/getIP",
            "/api/v1/getIP",
            "/api/v1/changeIP/",
            "/api/v1/getIP",
        ]
    );
}

#[test]
fn batch_continues_after_partial_failure() {
    let mut mock = Mock::start(vec![
        ip(r#"{"ok":true,"ip":"42.1.1.1"}"#),
        accepted(),
        ip(r#"{"ok":true,"ip":"42.1.1.2"}"#),
        ip(r#"{"ok":true,"ip":"42.2.2.1"}"#),
        response(400, r#"{"error":"denied"}"#),
        ip(r#"{"ok":true,"ip":"42.3.3.1"}"#),
        accepted(),
        ip(r#"{"ok":true,"ip":"42.3.3.2"}"#),
    ]);
    let config = config(vec![server("a", true), server("b", true), server("c", true)]);

    let batch = match reconnect_selected(&mut mock, &config, ServerSelection::All, policy(1)) {
        Ok(b) => b,
        Err(e) => panic!("{e}"),
    };

    assert_eq!(batch.results.len(), 3);
    assert_eq!(batch.results[0].status, ReconnectStatus::Success);
    assert_eq!(batch.results[1].status, ReconnectStatus::ApiRejected);
    assert_eq!(batch.results[2].status, ReconnectStatus::Success);
    assert_eq!(batch.success_count(), 2);
    assert_eq!(batch.failure_count(), 1);
    assert_eq!(batch.unconfirmed_count(), 0);
}

#[test]
fn result_and_messages_do_not_expose_token() {
    let leaked = format!(r#"{{"error":"{} denied"}}"#, test_credential());
    let mut mock = Mock::start(vec![
        ip(r#"{"ok":true,"ip":"42.1.1.1"}"#),
        response(400, &leaked),
    ]);

    let result = reconnect_one(&mut mock, &server("redacted", true), policy(1));
    let rendered = format!("{result:?} {}", result.message.as_deref().unwrap_or_default());

    assert!(!rendered.contains(&test_credential()));
    assert!(rendered.contains("<redacted>"));
}

#[test]
fn negative_next_allowed_timestamp_is_discarded() {
    let mut mock = Mock::start(vec![
        ip(r#"{"ok":true,"ip":"42.1.1.1"}"#),
        response(
            200,
            r#"{"ok":true,"message":"accepted","next_allowed_at":-1}"#,
        ),
        ip(r#"{"ok":true,"ip":"42.1.1.2"}"#),
    ]);

    let result = reconnect_one(&mut mock, &server("timestamp", true), policy(1));

    assert_eq!(result.status, ReconnectStatus::Success);
    assert_eq!(result.next_allowed_at, None);
}

#[test]
fn a_change_that_is_too_early_is_given_up_in_the_fast_mode() {
    let mut mock = Mock::start(vec![
        ip(r#"{"ok":true,"ip":"42.1.1.1"}"#),
        rate_limited(1_000_100),
    ]);
    let mut state = ChangeIpCooldownState::default();
    let first = run(
        &mut mock,
        &server("limited", true),
        policy(3),
        None,
        ChangeIpCooldownMode::FailFast,
        &mut state,
        &mut Seen::default(),
    );
    assert_eq!(first.status, ReconnectStatus::RateLimited);
    assert_eq!(mock.change_count(), 1);
    assert!(state.next_changeip_available_at.is_some());

    let second = run(
        &mut mock,
        &server("limited", true),
        policy(3),
        Some("42.1.1.1"),
        ChangeIpCooldownMode::FailFast,
        &mut state,
        &mut Seen::default(),
    );
    assert_eq!(second.status, ReconnectStatus::RateLimited);
    assert_eq!(mock.change_count(), 1);
    assert_eq!(second.next_allowed_at, state.next_changeip_available_at);
}

#[test]
fn waiting_times_are_written_out() {
    assert_eq!(format_wait_duration(Duration::from_secs(59)), "59 秒");
    assert_eq!(format_wait_duration(Duration::from_secs(60)), "1 分钟");
    assert_eq!(format_wait_duration(Duration::from_secs(61)), "2 分钟");
    assert_eq!(format_wait_duration(Duration::from_secs(3600)), "1 小时");
    assert_eq!(format_wait_duration(Duration::from_secs(3660)), "1 小时 1 分钟");
}

#[test]
fn the_last_number_of_a_text_is_found() {
    assert_eq!(last_integer_in_text("a 12 b 34"), Some(34));
    assert_eq!(last_integer_in_text("a 12 b -3"), Some(3));
    assert_eq!(last_integer_in_text("none"), None);
    assert_eq!(unix_seconds(Some(7)), 7);
    assert_eq!(unix_seconds(None), 0);
    assert_eq!(unix_seconds(Some(u64::MAX)), i64::MAX);
    assert_eq!(cooldown_hit_or_zero(100, 130).available_at, 133);
}

#[test]
fn what_was_learnt_is_kept_in_the_configuration() {
    let state = ChangeIpCooldownState {
        cooldown: Some(Duration::from_secs(63)),
        last_changeip_at: Some(5),
        next_changeip_available_at: Some(68),
    };
    let kept = state.to_config();
    assert_eq!(
        kept,
        Some(ChangeIpCooldownConfig {
            cooldown_seconds: Some(63),
            last_changeip_at: Some(5),
            next_changeip_available_at: Some(68),
        })
    );
    assert_eq!(ChangeIpCooldownState::from_persisted(&kept), state);
    assert_eq!(ChangeIpCooldownState::default().to_config(), None);
}
