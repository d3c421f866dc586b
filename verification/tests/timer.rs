use boilchangeip::boil::IpAddress;
use boilchangeip::config::{
    AppConfig, SecretToken, ServerConfig, ServerSelection, ServerTimerConfig,
};
use boilchangeip::reconnect::{BatchReconnectResult, ReconnectResult, ReconnectStatus};
use boilchangeip::time::Duration;
use boilchangeip::timer::auto::{notification_chat, AutoRun};
use boilchangeip::timer::message::{
    format_timer_batch_result, format_timer_result, format_timer_retry_success,
    timer_cooldown_wait_message, timer_preflight_failed_message, timer_reason,
    timer_retry_get_ip_failed_message, timer_retry_start_message,
};
use boilchangeip::timer::retry::{
    retry_server_if_still_valid, timer_retry_key, RetryRun, RetryStart, TimerRetryAttempt,
    TimerRetryRegistry, TimerRetrySource,
};
use boilchangeip::timer::{
    apply_timer_update, cron_to_hhmm, daily_cron_from_hhmm, parse_hhmm, timer_jobs, timer_status,
    TimerError, TimerManager, TimerTarget, TimerUpdate,
};
use serde_json::Value;

fn app_config() -> AppConfig {
    AppConfig {
        servers: vec![
            ServerConfig {
                id: "a".to_string(),
                name: "A".to_string(),
                token: SecretToken::from_stored("token-a".to_string()),
                enabled: true,
                address: None,
                country: None,
                flag: None,
                resolved_ip: None,
                timer: Some(ServerTimerConfig {
                    enabled: true,
                    cron: Some("0 */6 * * *".to_string()),
                }),
            },
            ServerConfig {
                id: "b".to_string(),
                name: "B".to_string(),
                token: SecretToken::from_stored("token-b".to_string()),
                enabled: false,
                address: None,
                country: None,
                flag: None,
                resolved_ip: None,
                timer: Some(ServerTimerConfig {
                    enabled: true,
                    cron: Some("0 */6 * * *".to_string()),
                }),
            },
        ],
        ..with_servers(Vec::new(), None)
    }
}

fn with_servers(servers: Vec<ServerConfig>, global: Option<&str>) -> AppConfig {
    AppConfig {
        servers,
        global_timer: global.map(|cron| ServerTimerConfig {
            enabled: true,
            cron: Some(cron.to_string()),
        }),
        change_ip_cooldown: None,
        tg_token: None,
        tg_chat_id: None,
        tg_pair_code: None,
        tg_pair_expires_at: None,
        migration_notice: None,
    }
}

fn enabled_server(id: &str, cron: Option<&str>, timer_enabled: bool) -> ServerConfig {
    ServerConfig {
        id: id.to_string(),
        name: format!("Server {id}"),
        token: SecretToken::from_stored(format!("token-{id}")),
        enabled: true,
        address: None,
        country: None,
        flag: None,
        resolved_ip: None,
        timer: cron.map(|cron| ServerTimerConfig {
            enabled: timer_enabled,
            cron: Some(cron.to_string()),
        }),
    }
}

fn address(text: &str) -> IpAddress {
    IpAddress { text: text.to_string() }
}

fn reconnect_result(name: &str, status: ReconnectStatus) -> ReconnectResult {
    ReconnectResult {
        server_id: name.to_lowercase(),
        server_name: name.to_string(),
        old_ip: Some(address("42.1.1.1")),
        new_ip: (status == ReconnectStatus::Success).then_some(address("42.1.1.2")),
        changed: status == ReconnectStatus::Success,
        uses_left: (status == ReconnectStatus::Success).then_some(997),
        next_allowed_at: Some(1785100089),
        status,
        message: Some("Boil API 请求超时".to_string()),
        poll_attempts: 3,
    }
}

fn cron_of(timer: &Option<ServerTimerConfig>) -> Option<&str> {
    timer.as_ref().and_then(|timer| timer.cron.as_deref())
}

fn update(config: &mut AppConfig, update: TimerUpdate) {
    if let Err(e) = apply_timer_update(config, update) {
        panic!("{}", e.message());
    }
}

fn encoded_timer(t: &ServerTimerConfig) -> Value {
    let mut m = serde_json::Map::new();
    m.insert("enabled".to_string(), Value::from(t.enabled));
    m.insert("cron".to_string(), Value::from(t.cron.clone().unwrap()));
    Value::Object(m)
}

fn encoded_server(s: &ServerConfig) -> Value {
    let mut m = serde_json::Map::new();
    m.insert("id".to_string(), Value::from(s.id.clone()));
    m.insert("name".to_string(), Value::from(s.name.clone()));
    m.insert("token".to_string(), Value::from(s.token.expose_secret()));
    m.insert("enabled".to_string(), Value::from(s.enabled));
    m.insert("timer".to_string(), encoded_timer(s.timer.as_ref().unwrap()));
    Value::Object(m)
}

fn decoded_timer(v: &Value) -> ServerTimerConfig {
    ServerTimerConfig {
        enabled: v["enabled"].as_bool().unwrap(),
        cron: v["cron"].as_str().map(str::to_string),
    }
}

fn decoded_server(v: &Value) -> ServerConfig {
    ServerConfig {
        id: v["id"].as_str().unwrap().to_string(),
        name: v["name"].as_str().unwrap().to_string(),
        token: SecretToken::from_stored(v["token"].as_str().unwrap().to_string()),
        enabled: v["enabled"].as_bool().unwrap(),
        address: None,
        country: None,
        flag: None,
        resolved_ip: None,
        timer: Some(decoded_timer(&v["timer"])),
    }
}

#[test]
fn current_lists_only_enabled_timer_entries() {
    let jobs = timer_jobs(&app_config());
    assert_eq!(jobs.len(), 1);
    assert_eq!(jobs[0].target, TimerTarget::Server("a".to_string()));
}

#[test]
fn missing_timer_server_does_not_fallback() {
    let config = app_config();
    let error = match config.resolve_servers(ServerSelection::Id("missing")) {
        Ok(_) => panic!("expected an error"),
        Err(e) => e.message(),
    };
    assert!(error.contains("未找到 server id"));
    assert!(!error.contains("token-a"));
}

#[test]
fn hhmm_accepts_valid_daily_times() {
    assert_eq!(parse_hhmm("00:00").ok(), Some((0, 0)));
    assert_eq!(parse_hhmm("23:59").ok(), Some((23, 59)));
    assert_eq!(daily_cron_from_hhmm("03:30").ok().as_deref(), Some("30 3 * * *"));
    assert_eq!(cron_to_hhmm("30 3 * * *").as_deref(), Some("03:30"));
}

#[test]
fn hhmm_rejects_invalid_times() {
    for input in ["3:30", "24:00", "12:60", "aa:bb", "12-30"] {
        assert!(parse_hhmm(input).is_err(), "{input} should be rejected");
    }
}

#[test]
fn global_timer_and_single_server_timers_can_coexist() {
    let mut config = app_config();
    update(
        &mut config,
        TimerUpdate::Enable {
            target: TimerTarget::AllEnabled,
            hhmm: "03:30".to_string(),
        },
    );

    assert_eq!(cron_of(&config.global_timer), Some("30 3 * * *"));
    assert_eq!(cron_of(&config.servers[0].timer), Some("0 */6 * * *"));
    assert_eq!(cron_of(&config.servers[1].timer), Some("0 */6 * * *"));
}

#[test]
fn setting_global_timer_does_not_override_single_server_timer() {
    let mut config = with_servers(vec![enabled_server("a", Some("0 8 * * *"), true)], None);

    update(
        &mut config,
        TimerUpdate::Enable {
            target: TimerTarget::AllEnabled,
            hhmm: "03:30".to_string(),
        },
    );

    assert_eq!(cron_of(&config.global_timer), Some("30 3 * * *"));
    assert_eq!(cron_of(&config.servers[0].timer), Some("0 8 * * *"));
}

#[test]
fn single_server_timer_update_changes_only_that_server() {
    let mut config = with_servers(
        vec![
            enabled_server("a", Some("0 1 * * *"), true),
            enabled_server("b", Some("0 2 * * *"), true),
        ],
        Some("30 3 * * *"),
    );

    update(
        &mut config,
        TimerUpdate::Enable {
            target: TimerTarget::Server("b".to_string()),
            hhmm: "04:45".to_string(),
        },
    );

    assert_eq!(cron_of(&config.servers[0].timer), Some("0 1 * * *"));
    assert_eq!(cron_of(&config.servers[1].timer), Some("45 4 * * *"));
    assert_eq!(cron_of(&config.global_timer), Some("30 3 * * *"));
}

#[test]
fn disabling_timer_preserves_time() {
    let mut config = with_servers(
        vec![enabled_server("a", Some("30 3 * * *"), true)],
        Some("0 1 * * *"),
    );

    update(
        &mut config,
        TimerUpdate::Disable {
            target: TimerTarget::Server("a".to_string()),
        },
    );

    let timer = config.servers[0].timer.as_ref().unwrap();
    assert!(!timer.enabled);
    assert_eq!(timer.cron.as_deref(), Some("30 3 * * *"));
    assert!(config.global_timer.as_ref().unwrap().enabled);
}

#[test]
fn disabling_global_timer_preserves_single_server_timers() {
    let mut config = with_servers(
        vec![enabled_server("a", Some("0 8 * * *"), true)],
        Some("30 3 * * *"),
    );

    update(
        &mut config,
        TimerUpdate::Disable {
            target: TimerTarget::AllEnabled,
        },
    );

    let global = config.global_timer.as_ref().unwrap();
    assert!(!global.enabled);
    assert_eq!(global.cron.as_deref(), Some("30 3 * * *"));
    assert!(config.servers[0].timer.as_ref().unwrap().enabled);
}

#[test]
fn timer_status_restores_global_and_single_timers_after_reload() {
    let config = with_servers(
        vec![enabled_server("a", Some("30 3 * * *"), true)],
        Some("45 4 * * *"),
    );

    let serialized = format!("[{}]", encoded_server(&config.servers[0]));
    let global_timer = encoded_timer(config.global_timer.as_ref().unwrap()).to_string();
    let servers: Value = serde_json::from_str(&serialized).unwrap();
    let timer: Value = serde_json::from_str(&global_timer).unwrap();
    let reloaded = match AppConfig::from_env_vars(
        &[
            ("BOIL_SERVERS".to_string(), serialized),
            ("BOIL_GLOBAL_TIMER".to_string(), global_timer),
        ],
        servers
            .as_array()
            .map(|list| list.iter().map(decoded_server).collect()),
        Some(decoded_timer(&timer)),
    ) {
        Ok(c) => c,
        Err(e) => panic!("{}", e.message()),
    };
    let status = timer_status(&reloaded);

    assert_eq!(status.timezone, "Asia/Shanghai");
    assert_eq!(status.global_time.as_deref(), Some("04:45"));
    assert!(status.global_timer_enabled);
    assert_eq!(status.servers[0].time.as_deref(), Some("03:30"));
    assert!(status.servers[0].timer_enabled);
}

#[test]
fn reload_replaces_global_and_single_jobs_without_duplicates() {
    let mut manager = TimerManager::new(with_servers(
        vec![
            enabled_server("a", Some("59 23 * * *"), true),
            enabled_server("b", Some("58 23 * * *"), true),
        ],
        Some("57 23 * * *"),
    ));

    assert_eq!(manager.job_count(), 3);
    manager.reload();
    assert_eq!(manager.job_count(), 3);
    manager.clear();
    assert_eq!(manager.job_count(), 0);
}

#[test]
fn timer_single_result_uses_human_readable_text() {
    let text = format_timer_result(&reconnect_result("Taiwan VPS", ReconnectStatus::Success));

    assert!(text.contains("⏰ 定时换 IP 完成"));
    assert!(text.contains("📡 Taiwan VPS"));
    assert!(text.contains("✅ 换 IP 成功"));
    assert!(text.contains("旧 IP：42.1.1.1"));
    assert!(text.contains("新 IP：42.1.1.2"));
    assert!(text.contains("剩余次数：997"));
    assert!(!text.contains("Success"));
    assert!(!text.contains("changed=false"));
    assert!(!text.contains("1785100089"));
}

#[test]
fn timer_batch_result_summarizes_success_unconfirmed_and_failed() {
    let batch = BatchReconnectResult {
        results: vec![
            reconnect_result("Taiwan VPS", ReconnectStatus::Success),
            reconnect_result("Hong Kong VPS", ReconnectStatus::ApiRejected),
            reconnect_result("Japan VPS", ReconnectStatus::ChangeAcceptedButUnconfirmed),
        ],
    };

    let text = format_timer_batch_result(&batch);

    assert!(text.contains("✅ 成功：1"));
    assert!(text.contains("⚠️ 待确认：1"));
    assert!(text.contains("❌ 失败：1"));
    assert!(text.contains("📡 Taiwan VPS"));
    assert!(text.contains("📡 Hong Kong VPS"));
    assert!(text.contains("📡 Japan VPS"));
    assert!(text.contains("⚠️ 换 IP 已提交，但暂时无法确认结果"));
    assert!(text.contains("原因：查询新 IP 超时或暂时失败，请稍后使用 /status 查看"));
    assert!(!text.contains("success="));
    assert!(!text.contains("NetworkError"));
    assert!(!text.contains("PreflightFailed"));
    assert!(!text.contains("changed=false"));
}

#[test]
fn timer_preflight_retry_messages_match_background_retry_flow() {
    assert_eq!(
        timer_preflight_failed_message(),
        [
            "❌ 换 IP失败",
            "",
            "原因：",
            "",
            "换 IP 前查询当前 IP 失败，",
            "",
            "未发送换 IP 请求。",
            "",
            "⏳ 将于 5 分钟后开始第一次重新获取 IP。",
        ]
        .join("\n")
    );
    assert_eq!(
        timer_retry_start_message(TimerRetryAttempt::First, "Taiwan VPS"),
        "🔄 现在开始第一次重新获取 IP……\n\n📡 Taiwan VPS"
    );
    assert_eq!(
        timer_retry_get_ip_failed_message(TimerRetryAttempt::First),
        "⚠️ 第一次重新获取 IP 失败。\n\n⏳ 将于 30 分钟后开始第二次重新获取 IP。"
    );
    assert_eq!(
        timer_retry_get_ip_failed_message(TimerRetryAttempt::Second),
        "⚠️ 第二次重新获取 IP 失败。\n\n⏳ 将于 1 小时后开始第三次重新获取 IP。"
    );
    assert_eq!(
        timer_retry_get_ip_failed_message(TimerRetryAttempt::Third),
        "❌ 第三次重新获取 IP 失败。\n\n流程结束，\n\n请管理员手动处理。"
    );
}

#[test]
fn timer_cooldown_wait_message_says_background_will_continue() {
    assert_eq!(
        timer_cooldown_wait_message("Taiwan VPS", Duration::from_secs(59)),
        "⏳ 换 IP 频率限制中\n\n📡 Taiwan VPS\n\n预计 59 秒后继续换 IP"
    );
    assert_eq!(
        timer_cooldown_wait_message("Taiwan VPS", Duration::from_secs(61)),
        "⏳ 换 IP 频率限制中\n\n📡 Taiwan VPS\n\n预计 2 分钟后继续换 IP"
    );
}

#[test]
fn timer_retry_success_message_hides_internal_details() {
    let text =
        format_timer_retry_success(&reconnect_result("Taiwan VPS", ReconnectStatus::Success));

    assert!(text.contains("✅ 重试换 IP 成功"));
    assert!(text.contains("📡 Taiwan VPS"));
    assert!(text.contains("旧 IP：\n\n42.1.1.1"));
    assert!(text.contains("新 IP：\n\n42.1.1.2"));
    assert!(!text.contains("剩余次数"));
    assert!(!text.contains("997"));
    assert!(!text.contains("Success"));
    assert!(!text.contains("Boil API"));
}

#[test]
fn timer_retry_registry_rejects_duplicate_pending_retry() {
    let mut pending = TimerRetryRegistry::new();
    let key = "test-duplicate-retry:a";
    pending.clear_timer_retry_pending(key);

    assert!(pending.mark_timer_retry_pending(key));
    assert!(!pending.mark_timer_retry_pending(key));
    pending.clear_timer_retry_pending(key);
    assert!(pending.mark_timer_retry_pending(key));
    pending.clear_timer_retry_pending(key);
}

#[test]
fn timer_retry_recheck_requires_server_token_and_timer_to_match() {
    let original = SecretToken::from_stored("token-a".to_string());
    let mut config = app_config();

    assert!(retry_server_if_still_valid(
        &config,
        "a",
        &original,
        TimerRetrySource::SingleServer
    )
    .is_some());

    config.servers[0].enabled = false;
    assert!(retry_server_if_still_valid(
        &config,
        "a",
        &original,
        TimerRetrySource::SingleServer
    )
    .is_none());

    config = app_config();
    config.servers[0].token = SecretToken::from_stored("new-token-a".to_string());
    assert!(retry_server_if_still_valid(
        &config,
        "a",
        &original,
        TimerRetrySource::SingleServer
    )
    .is_none());

    config = app_config();
    config.servers[0].timer.as_mut().unwrap().enabled = false;
    assert!(retry_server_if_still_valid(
        &config,
        "a",
        &original,
        TimerRetrySource::SingleServer
    )
    .is_none());
}

#[test]
fn timer_retry_recheck_uses_global_timer_for_global_retry() {
    let original = SecretToken::from_stored("token-a".to_string());
    let mut config = app_config();
    config.global_timer = Some(ServerTimerConfig {
        enabled: true,
        cron: Some("0 3 * * *".to_string()),
    });
    config.servers[0].timer = None;

    assert!(retry_server_if_still_valid(
        &config,
        "a",
        &original,
        TimerRetrySource::GlobalTimer
    )
    .is_some());

    config.global_timer.as_mut().unwrap().enabled = false;
    assert!(retry_server_if_still_valid(
        &config,
        "a",
        &original,
        TimerRetrySource::GlobalTimer
    )
    .is_none());
}

#[test]
fn times_are_refused_with_a_reason() {
    let reason = |t: &str| match parse_hhmm(t) {
        Ok(_) => panic!("expected an error"),
        Err(e) => e.message(),
    };
    assert_eq!(parse_hhmm("3:30").err(), Some(TimerError::BadTime));
    assert_eq!(parse_hhmm("24:00").err(), Some(TimerError::BadHour));
    assert_eq!(parse_hhmm("12:60").err(), Some(TimerError::BadMinute));
    assert_ne!(reason("24:00"), reason("12:60"));
    assert_eq!(parse_hhmm(" 07:05 ").ok(), Some((7, 5)));
    assert_eq!(cron_to_hhmm("0 */6 * * *"), None);
    assert_eq!(cron_to_hhmm("0 24 * * *"), None);
    assert_eq!(cron_to_hhmm("5 7 * * *").as_deref(), Some("07:05"));
}

#[test]
fn a_timer_that_cannot_be_set_changes_nothing() {
    let mut config = app_config();
    for (target, error) in [
        (
            TimerTarget::Server("x".to_string()),
            TimerError::UnknownServer("x".to_string()),
        ),
        (
            TimerTarget::Server("b".to_string()),
            TimerError::DisabledServer("b".to_string()),
        ),
    ] {
        assert_eq!(
            apply_timer_update(
                &mut config,
                TimerUpdate::Enable {
                    target,
                    hhmm: "03:30".to_string()
                }
            )
            .err(),
            Some(error)
        );
        assert!(config == app_config());
    }
}

#[test]
fn an_entered_time_is_shown_and_scheduled() {
    let mut manager = TimerManager::new(with_servers(vec![enabled_server("a", None, true)], None));
    assert_eq!(manager.job_count(), 0);
    let next = match manager.apply_update(TimerUpdate::Enable {
        target: TimerTarget::Server("a".to_string()),
        hhmm: "04:05".to_string(),
    }) {
        Ok(c) => c,
        Err(e) => panic!("{}", e.message()),
    };
    assert_eq!(manager.job_count(), 0);
    manager.replace_config(next);
    assert_eq!(manager.job_count(), 1);
    assert_eq!(manager.scheduled()[0].expression, "0 5 4 * * *");
    assert_eq!(manager.status().servers[0].time.as_deref(), Some("04:05"));
    assert!(TimerManager::start(with_servers(Vec::new(), None)).is_err());
}

#[test]
fn a_timed_change_goes_through_the_servers() {
    let config = with_servers(
        vec![enabled_server("a", None, true), enabled_server("b", None, true)],
        Some("0 3 * * *"),
    );
    let mut run = match AutoRun::begin(&config, &TimerTarget::AllEnabled) {
        Ok(r) => r,
        Err(e) => panic!("{}", e.message()),
    };
    let mut names = Vec::new();
    loop {
        let name = match run.next() {
            Some((server, message)) => {
                assert!(message.contains(&server.name));
                server.name.clone()
            }
            None => break,
        };
        names.push(name.clone());
        run.record(reconnect_result(&name, ReconnectStatus::Success));
    }
    assert_eq!(names, vec!["Server a", "Server b"]);
    assert!(run.final_message().unwrap().contains("✅ 成功：2"));
}

#[test]
fn three_attempts_follow_a_failed_query() {
    let config = app_config();
    let (mut run, first) = RetryRun::start(&config.servers[0], TimerRetrySource::SingleServer);
    assert_eq!(first.as_secs(), 300);
    assert_eq!(run.key(), "single:a");
    assert_eq!(timer_retry_key("a", TimerRetrySource::GlobalTimer), "global:a");
    match run.begin_attempt(&config) {
        RetryStart::Query { server, message } => {
            assert_eq!(server.id, "a");
            assert!(message.contains("第一次"));
        }
        RetryStart::Cancel => panic!("expected an attempt"),
    }
    assert_eq!(run.query_failed().wait.map(|d| d.as_secs()), Some(1800));
    assert_eq!(run.query_failed().wait.map(|d| d.as_secs()), Some(3600));
    let last = run.query_failed();
    assert_eq!(last.wait, None);
    assert!(last.message.contains("请管理员手动处理"));
    let mut changed = app_config();
    changed.servers[0].enabled = false;
    assert!(matches!(run.begin_attempt(&changed), RetryStart::Cancel));
}

#[test]
fn notifications_go_to_a_chat_that_is_a_number() {
    let mut config = app_config();
    assert_eq!(notification_chat(&config), None);
    config.tg_token = Some("t".to_string());
    config.tg_chat_id = Some("-100".to_string());
    assert_eq!(notification_chat(&config), Some(-100));
    config.tg_chat_id = Some("me".to_string());
    assert_eq!(notification_chat(&config), None);
}

#[test]
fn reasons_are_given_for_each_status() {
    let reason = |s: ReconnectStatus| timer_reason(&reconnect_result("x", s));
    assert_eq!(reason(ReconnectStatus::Success), "换 IP 已完成");
    assert_eq!(reason(ReconnectStatus::Disabled), "这台 VPS 已禁用");
    assert_eq!(
        reason(ReconnectStatus::PreflightFailed),
        "换 IP 前查询当前 IP 失败，未发送换 IP 请求"
    );
    assert_eq!(reason(ReconnectStatus::RateLimited), "Boil API 请求超时");
    assert_eq!(reason(ReconnectStatus::InvalidResponse), "Boil API 响应无效");
}
