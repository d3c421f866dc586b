use boilchangeip::boil::{BoilApiError, GetIpResponse, IpAddress};
use boilchangeip::cli::{
    check_entry, check_failed_entry, cmd_servers_list, cmd_timer, daemon_mode,
    ensure_new_config_ready, menu_choice, menu_items, print_batch_result, print_reconnect_result,
    runs_on_boil_vps, selection_from_args, servers_for_command, status_entry, status_text,
    DaemonMode, MenuChoice,
};
use boilchangeip::config::{
    AppConfig, SecretToken, ServerConfig, ServerSelection, ServerTimerConfig,
};
use boilchangeip::ip_quality::{
    ip_quality_from_json, own_address, own_address_service, probe_port, quality_url, IpQuality,
};
use boilchangeip::reconnect::{BatchReconnectResult, ReconnectResult, ReconnectStatus};

fn server(id: &str, name: &str, enabled: bool) -> ServerConfig {
    ServerConfig {
        id: id.to_string(),
        name: name.to_string(),
        token: SecretToken::from_stored("hidden-token".to_string()),
        enabled,
        address: None,
        country: None,
        flag: None,
        resolved_ip: None,
        timer: None,
    }
}

fn config(servers: Vec<ServerConfig>) -> AppConfig {
    AppConfig {
        servers,
        global_timer: None,
        tg_token: None,
        tg_chat_id: None,
        tg_pair_code: None,
        tg_pair_expires_at: None,
        change_ip_cooldown: None,
        migration_notice: None,
    }
}

fn app_config() -> AppConfig {
    config(vec![server("hk-01", "Hong Kong 01", true)])
}

#[test]
fn server_and_all_are_conflicting_selection_options() {
    let error = selection_from_args(Some("hk-01"), true).unwrap_err();
    assert!(error.contains("--server 和 --all"));
}

#[test]
fn servers_list_output_never_uses_token_debug() {
    let config = app_config();
    let debug = config.debug_text();
    assert!(!debug.contains("hidden-token"));
    assert!(!cmd_servers_list(&config).unwrap().contains("hidden-token"));
}

#[test]
fn legacy_config_returns_migration_error() {
    let mut config = config(Vec::new());
    config.migration_notice = Some("legacy config".to_string());
    let error = ensure_new_config_ready(&config).unwrap_err();
    assert!(error.contains("legacy config"));
    assert!(!error.contains("BOIL_PASSWORD='"));
}

#[test]
fn options_select_servers() {
    assert_eq!(selection_from_args(Some("a"), false), Ok(ServerSelection::Id("a")));
    assert_eq!(selection_from_args(None, true), Ok(ServerSelection::All));
    assert_eq!(selection_from_args(None, false), Ok(ServerSelection::Unspecified));
}

#[test]
fn commands_say_which_servers_there_are() {
    let two = config(vec![
        server("a", "A", true),
        server("off", "Off", false),
        server("b", "B", true),
    ]);
    let ids = |r: Result<Vec<&ServerConfig>, String>| {
        r.map(|v| v.iter().map(|s| s.id.clone()).collect::<Vec<_>>())
    };
    assert_eq!(
        ids(servers_for_command(&two, None, true)),
        Ok(vec!["a".to_string(), "b".to_string()])
    );
    assert_eq!(ids(servers_for_command(&two, Some("b"), false)), Ok(vec!["b".to_string()]));
    assert_eq!(
        ids(servers_for_command(&two, None, false)),
        Err("检测到多台已启用 VPS，必须明确指定 server id 或使用 --all\n可用 server: a (A), b (B)".to_string())
    );
    assert_eq!(
        ids(servers_for_command(&two, Some("off"), false)),
        Err("server id 'off' 已禁用\n可用 server: a (A), b (B)".to_string())
    );
    assert_eq!(
        ids(servers_for_command(&config(vec![server("off", "Off", false)]), None, true)),
        Err("没有已启用的 VPS".to_string())
    );
    assert_eq!(
        ids(servers_for_command(&two, Some("a"), true)),
        Err("--server 和 --all 不能同时使用".to_string())
    );
    assert_eq!(
        ids(servers_for_command(&config(Vec::new()), None, false)),
        Err("缺少 BOIL_SERVERS 配置，请从 Boil 面板获取新版 Token 后配置。".to_string())
    );
}

#[test]
fn one_enabled_server_needs_no_name() {
    let one = config(vec![server("off", "Off", false), server("b", "B", true)]);
    let chosen = servers_for_command(&one, None, false).ok().unwrap();
    assert_eq!(chosen.len(), 1);
    assert_eq!(chosen[0].id, "b");
}

#[test]
fn lists_are_the_same_whatever_the_tokens_are() {
    let a = config(vec![server("a", "A", true), server("b", "B", false)]);
    let mut b = config(vec![server("a", "A", true), server("b", "B", false)]);
    b.servers[1].token = SecretToken::from_stored("another".to_string());
    assert_eq!(cmd_servers_list(&a), cmd_servers_list(&b));
    assert_eq!(cmd_timer(&a), cmd_timer(&b));
}

#[test]
fn lists_are_exact() {
    let mut c = config(vec![server("a", "A", true), server("b", "B", false)]);
    c.servers[0].timer = Some(ServerTimerConfig {
        enabled: true,
        cron: Some("30 3 * * *".to_string()),
    });
    assert_eq!(
        cmd_servers_list(&c).unwrap(),
        "VPS 列表\n\n  a | A | enabled | timer: 30 3 * * *\n  b | B | disabled | timer: 未启用\n"
    );
    assert_eq!(
        cmd_timer(&c).unwrap(),
        "定时换 IP 配置\n\n  A (a) | enabled | 30 3 * * *\n  B (b) | disabled\n\n请在 BOIL_SERVERS 中为每台 VPS 配置 timer.enabled 和 timer.cron。\n"
    );
}

fn ip(text: &str) -> IpAddress {
    IpAddress { text: text.to_string() }
}

#[test]
fn entries_are_exact() {
    let s = server("a", "A", true);
    assert_eq!(
        status_entry(&s, &Ok(GetIpResponse { ok: true, ip: ip("1.2.3.4") })),
        "  A (a)\n  IP: 1.2.3.4\n\n"
    );
    let error = BoilApiError::Transport("request timed out".to_string());
    let text = error.text();
    assert_eq!(
        check_failed_entry(&s, &error),
        format!("📍 A (a)\n   API 查询失败: {text}\n\n")
    );
    assert_eq!(status_entry(&s, &Err(error)), format!("  A (a)\n  查询失败: {text}\n\n"));
    assert_eq!(
        check_entry(
            &s,
            &ip("1.2.3.4"),
            true,
            &Some(IpQuality {
                country: "Japan".to_string(),
                isp: "ISP".to_string(),
                is_proxy: false,
                is_hosting: true,
            })
        ),
        "📍 A (a)\n   IP: 1.2.3.4  TCP 可达 ✅\n   地区: Japan | ISP: ISP\n   类型: 机房 ⚠️ | CF 风险: 高 ⚠️\n\n"
    );
    assert_eq!(
        check_entry(&s, &ip("1.2.3.4"), false, &None),
        "📍 A (a)\n   IP: 1.2.3.4  TCP 未通 ⚠️\n   IP 质量检测失败\n\n"
    );
}

#[test]
fn results_are_printed_with_a_summary() {
    let result = ReconnectResult {
        server_id: "a".to_string(),
        server_name: "A".to_string(),
        old_ip: Some(ip("1.1.1.1")),
        new_ip: Some(ip("1.1.1.2")),
        changed: true,
        uses_left: Some(3),
        next_allowed_at: Some(9),
        status: ReconnectStatus::Success,
        message: Some("m".to_string()),
        poll_attempts: 1,
    };
    let one = "A (a)\n  状态: 成功\n  旧 IP: 1.1.1.1\n  新 IP: 1.1.1.2\n  剩余次数: 3\n  下次允许时间: 9 (Unix)\n  信息: m\n\n";
    assert_eq!(print_reconnect_result(&result), one);
    assert_eq!(
        print_batch_result(&BatchReconnectResult { results: vec![result] }),
        format!("换 IP 结果: success=1 unconfirmed=0 failed=0\n\n{one}")
    );
    assert_eq!(status_text(&ReconnectStatus::InvalidResponse), "响应无效");
}

#[test]
fn the_daemon_needs_something_to_do() {
    let mut c = app_config();
    assert!(daemon_mode(&c).is_err());
    c.servers[0].timer = Some(ServerTimerConfig {
        enabled: true,
        cron: Some("30 3 * * *".to_string()),
    });
    assert_eq!(daemon_mode(&c), Ok(DaemonMode::Timer));
    c.tg_token = Some("t".to_string());
    assert_eq!(daemon_mode(&c), Ok(DaemonMode::Bot));
}

#[test]
fn the_daemon_runs_for_the_global_timer_alone() {
    let mut c = app_config();
    for server in &c.servers {
        assert!(server.timer.is_none());
    }
    c.global_timer = Some(ServerTimerConfig {
        enabled: true,
        cron: Some("30 3 * * *".to_string()),
    });
    assert_eq!(daemon_mode(&c), Ok(DaemonMode::Timer));
    c.global_timer = Some(ServerTimerConfig {
        enabled: false,
        cron: Some("30 3 * * *".to_string()),
    });
    assert!(daemon_mode(&c).is_err());
    c.global_timer = Some(ServerTimerConfig {
        enabled: true,
        cron: None,
    });
    assert!(daemon_mode(&c).is_err());
}

#[test]
fn the_menu_has_a_choice_for_each_line() {
    let items = menu_items();
    assert_eq!(items.len(), 7);
    assert!(items[2].contains("change"));
    assert_eq!(menu_choice(2), MenuChoice::Change);
    assert!(items[5].contains("setup"));
    assert_eq!(menu_choice(5), MenuChoice::Setup);
    assert_eq!(menu_choice(6), MenuChoice::Quit);
    assert_eq!(menu_choice(99), MenuChoice::Quit);
}

#[test]
fn the_own_machine_is_recognised() {
    assert!(runs_on_boil_vps(&Some(ip("1.1.1.1")), &vec![ip("2.2.2.2"), ip("1.1.1.1")]));
    assert!(!runs_on_boil_vps(&Some(ip("3.3.3.3")), &vec![ip("2.2.2.2")]));
    assert!(!runs_on_boil_vps(&None, &vec![ip("2.2.2.2")]));
    assert_eq!(own_address_service(0), Some("https://api.ipify.org"));
    assert_eq!(own_address_service(3), None);
    assert_eq!(own_address(" 1.2.3.4\n").as_deref(), Some("1.2.3.4"));
    assert_eq!(own_address("\n"), None);
    assert_eq!(
        [probe_port(0), probe_port(1), probe_port(2), probe_port(3)],
        [Some(80), Some(443), Some(22), None]
    );
}

#[test]
fn the_quality_of_an_address_is_read_from_json() {
    let q = ip_quality_from_json(
        r#"{"status":"success","country":"Japan","isp":"X","proxy":true,"hosting":false}"#,
    )
    .unwrap();
    assert_eq!(q.country, "Japan");
    assert_eq!(q.isp, "X");
    assert_eq!(q.ip_type(), "代理 ❌");
    assert_eq!(q.cf_risk(), "高 ⚠️");
    let q = ip_quality_from_json(r#"{"status":"success","proxy":"yes"}"#).unwrap();
    assert_eq!(q.country, "未知");
    assert_eq!(q.ip_type(), "住宅 ✅");
    assert_eq!(q.cf_risk(), "低 ✅");
    assert!(ip_quality_from_json(r#"{"status":"fail"}"#).is_none());
    assert!(ip_quality_from_json("oops").is_none());
    assert_eq!(
        quality_url("1.2.3.4"),
        "http://ip-api.com/json/1.2.3.4?fields=status,country,isp,proxy,hosting"
    );
}
