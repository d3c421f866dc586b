use boilchangeip::address::{first_ipv4, is_ipv4_text, is_ipv6_text};
use boilchangeip::boil::IpAddress;
use boilchangeip::bot::callbacks::{order, parse_callback, CallbackAction};
use boilchangeip::bot::change::{
    check_result, reconnect_result, selection_from_tg_arg, show_server_selection, tg_change,
};
use boilchangeip::bot::commands::{
    help_text, menu_commands, pairing_replies, send_start_menu, start_menu_keyboard,
};
use boilchangeip::bot::formatting::{
    address_metadata, format_server_card, geo_from_country, html_escape, normalize_server_address,
    short_safe_error,
};
use boilchangeip::bot::pairing::{
    apply_pairing, is_authorized_callback_chat, is_authorized_tg_id, resolve_pairing,
    PairingApplyResult, PairingDecision,
};
use boilchangeip::bot::server_list::{find_configured_server, list_entry};
use boilchangeip::bot::server_wizard::{add_server, next_server_id};
use boilchangeip::bot::state::{
    next_nonce, BotBusyStore, ConfirmConsume, ConfirmationStore, Instant, ServerEditMode,
    ServerEditStore, ServerWizardStep, ServerWizardStore, TimerInputMode, TimerInputStore,
    TimerMessageStore, CONFIRM_TTL_SECS, SERVER_WIZARD_TTL_SECS, TIMER_INPUT_TTL_SECS,
};
use boilchangeip::bot::status::{next_change_text, status_text, StatusQueryState};
use boilchangeip::bot::timer_ui::{
    format_timer_panel, show_timer_panel, timer_create_keyboard, timer_target_keyboard,
};
use boilchangeip::config::{
    validate_servers, AppConfig, PairingCode, SecretToken, ServerConfig, ServerTimerConfig,
};
use boilchangeip::ip_quality::IpQuality;
use boilchangeip::reconnect::{ReconnectResult, ReconnectStatus};
use boilchangeip::timer::timer_status;

fn timer(enabled: bool, cron: &str) -> Option<ServerTimerConfig> {
    Some(ServerTimerConfig {
        enabled,
        cron: Some(cron.to_string()),
    })
}

fn some(text: &str) -> Option<String> {
    Some(text.to_string())
}

fn app_config() -> AppConfig {
    AppConfig {
        servers: vec![
            ServerConfig {
                id: "hk-01".to_string(),
                name: "Hong Kong 01".to_string(),
                token: SecretToken::from_stored("hidden-token-a".to_string()),
                enabled: true,
                address: some("203.0.113.10"),
                country: some("中国香港"),
                flag: some("🇭🇰"),
                resolved_ip: None,
                timer: timer(true, "30 3 * * *"),
            },
            ServerConfig {
                id: "jp_02".to_string(),
                name: "Japan 02".to_string(),
                token: SecretToken::from_stored("hidden-token-b".to_string()),
                enabled: true,
                address: some("jp.example.com"),
                country: some("日本"),
                flag: some("🇯🇵"),
                resolved_ip: None,
                timer: None,
            },
        ],
        global_timer: timer(true, "45 4 * * *"),
        tg_token: None,
        tg_chat_id: some("12345"),
        tg_pair_code: None,
        tg_pair_expires_at: None,
        change_ip_cooldown: None,
        migration_notice: None,
    }
}

fn pairable_config() -> AppConfig {
    let mut config = app_config();
    config.tg_chat_id = None;
    config.tg_pair_code = PairingCode::new("TEST-CODE".to_string()).ok();
    config.tg_pair_expires_at = Some(1_000);
    config
}

fn at(secs: u64) -> Instant {
    Instant { nanos: 1_000_000_000 * (1000 + secs) }
}

// Buttons.

#[test]
fn callbacks_confirm_callback_does_not_contain_token() {
    let callback = format!("confirm_change:{}:{}", "hk-01", "nonce-value");
    assert!(!callback.contains("secret-token"));
    assert_eq!(
        parse_callback(&callback),
        CallbackAction::ConfirmChange {
            server_id: "hk-01".to_string(),
            nonce: "nonce-value".to_string()
        }
    );
}

#[test]
fn callbacks_old_change_callback_is_rejected() {
    assert_eq!(
        parse_callback("change:router:interface"),
        CallbackAction::LegacyChange
    );
}

#[test]
fn callbacks_timer_callbacks_are_routable_without_tokens() {
    let id = || "hk-01".to_string();
    assert_eq!(parse_callback("timer_new"), CallbackAction::TimerNew);
    assert_eq!(parse_callback("timer_edit"), CallbackAction::TimerEdit);
    assert_eq!(parse_callback("timer_close"), CallbackAction::TimerClose);
    assert_eq!(
        parse_callback("timer_refresh"),
        CallbackAction::TimerRefresh
    );
    assert_eq!(
        parse_callback("timer_create:all:03:30"),
        CallbackAction::TimerCreateAll { hhmm: "03:30".to_string() }
    );
    assert_eq!(
        parse_callback("timer_create:server:hk-01:03:30"),
        CallbackAction::TimerCreateServer {
            server_id: id(),
            hhmm: "03:30".to_string()
        }
    );
    assert_eq!(
        parse_callback("timer_edit_target:server:hk-01"),
        CallbackAction::TimerEditTargetServer(id())
    );
    assert_eq!(
        parse_callback("timer_close:server:hk-01"),
        CallbackAction::TimerCloseServer(id())
    );
    assert_eq!(
        parse_callback("server_edit:hk-01"),
        CallbackAction::ServerEdit(id())
    );
    assert_eq!(
        parse_callback("server_delete:hk-01"),
        CallbackAction::ServerDelete(id())
    );
    assert_eq!(
        parse_callback("server_edit_name:hk-01"),
        CallbackAction::ServerEditName(id())
    );
    assert_eq!(
        parse_callback("server_edit_address:hk-01"),
        CallbackAction::ServerEditAddress(id())
    );
    assert_eq!(
        parse_callback("server_edit_token:hk-01"),
        CallbackAction::ServerEditToken(id())
    );
    assert_eq!(
        parse_callback("server_revalidate:hk-01"),
        CallbackAction::ServerRevalidate(id())
    );
    assert_eq!(
        parse_callback("server_delete_confirm:hk-01"),
        CallbackAction::ServerDeleteConfirm(id())
    );
    assert_eq!(
        parse_callback("server_move_up:hk-01"),
        CallbackAction::ServerMoveUp(id())
    );
    assert_eq!(
        parse_callback("server_move_down:hk-01"),
        CallbackAction::ServerMoveDown(id())
    );
}

#[test]
fn buttons_that_nobody_made_are_unknown() {
    for data in [
        "",
        "timer_newer",
        "menu:nothing",
        "confirm_change:hk-01",
        "timer_create:some:03:30",
        "timer_create:server:hk-01",
        "timer_close:each",
        "server_edit",
    ] {
        assert_eq!(parse_callback(data), CallbackAction::Unknown, "{data}");
    }
    assert_eq!(order("menu", "help"), "menu:help");
    assert_eq!(parse_callback("menu:help"), CallbackAction::MenuHelp);
    assert_eq!(
        parse_callback("addserver_cancel:n"),
        CallbackAction::CancelAddServer("n".to_string())
    );
    assert_eq!(parse_callback("timer_close:all"), CallbackAction::TimerCloseAll);
}

// Commands.

#[test]
fn commands_menu_contains_every_supported_command_with_valid_names() {
    let commands = menu_commands();
    assert_eq!(
        commands
            .iter()
            .map(|command| command.command.as_str())
            .collect::<Vec<_>>(),
        vec![
            "start",
            "status",
            "change",
            "timer",
            "servers",
            "addserver",
            "help"
        ]
    );

    for command in commands {
        assert!(!command.command.contains('/'));
        assert!(!command.command.contains(' '));
        assert!(command
            .command
            .chars()
            .all(|character| character.is_ascii_lowercase()
                || character.is_ascii_digit()
                || character == '_'));
    }
}

#[test]
fn commands_help_text_uses_the_same_commands_and_descriptions_as_menu() {
    let help = help_text();

    for command in menu_commands() {
        assert!(help.contains(&format!("/{} — {}", command.command, command.description)));
    }
}

#[test]
fn start_keyboard_exposes_primary_actions_without_tokens() {
    let debug = format!("{:?}", start_menu_keyboard());

    assert!(debug.contains("➕ 添加服务器"));
    assert!(debug.contains("🖥 服务器列表"));
    assert!(debug.contains("📊 查看状态"));
    assert!(debug.contains("🔄 更换 IP"));
    assert!(debug.contains("⏰ 定时换 IP"));
    assert!(debug.contains("❓ 帮助"));
    assert!(!debug.contains("hidden-token"));
}

fn ips(list: &[(&str, &str)]) -> Vec<(String, String)> {
    list.iter()
        .map(|(id, ip)| (id.to_string(), ip.to_string()))
        .collect()
}

#[test]
fn commands_timer_panel_shows_timezone_servers_and_actions_without_tokens() {
    let config = app_config();
    let status = timer_status(&config);
    let current_ips = ips(&[("hk-01", "203.0.113.10"), ("jp_02", "203.0.113.20")]);
    let text = format_timer_panel(&status, &current_ips);

    assert!(text.contains("Asia/Shanghai"));
    assert!(text.contains("🌐 全部 Server"));
    assert!(text.contains("04:45"));
    assert!(text.contains("Hong Kong 01"));
    assert!(text.contains("03:30"));
    assert!(text.contains("Japan 02"));
    assert!(!text.contains("hidden-token"));

    let keyboard = timer_create_keyboard(&config, "03:30");
    let debug = format!("{keyboard:?}");
    assert!(debug.contains("timer_create:all:03:30"));
    assert!(debug.contains("timer_create:server:hk-01:03:30"));
    assert!(!debug.contains("hidden-token"));
}

#[test]
fn the_help_is_exact() {
    assert!(help_text().starts_with("可用命令：\n/start — 打开操作菜单\n/status — 查看 VPS 当前状态\n"));
    let menu = send_start_menu();
    assert_eq!(menu.text, "欢迎使用 boilchangeip。\n请选择下面的操作：");
    assert_eq!(menu.keyboard.unwrap().rows[0][0].data, "menu:addserver");
}

// Cards and texts.

#[test]
fn server_card_uses_public_display_fields_only() {
    let config = app_config();
    let text = format_server_card(&config.servers[0]);

    assert!(text.contains("📡 <b>Hong Kong 01</b>"));
    assert!(text.contains("🇭🇰 中国香港"));
    assert!(text.contains("203.0.113.10"));
    assert!(!text.contains("hk-01"));
    assert!(!text.contains("hidden-token"));
    assert!(!text.contains("Server:"));
}

#[test]
fn server_card_has_no_action_buttons_or_missing_address_text() {
    let config = app_config();
    let card = boilchangeip::bot::server_list::format_server_card(&config.servers[0], "203.0.113.10");

    assert!(card.contains("📡"));
    assert!(card.contains("Hong Kong 01"));
    assert!(card.contains("当前 IP：203.0.113.10"));
    assert!(!card.contains("地址未设置"));
    assert!(!card.contains("📊 状态"));
    assert!(!card.contains("🔄 更换 IP"));
    assert!(!card.contains("编辑"));
    assert!(!card.contains("删除"));
    assert!(!card.contains("hidden-token"));
    assert!(!card.contains("hk-01"));
}

#[test]
fn a_port_follows_the_first_colon_except_in_ipv6_addresses() {
    let host = |s: &str| normalize_server_address(s).unwrap_or_default();
    assert_eq!(host("host:80:90"), "host");
    assert_eq!(host("[foo]"), "[foo]");
    assert_eq!(host("[foo]:80"), "[foo]");
    assert_eq!(host("[::1]x"), "[");
    assert_eq!(host("1:2:3:4:5:6:7"), "1");
    assert_eq!(host("12345::1"), "12345");
    assert_eq!(host("::1"), "::1");
    assert_eq!(host("::"), "::");
    assert_eq!(host("[::1]"), "::1");
    assert_eq!(host("https://[fe80::A:1]:8443/x"), "fe80::A:1");
    assert_eq!(host("1:2:3:4:5:6:7:8"), "1:2:3:4:5:6:7:8");
    assert_eq!(host("::ffff:203.0.113.10"), "::ffff:203.0.113.10");
    assert_eq!(normalize_server_address(":80"), None);
}

#[test]
fn addresses_are_told_from_other_texts() {
    for s in ["::", "::1", "1::", "1:2:3:4:5:6:7::", "1:2:3:4:5:6:1.2.3.4", "a:B:0:00:000:0000:f:F"] {
        assert!(is_ipv6_text(s), "{}", s);
    }
    for s in ["", ":", ":::", "1::2::3", "1:2:3:4:5:6:7:8:9", "1::2:3:4:5:6:7:8", "1.2.3.4::", "g::", "::1.2.3.256", "::01.2.3.4", "12345::"] {
        assert!(!is_ipv6_text(s), "{}", s);
    }
    for s in ["0.0.0.0", "255.255.255.255", "203.0.113.10"] {
        assert!(is_ipv4_text(s), "{}", s);
    }
    for s in ["", "1.2.3", "1.2.3.4.5", "1.2.3.256", "01.2.3.4", "1.2.3.", "a.b.c.d", "1.2.3.4444"] {
        assert!(!is_ipv4_text(s), "{}", s);
    }
    let found = vec!["::1".to_string(), "1.2.3.4".to_string(), "5.6.7.8".to_string()];
    assert_eq!(first_ipv4(&found).as_deref(), Some("1.2.3.4"));
    assert_eq!(first_ipv4(&found[..1].to_vec()), None);
}

#[test]
fn texts_and_places_are_exact() {
    assert_eq!(html_escape("<a & b>"), "&lt;a &amp; b&gt;");
    assert_eq!(geo_from_country(" Japan ").display(), "🇯🇵 日本");
    assert_eq!(geo_from_country("Hong Kong SAR").display(), "🇭🇰 中国香港");
    assert_eq!(geo_from_country("France").display(), "🌐 France");
    assert_eq!(geo_from_country(" ").display(), "🌐 未知地区");
    assert_eq!(normalize_server_address(" https://h.example:8080/x ").as_deref(), Some("h.example"));
    assert_eq!(normalize_server_address("203.0.113.10:22").as_deref(), Some("203.0.113.10"));
    assert_eq!(normalize_server_address("2001:db8::1").as_deref(), Some("2001:db8::1"));
    assert_eq!(
        normalize_server_address("http://[2001:db8::1]:8080/x").as_deref(),
        Some("2001:db8::1")
    );
    assert_eq!(normalize_server_address("http://"), None);
    assert_eq!(normalize_server_address("  "), None);
    assert_eq!(short_safe_error("Bearer x\nmore"), "认证信息 x");
    assert_eq!(short_safe_error(""), "查询失败");
    assert_eq!(short_safe_error(&"y".repeat(100)).len(), 80);
    let mut s = app_config().servers.remove(1);
    s.address = some(" ");
    assert_eq!(
        format_server_card(&s),
        "📡 <b>Japan 02</b>\n\n🇯🇵 日本\n地址未设置"
    );
    assert_eq!(
        list_entry(&s, None).text,
        "📡 <b>Japan 02</b>\n\n🇯🇵 日本\n当前 IP：查询失败"
    );
    assert!(find_configured_server(&app_config(), "jp_02").is_some());
    assert!(find_configured_server(&app_config(), "none").is_none());
}

#[test]
fn what_is_known_of_an_address_needs_an_ip() {
    let q = || {
        Some(IpQuality {
            country: "Singapore".to_string(),
            isp: "x".to_string(),
            is_proxy: false,
            is_hosting: false,
        })
    };
    assert_eq!(address_metadata(some("1.1.1.1"), q()).geo.display(), "🇸🇬 新加坡");
    assert_eq!(address_metadata(None, q()).geo.display(), "🌐 未知地区");
    assert_eq!(address_metadata(some("1.1.1.1"), None).geo.display(), "🌐 未知地区");
}

// Pairing.

#[test]
fn start_without_pairing_does_not_authorize_chat() {
    let config = pairable_config();

    assert!(!is_authorized_tg_id(&config, "99999"));
    assert!(config.tg_chat_id.is_none());
}

#[test]
fn correct_pairing_code_binds_chat_and_consumes_code() {
    let config = pairable_config();

    let PairingDecision::Paired(next) = resolve_pairing(&config, "99999", "TEST-CODE", 999) else {
        panic!("expected pairing success");
    };

    assert_eq!(next.tg_chat_id.as_deref(), Some("99999"));
    assert!(next.tg_pair_code.is_none());
    assert!(next.tg_pair_expires_at.is_none());
}

#[test]
fn wrong_pairing_code_cannot_bind_chat() {
    let config = pairable_config();

    assert!(
        resolve_pairing(&config, "99999", "WRNG-0000", 999)
            == PairingDecision::InvalidOrExpired(None)
    );
    assert!(config.tg_chat_id.is_none());
}

#[test]
fn expired_pairing_code_cannot_bind_and_is_consumed() {
    let config = pairable_config();

    let PairingDecision::InvalidOrExpired(Some(next)) =
        resolve_pairing(&config, "99999", "TEST-CODE", 1_000)
    else {
        panic!("expected expired pairing code");
    };

    assert!(next.tg_chat_id.is_none());
    assert!(next.tg_pair_code.is_none());
    assert!(next.tg_pair_expires_at.is_none());
}

#[test]
fn pairing_code_can_only_be_used_once() {
    let config = pairable_config();
    let PairingDecision::Paired(next) = resolve_pairing(&config, "99999", "TEST-CODE", 999) else {
        panic!("expected first pairing success");
    };

    assert!(
        resolve_pairing(&next, "88888", "TEST-CODE", 999) == PairingDecision::AlreadyBound
    );
}

#[test]
fn bound_chat_cannot_be_overwritten_by_another_chat() {
    let mut config = pairable_config();
    config.tg_chat_id = some("99999");

    assert!(
        resolve_pairing(&config, "88888", "TEST-CODE", 999) == PairingDecision::AlreadyBound
    );
    assert_eq!(config.tg_chat_id.as_deref(), Some("99999"));
}

#[test]
fn concurrent_pairing_attempts_only_allow_one_success() {
    let mut config = pairable_config();

    assert_eq!(
        apply_pairing(&mut config, "11111", "TEST-CODE", 999, |_| Ok(())),
        PairingApplyResult::Paired
    );
    assert_eq!(
        apply_pairing(&mut config, "22222", "TEST-CODE", 999, |_| Ok(())),
        PairingApplyResult::AlreadyBound
    );
    assert_eq!(config.tg_chat_id.as_deref(), Some("11111"));
}

#[test]
fn pairing_save_failure_does_not_update_authorized_chat() {
    let mut config = pairable_config();

    assert_eq!(
        apply_pairing(&mut config, "11111", "TEST-CODE", 999, |_| {
            Err("mock save failure".to_string())
        }),
        PairingApplyResult::SaveFailed("mock save failure".to_string())
    );
    assert!(config.tg_chat_id.is_none());
    assert!(config.tg_pair_code.is_some());
    assert_eq!(config.tg_pair_expires_at, Some(1_000));
}

#[test]
fn unauthorized_callback_chat_is_rejected_by_chat_id() {
    let config = app_config();

    assert!(is_authorized_callback_chat(&config, 12345));
    assert!(!is_authorized_callback_chat(&config, 54321));
}

#[test]
fn pairing_codes_are_compared_without_case_and_space() {
    let config = pairable_config();
    assert!(matches!(
        resolve_pairing(&config, "-5", " test-code ", 0),
        PairingDecision::Paired(_)
    ));
    let mut bound = app_config();
    bound.tg_chat_id = some("-5");
    assert!(is_authorized_callback_chat(&bound, -5));
    let mut expired = pairable_config();
    assert_eq!(
        apply_pairing(&mut expired, "1", "TEST-CODE", 2_000, |_| Err("disk".to_string())),
        PairingApplyResult::InvalidOrExpired
    );
    assert!(expired == pairable_config());
    let (text, menu) = pairing_replies(&PairingApplyResult::Paired);
    assert_eq!(text.text, "✅ 配对成功，已启用 Telegram 菜单。");
    assert!(menu.is_some());
    let (text, menu) = pairing_replies(&PairingApplyResult::SaveFailed("<x>".to_string()));
    assert_eq!(text.text, "❌ 配对失败，无法保存配置: &lt;x&gt;");
    assert!(menu.is_none());
}

// Adding a server.

#[test]
fn next_server_id_uses_max_numeric_suffix_plus_one() {
    let mut config = app_config();
    config.servers[0].id = "server-1".to_string();
    config.servers[1].id = "server-3".to_string();

    assert_eq!(next_server_id(&config), "server-4");
}

#[test]
fn next_server_id_ignores_non_matching_ids() {
    let mut config = app_config();
    config.servers.remove(1);
    config.servers[0].name = "HK".to_string();

    assert_eq!(next_server_id(&config), "server-1");
}

#[test]
fn an_added_server_is_new_and_valid() {
    let config = app_config();
    let token = SecretToken::from_stored("fresh".to_string());
    let metadata = address_metadata(None, None);
    let next = add_server(&config, "New", "vps.example", "5.6.7.8", &token, &metadata);
    assert_eq!(next.servers.len(), 3);
    let s = &next.servers[2];
    assert_eq!(s.id, "server-1");
    assert_eq!(s.address.as_deref(), Some("vps.example"));
    assert_eq!(s.resolved_ip.as_deref(), Some("5.6.7.8"));
    assert!(s.enabled && s.timer.is_none());
    assert!(validate_servers(&next.servers).is_ok());
    let again = add_server(&next, "More", "5.6.7.9", "5.6.7.9", &token, &metadata);
    assert_eq!(again.servers[3].id, "server-2");
}

// What is remembered.

#[test]
fn busy_store_drops_second_request_without_queueing() {
    let mut busy = BotBusyStore::new();
    let chat = 10;

    let first = busy.try_enter(chat);
    assert!(first);
    assert!(!busy.try_enter(chat));

    busy.leave(chat);
    assert!(busy.try_enter(chat));
}

#[test]
fn busy_store_is_scoped_per_chat() {
    let mut busy = BotBusyStore::new();

    assert!(busy.try_enter(10));
    assert!(busy.try_enter(11));
}

#[test]
fn timer_message_store_records_deduplicates_and_takes_messages() {
    let chat_id = 12345;
    let mut store = TimerMessageStore::new();
    store.record(chat_id, 10);
    store.record(chat_id, 10);
    store.record(chat_id, 11);

    assert_eq!(store.count(chat_id), 2);
    assert_eq!(store.take_all(chat_id), vec![10, 11]);
    assert_eq!(store.count(chat_id), 0);
}

#[test]
fn server_edit_state_expires_and_can_be_cancelled() {
    let mut store = ServerEditStore::new();
    let chat_id = 12345;
    store.set(
        chat_id,
        ServerEditMode::Name {
            server_id: "hk-01".to_string(),
        },
        at(0),
    );
    assert_eq!(store.pending_count(), 1);
    assert!(store
        .take(chat_id, at(SERVER_WIZARD_TTL_SECS + 1))
        .is_none());
    assert_eq!(store.pending_count(), 0);

    store.set(
        chat_id,
        ServerEditMode::Token {
            server_id: "hk-01".to_string(),
        },
        at(0),
    );
    store.cancel(chat_id);
    assert_eq!(store.pending_count(), 0);
}

#[test]
fn successful_token_edit_consumes_pending_state() {
    let mut store = ServerEditStore::new();
    let chat_id = 12345;
    store.set(
        chat_id,
        ServerEditMode::Token {
            server_id: "hk-01".to_string(),
        },
        at(0),
    );

    assert!(matches!(
        store.take(chat_id, at(1)),
        Some(ServerEditMode::Token { server_id }) if server_id == "hk-01"
    ));
    assert_eq!(store.pending_count(), 0);
}

#[test]
fn state_timer_input_store_expires_and_consumes_once() {
    let mut store = TimerInputStore::new();
    let chat_id = 12345;

    store.set(chat_id, TimerInputMode::New, at(0));
    assert!(matches!(
        store.take(chat_id, at(1)),
        Some(TimerInputMode::New)
    ));
    assert!(store.take(chat_id, at(2)).is_none());

    store.set(chat_id, TimerInputMode::New, at(0));
    assert!(store.take(chat_id, at(TIMER_INPUT_TTL_SECS + 1)).is_none());
}

#[test]
fn state_nonce_expires_and_cannot_execute() {
    let mut store = ConfirmationStore::new();
    let nonce = store.insert("hk-01", at(0), 7);
    let result = store.consume("hk-01", &nonce, at(CONFIRM_TTL_SECS + 1));
    assert_eq!(result, ConfirmConsume::Expired);
}

#[test]
fn state_nonce_is_single_use() {
    let mut store = ConfirmationStore::new();
    let nonce = store.insert("hk-01", at(0), 7);
    assert_eq!(
        store.consume("hk-01", &nonce, at(1)),
        ConfirmConsume::Accepted
    );
    assert_eq!(
        store.consume("hk-01", &nonce, at(2)),
        ConfirmConsume::AlreadyUsed
    );
}

#[test]
fn confirmations_are_known_by_their_names() {
    let mut store = ConfirmationStore::new();
    let a = store.insert("hk-01", at(0), 0x18f);
    let b = store.insert("jp_02", at(0), 0x18f);
    assert_eq!(a, "18f1");
    assert_eq!(b, "18f2");
    assert_eq!(next_nonce(255, 16), "10ff");
    assert_eq!(store.consume("hk-01", &b, at(1)), ConfirmConsume::Mismatch);
    assert_eq!(store.consume("jp_02", "none", at(1)), ConfirmConsume::Missing);
    assert_eq!(store.consume("jp_02", &b, at(1)), ConfirmConsume::Accepted);
    assert_eq!(store.consume("hk-01", &a, at(1)), ConfirmConsume::Accepted);
    store.prune(at(CONFIRM_TTL_SECS));
    assert_eq!(store.consume("hk-01", &a, at(1)), ConfirmConsume::Missing);
}

#[test]
fn a_confirmation_is_spent_once_it_was_accepted() {
    let mut store = ConfirmationStore::new();
    let a = store.insert("hk-01", at(0), 1_000);
    assert_eq!(store.consume("jp_02", &a, at(1)), ConfirmConsume::Mismatch);
    assert_eq!(store.consume("jp_02", &a, at(2)), ConfirmConsume::Mismatch);
    let b = store.insert("jp_02", at(3), 1_001);
    assert_eq!(store.consume("hk-01", &a, at(4)), ConfirmConsume::Accepted);
    assert_eq!(store.consume("hk-01", &a, at(5)), ConfirmConsume::AlreadyUsed);
    assert_eq!(store.consume("jp_02", &b, at(6)), ConfirmConsume::Accepted);
    let _ = store.insert("hk-01", at(7), 1_002);
    assert_eq!(store.consume("hk-01", &a, at(8)), ConfirmConsume::AlreadyUsed);
    store.prune(at(CONFIRM_TTL_SECS));
    assert_eq!(store.consume("hk-01", &a, at(9)), ConfirmConsume::Missing);
}

#[test]
fn one_chat_does_not_disturb_another() {
    let mut store = ServerWizardStore::new();
    store.start(1, at(0));
    store.start(2, at(10));
    store.set_step(
        1,
        ServerWizardStep::Token {
            name: "N".to_string(),
            address: "1.1.1.1".to_string(),
        },
        at(20),
    );
    assert!(matches!(store.take_step(2, at(30)), Some(ServerWizardStep::Name)));
    assert!(store.take_step(2, at(31)).is_none());
    match store.take_step(1, at(32)) {
        Some(ServerWizardStep::Token { name, address }) => {
            assert_eq!(name, "N");
            assert_eq!(address, "1.1.1.1");
        }
        _ => panic!("expected the token"),
    }
}

// Status.

fn unix_time_at_shanghai(hour: u64, minute: u64) -> Option<u64> {
    let shanghai_seconds = hour * 3_600 + minute * 60;
    Some(shanghai_seconds + 86_400 - 8 * 3_600)
}

#[test]
fn status_text_uses_public_fields_only_without_action_buttons() {
    let config = app_config();
    let text = status_text(
        &config,
        &config.servers[0],
        StatusQueryState::Normal,
        Some("42.0.0.1"),
        None,
        Some(1_782_732_942),
    );

    assert!(text.contains("✅ 服务器状态"));
    assert!(text.contains("Hong Kong 01"));
    assert!(text.contains("中国香港"));
    assert!(text.contains("当前 IP：42.0.0.1"));
    assert!(text.contains("状态：正常"));
    assert!(!text.contains("hk-01"));
    assert!(!text.contains("hidden-token"));
    assert!(!text.contains("更换 IP"));
    assert!(!text.contains("定时任务"));
    assert!(!text.contains("编辑服务器"));
    assert!(!text.contains("删除服务器"));
}

#[test]
fn next_change_text_handles_missing_timer() {
    let mut config = app_config();
    config.global_timer = None;
    config.servers[0].timer = None;
    assert_eq!(
        next_change_text(&config, &config.servers[0], unix_time_at_shanghai(4, 0)),
        "未开启"
    );
}

#[test]
fn next_change_text_uses_single_server_timer_before_global_timer() {
    let mut config = app_config();
    config.global_timer = timer(true, "0 5 * * *");
    config.servers[0].timer = timer(true, "30 3 * * *");

    assert_eq!(
        next_change_text(&config, &config.servers[0], unix_time_at_shanghai(2, 0)),
        "今天 03:30"
    );
}

#[test]
fn next_change_text_uses_global_timer_for_single_server_status() {
    let mut config = app_config();
    config.global_timer = timer(true, "0 5 * * *");
    config.servers[0].timer = None;

    assert_eq!(
        next_change_text(&config, &config.servers[0], unix_time_at_shanghai(4, 0)),
        "今天 05:00"
    );
}

#[test]
fn next_change_text_handles_asia_shanghai_next_day() {
    let mut config = app_config();
    config.global_timer = timer(true, "0 5 * * *");
    config.servers[0].timer = None;

    assert_eq!(
        next_change_text(&config, &config.servers[0], unix_time_at_shanghai(6, 0)),
        "明天 05:00"
    );
}

#[test]
fn disabled_single_timer_does_not_hide_enabled_global_timer() {
    let mut config = app_config();
    config.global_timer = timer(true, "0 5 * * *");
    config.servers[0].timer = timer(false, "30 3 * * *");

    assert_eq!(
        next_change_text(&config, &config.servers[0], unix_time_at_shanghai(4, 0)),
        "今天 05:00"
    );
}

#[test]
fn a_run_that_is_due_now_comes_tomorrow() {
    let mut config = app_config();
    config.servers[0].timer = timer(true, "0 5 * * *");
    assert_eq!(
        next_change_text(&config, &config.servers[0], unix_time_at_shanghai(5, 0)),
        "明天 05:00"
    );
    assert_eq!(next_change_text(&config, &config.servers[0], None), "未开启");
    let text = status_text(
        &config,
        &config.servers[0],
        StatusQueryState::VerificationFailed,
        None,
        some("<bad>"),
        None,
    );
    assert!(text.contains("当前 IP：查询失败"));
    assert!(text.contains("状态：验证失败（&lt;bad&gt;）"));
}

// Timers.

#[test]
fn timer_ui_timer_keyboard_has_all_and_single_server_targets() {
    let config = app_config();
    let keyboard = timer_target_keyboard(&config, "timer_close");
    let debug = format!("{keyboard:?}");

    assert!(debug.contains("timer_close:all"));
    assert!(debug.contains("timer_close:server:hk-01"));
    assert!(debug.contains("timer_close:server:jp_02"));
    assert!(!debug.contains("hidden-token"));
}

#[test]
fn timer_panel_uses_not_enabled_without_saved_time_or_missing_address_text() {
    let mut config = app_config();
    config.servers[1].address = None;
    config.servers[1].resolved_ip = some("198.51.100.20");
    config.servers[1].timer = timer(false, "0 5 * * *");
    let status = timer_status(&config);
    let current_ips = ips(&[("jp_02", "203.0.113.200")]);
    let text = format_timer_panel(&status, &current_ips);

    assert!(text.contains("Japan 02"));
    assert!(text.contains("当前 IP：203.0.113.200"));
    assert!(!text.contains("198.51.100.20"));
    assert!(text.contains("未开启"));
    assert!(!text.contains("地址未设置"));
    assert!(!text.contains("已关闭"));
    assert!(!text.contains("保留时间"));
}

#[test]
fn the_panel_is_exact() {
    let mut config = app_config();
    config.servers.truncate(1);
    config.servers[0].enabled = false;
    let reply = show_timer_panel(&timer_status(&config), &ips(&[]));
    assert_eq!(
        reply.text,
        "⏰ <b>定时换 IP</b>\n当前时区: <code>Asia/Shanghai</code>\n🌐 全部 Server: 已开启 | 每天 04:45\nServer 定时状态:\n\n📡 <b>Hong Kong 01</b>\n\n🇭🇰 中国香港\n当前 IP：查询失败\nVPS 已禁用"
    );
    assert!(reply.html);
    assert_eq!(reply.keyboard.unwrap().rows[1][0].data, "timer_close");
}

// Choosing and changing.

#[test]
fn a_server_is_chosen_before_a_change() {
    let config = app_config();
    let mut store = ConfirmationStore::new();
    assert_eq!(selection_from_tg_arg("  "), None);
    assert_eq!(selection_from_tg_arg(" x ").as_deref(), Some("x"));

    let ask = tg_change(&config, &mut store, "", at(0), 1);
    assert_eq!(ask.text, "请选择 VPS：");
    assert_eq!(ask.keyboard.unwrap().rows[1][0].data, "select_change:jp_02");

    let unknown = tg_change(&config, &mut store, "zz", at(0), 1);
    assert_eq!(unknown.text, "❌ 未找到 server id: zz");

    let mut none = app_config();
    none.servers[0].enabled = false;
    none.servers[1].enabled = false;
    assert_eq!(show_server_selection(&none, "check").text, "没有已启用的 VPS");
}

#[test]
fn results_of_checks_and_changes_are_exact() {
    let config = app_config();
    let ip = IpAddress { text: "1.2.3.4".to_string() };
    assert_eq!(
        check_result(&config.servers[0], &ip, &None).text,
        "📍 <b>Hong Kong 01</b>\nIP: <code>1.2.3.4</code>\nIP 质量检测失败"
    );
    let quality = Some(IpQuality {
        country: "A&B".to_string(),
        isp: "I".to_string(),
        is_proxy: false,
        is_hosting: false,
    });
    assert_eq!(
        check_result(&config.servers[0], &ip, &quality).text,
        "📍 <b>Hong Kong 01</b>\nIP: <code>1.2.3.4</code>\n地区: A&amp;B | ISP: I\n类型: 住宅 ✅ | CF 风险: 低 ✅"
    );
    let result = ReconnectResult {
        server_id: "a".to_string(),
        server_name: "A".to_string(),
        old_ip: Some(ip),
        new_ip: Some(IpAddress { text: "1.2.3.5".to_string() }),
        changed: true,
        uses_left: Some(2),
        next_allowed_at: None,
        status: ReconnectStatus::Success,
        message: None,
        poll_attempts: 1,
    };
    assert_eq!(
        reconnect_result(&result).text,
        "📡 <b>A</b>\n状态: Success\n旧 IP: <code>1.2.3.4</code>\n新 IP: <code>1.2.3.5</code>\n剩余次数: 2"
    );
}
