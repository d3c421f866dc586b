use boilchangeip::bot::callbacks::CallbackAction;
use boilchangeip::bot::classic::{
    check_failed, format_timer_panel, handle_callback, handle_command, handle_message, help_text,
    menu_commands, parse_callback, reconnect_result, start_text, status_reply, timer_state_text,
};
use boilchangeip::bot::commands::Command;
use boilchangeip::bot::dispatch::{BotShared, BotTask};
use boilchangeip::bot::pairing::is_authorized_tg_id;
use boilchangeip::bot::state::{
    ConfirmConsume, ConfirmationStore, Instant, TimerInputMode, TimerInputStore, CONFIRM_TTL_SECS,
    TIMER_INPUT_TTL_SECS,
};
use boilchangeip::bot::timer_ui::{timer_create_keyboard, timer_target_keyboard};
use boilchangeip::config::{AppConfig, SecretToken, ServerConfig, ServerTimerConfig};
use boilchangeip::reconnect::{ReconnectResult, ReconnectStatus};
use boilchangeip::timer::timer_status;

fn timer(cron: &str) -> Option<ServerTimerConfig> {
    Some(ServerTimerConfig {
        enabled: true,
        cron: Some(cron.to_string()),
    })
}

fn server(id: &str, name: &str, token: &str, timer: Option<ServerTimerConfig>) -> ServerConfig {
    ServerConfig {
        id: id.to_string(),
        name: name.to_string(),
        token: SecretToken::from_stored(token.to_string()),
        enabled: true,
        address: None,
        country: None,
        flag: None,
        resolved_ip: None,
        timer,
    }
}

fn app_config() -> AppConfig {
    AppConfig {
        servers: vec![
            server("hk-01", "Hong Kong 01", "hidden-token-a", timer("30 3 * * *")),
            server("jp_02", "Japan 02", "hidden-token-b", None),
        ],
        global_timer: timer("45 4 * * *"),
        tg_token: None,
        tg_chat_id: Some("12345".to_string()),
        tg_pair_code: None,
        tg_pair_expires_at: None,
        change_ip_cooldown: None,
        migration_notice: None,
    }
}

fn at(secs: u64) -> Instant {
    Instant { nanos: 1_000_000_000 * (1000 + secs) }
}

#[test]
fn bot_menu_contains_every_supported_command_with_valid_names() {
    let commands = menu_commands();
    assert_eq!(
        commands
            .iter()
            .map(|command| command.command.as_str())
            .collect::<Vec<_>>(),
        vec!["start", "help", "status", "check", "change", "timer"]
    );

    for command in commands {
        assert!(!command.command.contains('/'));
        assert!(!command.command.contains(' '));
        assert!(command
            .command
            .chars()
            .all(|character| character.is_ascii_lowercase()
                || character.is_ascii_digit()
                || character == '_'));
    }
}

#[test]
fn bot_help_text_uses_the_same_commands_and_descriptions_as_menu() {
    let help = help_text();

    for command in menu_commands() {
        assert!(help.contains(&format!("/{} — {}", command.command, command.description)));
    }
}

#[test]
fn bot_confirm_callback_does_not_contain_token() {
    let callback = format!("confirm_change:{}:{}", "hk-01", "nonce-value");
    assert!(!callback.contains("secret-token"));
    assert_eq!(
        parse_callback(&callback),
        CallbackAction::ConfirmChange {
            server_id: "hk-01".to_string(),
            nonce: "nonce-value".to_string()
        }
    );
}

#[test]
fn bot_old_change_callback_is_rejected() {
    assert_eq!(
        parse_callback("change:router:interface"),
        CallbackAction::LegacyChange
    );
}

#[test]
fn bot_timer_callbacks_are_routable_without_tokens() {
    assert_eq!(parse_callback("timer_new"), CallbackAction::TimerNew);
    assert_eq!(parse_callback("timer_edit"), CallbackAction::TimerEdit);
    assert_eq!(parse_callback("timer_close"), CallbackAction::TimerClose);
    assert_eq!(
        parse_callback("timer_refresh"),
        CallbackAction::TimerRefresh
    );
    assert_eq!(
        parse_callback("timer_create:all:03:30"),
        CallbackAction::TimerCreateAll { hhmm: "03:30".to_string() }
    );
    assert_eq!(
        parse_callback("timer_create:server:hk-01:03:30"),
        CallbackAction::TimerCreateServer {
            server_id: "hk-01".to_string(),
            hhmm: "03:30".to_string()
        }
    );
    assert_eq!(
        parse_callback("timer_edit_target:server:hk-01"),
        CallbackAction::TimerEditTargetServer("hk-01".to_string())
    );
    assert_eq!(
        parse_callback("timer_close:server:hk-01"),
        CallbackAction::TimerCloseServer("hk-01".to_string())
    );
}

#[test]
fn bot_timer_panel_shows_timezone_servers_and_actions_without_tokens() {
    let config = app_config();
    let status = timer_status(&config);
    let text = format_timer_panel(&status);

    assert!(text.contains("Asia/Shanghai"));
    assert!(text.contains("🌐 全部 Server"));
    assert!(text.contains("04:45"));
    assert!(text.contains("Hong Kong 01"));
    assert!(text.contains("03:30"));
    assert!(text.contains("Japan 02"));
    assert!(!text.contains("hidden-token"));

    let keyboard = timer_create_keyboard(&config, "03:30");
    let debug = format!("{keyboard:?}");
    assert!(debug.contains("timer_create:all:03:30"));
    assert!(debug.contains("timer_create:server:hk-01:03:30"));
    assert!(!debug.contains("hidden-token"));
}

#[test]
fn bot_timer_input_store_expires_and_consumes_once() {
    let mut store = TimerInputStore::new();
    let chat_id = 12345;

    store.set(chat_id, TimerInputMode::New, at(0));
    assert!(matches!(
        store.take(chat_id, at(1)),
        Some(TimerInputMode::New)
    ));
    assert!(store.take(chat_id, at(2)).is_none());

    store.set(chat_id, TimerInputMode::New, at(0));
    assert!(store.take(chat_id, at(TIMER_INPUT_TTL_SECS + 1)).is_none());
}

#[test]
fn tg_chat_id_authorization_is_reused_for_timer_inputs_and_callbacks() {
    let config = app_config();
    assert!(is_authorized_tg_id(&config, "12345"));
    assert!(!is_authorized_tg_id(&config, "54321"));
}

#[test]
fn bot_timer_keyboard_has_all_and_single_server_targets() {
    let config = app_config();
    let keyboard = timer_target_keyboard(&config, "timer_close");
    let debug = format!("{keyboard:?}");

    assert!(debug.contains("timer_close:all"));
    assert!(debug.contains("timer_close:server:hk-01"));
    assert!(debug.contains("timer_close:server:jp_02"));
    assert!(!debug.contains("hidden-token"));
}

#[test]
fn bot_nonce_expires_and_cannot_execute() {
    let mut store = ConfirmationStore::new();
    let nonce = store.insert("hk-01", at(0), 1);
    let result = store.consume("hk-01", &nonce, at(CONFIRM_TTL_SECS + 1));
    assert_eq!(result, ConfirmConsume::Expired);
}

#[test]
fn bot_nonce_is_single_use() {
    let mut store = ConfirmationStore::new();
    let nonce = store.insert("hk-01", at(0), 1);
    assert_eq!(
        store.consume("hk-01", &nonce, at(1)),
        ConfirmConsume::Accepted
    );
    assert_eq!(
        store.consume("hk-01", &nonce, at(2)),
        ConfirmConsume::AlreadyUsed
    );
}

#[test]
fn the_small_bot_does_not_manage_servers() {
    assert_eq!(parse_callback("server_delete_confirm:hk-01"), CallbackAction::Unknown);
    assert_eq!(parse_callback("menu:addserver"), CallbackAction::Unknown);
    let mut shared = BotShared::new(app_config());
    let task = handle_callback(
        &mut shared,
        12345,
        Some(7),
        Some("server_delete_confirm:hk-01"),
        at(0),
        1,
    );
    match task {
        BotTask::Say(r) => assert_eq!(r.text, "无法识别的操作，请重新发送命令"),
        _ => panic!("expected an answer"),
    }
    assert!(matches!(
        handle_command(&mut shared, 12345, Command::Addserver, at(0), 1),
        BotTask::Nothing
    ));
}

#[test]
fn the_small_bot_says_nothing_to_strangers() {
    let mut shared = BotShared::new(app_config());
    assert!(matches!(
        handle_callback(&mut shared, 54321, Some(7), Some("timer_new"), at(0), 1),
        BotTask::Nothing
    ));
    assert!(matches!(
        handle_command(&mut shared, 54321, Command::Start, at(0), 1),
        BotTask::Nothing
    ));
    assert!(matches!(
        handle_message(&mut shared, 54321, Some("03:30"), at(0)),
        BotTask::Nothing
    ));
}

#[test]
fn the_small_bot_changes_an_address_after_a_confirmation() {
    let mut shared = BotShared::new(app_config());
    let task = handle_command(
        &mut shared,
        12345,
        Command::Change(" hk-01 ".to_string()),
        at(0),
        0xabc,
    );
    let data = match task {
        BotTask::Say(r) => {
            assert_eq!(
                r.text,
                "确认更换 VPS <b>Hong Kong 01</b> 的 IP？\nserver: <code>hk-01</code>"
            );
            let rows = r.keyboard.unwrap().rows;
            assert_eq!(rows[0][1].data, "cancel_change:hk-01:abc1");
            rows[0][0].data.clone()
        }
        _ => panic!("expected a question"),
    };
    assert_eq!(data, "confirm_change:hk-01:abc1");
    match handle_callback(&mut shared, 12345, Some(12345), Some(&data), at(1), 1) {
        BotTask::ChangeIp(s) => assert_eq!(s.id, "hk-01"),
        _ => panic!("expected a change"),
    }
    match handle_callback(&mut shared, 12345, Some(12345), Some(&data), at(2), 1) {
        BotTask::Say(r) => assert_eq!(r.text, "该确认已使用，请勿重复点击"),
        _ => panic!("expected a refusal"),
    }
}

#[test]
fn the_small_bot_takes_times() {
    let mut shared = BotShared::new(app_config());
    let _ = handle_callback(&mut shared, 12345, Some(12345), Some("timer_edit_target:all"), at(0), 1);
    assert!(matches!(
        handle_message(&mut shared, 12345, Some("/x"), at(1)),
        BotTask::Nothing
    ));
    match handle_message(&mut shared, 12345, Some(" 05:06 "), at(2)) {
        BotTask::SaveTimers(next) => assert_eq!(
            next.global_timer.and_then(|t| t.cron).as_deref(),
            Some("6 5 * * *")
        ),
        _ => panic!("expected a configuration"),
    }
    assert!(matches!(
        handle_message(&mut shared, 12345, Some("05:06"), at(3)),
        BotTask::Nothing
    ));
}

#[test]
fn texts_of_the_small_bot_are_exact() {
    assert!(start_text().starts_with("欢迎使用 boilchangeip Telegram Bot。\n\n可用命令：\n\n/start — 开始使用 Bot\n/help"));
    let s = server("a&b", "<A>", "t", None);
    assert_eq!(
        status_reply(&s, Ok("1.2.3.4")).text,
        "📡 <b>&lt;A&gt;</b>\nserver: <code>a&amp;b</code>\nIP: <code>1.2.3.4</code>"
    );
    assert_eq!(
        status_reply(&s, Err("no")).text,
        "❌ <b>&lt;A&gt;</b>\nserver: <code>a&amp;b</code>\n查询失败: no"
    );
    assert_eq!(check_failed("x").text, "❌ API 查询失败: x");
    assert_eq!(timer_state_text(false, &Some("03:30".to_string())), "已关闭 | 保留时间 03:30");
    assert_eq!(timer_state_text(false, &None), "已关闭");
    assert_eq!(timer_state_text(true, &None), "已开启 | 每天 时间未设置");
    let result = ReconnectResult {
        server_id: "a".to_string(),
        server_name: "A".to_string(),
        old_ip: None,
        new_ip: None,
        changed: false,
        uses_left: None,
        next_allowed_at: Some(4),
        status: ReconnectStatus::ApiRejected,
        message: Some("<m>".to_string()),
        poll_attempts: 0,
    };
    assert_eq!(
        reconnect_result(&result).text,
        "VPS: <b>A</b>\nserver: <code>a</code>\n状态: ApiRejected\n下次允许时间: 4 (Unix)\n信息: &lt;m&gt;"
    );
}
