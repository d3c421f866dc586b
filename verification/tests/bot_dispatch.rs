use boilchangeip::bot::commands::Command;
use boilchangeip::bot::dispatch::{
    bot_token, handle_callback, handle_command, handle_message, BotShared, BotTask,
};
use boilchangeip::bot::formatting::address_metadata;
use boilchangeip::bot::pairing::PairingDecision;
use boilchangeip::bot::server_edit::{
    address_found, revalidated, revalidation_failed, save_config_and_reload, token_checked,
    EditAction, SaveOutcome,
};
use boilchangeip::bot::server_wizard::{
    add_server, new_token_checked, server_added, token_not_checked, WizardAction,
};
use boilchangeip::bot::state::Instant;
use boilchangeip::bot::timer_ui::timer_change_saved;
use boilchangeip::config::{AppConfig, PairingCode, SecretToken, ServerConfig, ServerTimerConfig};

const CHAT: i64 = 12345;

fn server(id: &str) -> ServerConfig {
    ServerConfig {
        id: id.to_string(),
        name: format!("Server {id}"),
        token: SecretToken::from_stored(format!("hidden-{id}-token")),
        enabled: true,
        address: Some("a.example.com".to_string()),
        country: None,
        flag: None,
        resolved_ip: None,
        timer: None,
    }
}

fn config() -> AppConfig {
    AppConfig {
        servers: vec![server("hk-01"), server("jp_02")],
        global_timer: None,
        tg_token: None,
        tg_chat_id: Some("12345".to_string()),
        tg_pair_code: None,
        tg_pair_expires_at: None,
        change_ip_cooldown: None,
        migration_notice: None,
    }
}

fn at(secs: u64) -> Instant {
    Instant { nanos: 1_000_000_000 * (1000 + secs) }
}

fn press(shared: &mut BotShared, data: &str, now: u64) -> BotTask {
    handle_callback(shared, Some(CHAT), Some(data), at(now), 0xf0)
}

fn write(shared: &mut BotShared, text: &str, now: u64) -> BotTask {
    handle_message(shared, CHAT, Some(text), at(now))
}

fn said(task: BotTask) -> String {
    match task {
        BotTask::Say(r) | BotTask::SayAboutTimers(r) => r.text,
        _ => panic!("expected an answer"),
    }
}

fn command(shared: &mut BotShared, chat: i64, c: Command) -> (BotTask, bool) {
    handle_command(shared, chat, c, at(0), 0xf0, 50)
}

#[test]
fn strangers_are_refused() {
    let mut shared = BotShared::new(config());
    assert_eq!(said(command(&mut shared, 1, Command::Start).0), "请先完成配对");
    assert_eq!(said(command(&mut shared, 1, Command::Servers).0), "拒绝访问");
    assert_eq!(said(handle_message(&mut shared, 1, Some("x"), at(0))), "拒绝访问");
    assert!(matches!(
        handle_callback(&mut shared, Some(1), Some("server_delete_confirm:hk-01"), at(0), 1),
        BotTask::Nothing
    ));
    assert!(matches!(
        handle_callback(&mut shared, None, Some("timer_new"), at(0), 1),
        BotTask::Nothing
    ));
    assert!(matches!(handle_message(&mut shared, CHAT, None, at(0)), BotTask::Nothing));
}

#[test]
fn a_pairing_code_is_taken_from_every_chat() {
    let mut c = config();
    c.tg_chat_id = None;
    c.tg_pair_code = PairingCode::new("ABCD-EFGH".to_string()).ok();
    c.tg_pair_expires_at = Some(100);
    let mut shared = BotShared::new(c);
    match command(&mut shared, 77, Command::Pair(" abcd-efgh ".to_string())) {
        (BotTask::Pair(PairingDecision::Paired(next)), false) => {
            assert_eq!(next.tg_chat_id.as_deref(), Some("77"));
        }
        _ => panic!("expected a pairing"),
    }
    assert!(shared.config.tg_chat_id.is_none());
}

#[test]
fn a_busy_chat_drops_commands() {
    let mut shared = BotShared::new(config());
    let (first, busy) = command(&mut shared, CHAT, Command::Status("hk-01".to_string()));
    assert!(busy);
    assert!(matches!(first, BotTask::ShowStatus(s) if s.id == "hk-01"));
    let (second, busy) = command(&mut shared, CHAT, Command::Check("hk-01".to_string()));
    assert!(!busy);
    assert!(matches!(second, BotTask::Nothing));
    let (help, busy) = command(&mut shared, CHAT, Command::Help);
    assert!(!busy);
    assert!(said(help).starts_with("可用命令："));
    shared.busy.leave(CHAT);
    let (third, busy) = command(&mut shared, CHAT, Command::Check(" jp_02".to_string()));
    assert!(busy);
    assert!(matches!(third, BotTask::CheckServer(s) if s.id == "jp_02"));
}

#[test]
fn an_address_is_changed_after_a_confirmation_only() {
    let mut shared = BotShared::new(config());
    let text = said(press(&mut shared, "select_change:hk-01", 0));
    assert!(text.starts_with("确认更换这台服务器的 IP？\n\n📡 <b>Server hk-01</b>"));
    assert!(!text.contains("hidden"));
    assert_eq!(
        said(press(&mut shared, "confirm_change:jp_02:f01", 1)),
        "确认信息不匹配，请重新发送 /change"
    );
    match press(&mut shared, "confirm_change:hk-01:f01", 2) {
        BotTask::ChangeIp(s) => assert_eq!(s.id, "hk-01"),
        _ => panic!("expected a change"),
    }
    assert_eq!(
        said(press(&mut shared, "confirm_change:hk-01:f01", 3)),
        "该确认已使用，请勿重复点击"
    );
    let _ = press(&mut shared, "select_change:hk-01", 4);
    assert_eq!(said(press(&mut shared, "cancel_change:hk-01:f02", 5)), "已取消换 IP");
    assert_eq!(
        said(press(&mut shared, "confirm_change:hk-01:f02", 6)),
        "该确认已使用，请勿重复点击"
    );
    let _ = press(&mut shared, "select_change:hk-01", 7);
    assert_eq!(
        said(press(&mut shared, "confirm_change:hk-01:f03", 127)),
        "确认已过期，请重新发送 /change"
    );
    assert_eq!(said(press(&mut shared, "select_change:zz", 8)), "server 不存在或已禁用");
    assert_eq!(
        said(press(&mut shared, "change:router:interface", 9)),
        "旧版 change callback 已拒绝，请重新发送 /change"
    );
}

#[test]
fn a_timer_is_set_step_by_step() {
    let mut shared = BotShared::new(config());
    let _ = press(&mut shared, "timer_new", 0);
    let targets = write(&mut shared, " 03:30 ", 1);
    match targets {
        BotTask::SayAboutTimers(r) => {
            let rows = r.keyboard.unwrap().rows;
            assert_eq!(rows[0][0].data, "timer_create:all:03:30");
            assert_eq!(rows[2][0].data, "timer_create:server:jp_02:03:30");
        }
        _ => panic!("expected targets"),
    }
    let next = match press(&mut shared, "timer_create:server:jp_02:03:30", 2) {
        BotTask::SaveTimers(next) => next,
        _ => panic!("expected a configuration"),
    };
    assert!(shared.config.servers[1].timer.is_none());
    let reply = timer_change_saved(&mut shared.config, &mut shared.timer, next, SaveOutcome::Saved);
    assert_eq!(reply.text, "✅ 定时配置已保存并重新调度");
    assert_eq!(shared.timer.job_count(), 1);
    assert_eq!(
        shared.config.servers[1].timer.as_ref().and_then(|t| t.cron.as_deref()),
        Some("30 3 * * *")
    );
    assert_eq!(
        said(press(&mut shared, "timer_create:all:99:99", 3)),
        said(press(&mut shared, "timer_create:all:88:88", 3))
    );
    let _ = press(&mut shared, "timer_edit_target:all", 4);
    assert!(said(write(&mut shared, "soon", 5)).starts_with("❌ "));
    assert!(matches!(write(&mut shared, "03:30", 6), BotTask::Nothing));
    match press(&mut shared, "timer_close:server:jp_02", 7) {
        BotTask::SaveTimers(next) => {
            let t = next.servers[1].timer.as_ref().unwrap();
            assert!(!t.enabled);
            assert_eq!(t.cron.as_deref(), Some("30 3 * * *"));
            let reply = timer_change_saved(
                &mut shared.config,
                &mut shared.timer,
                next,
                SaveOutcome::SaveFailed("disk".to_string()),
            );
            assert_eq!(reply.text, "❌ 保存失败: disk");
            assert!(shared.config.servers[1].timer.as_ref().unwrap().enabled);
        }
        _ => panic!("expected a configuration"),
    }
    assert!(matches!(press(&mut shared, "timer_refresh", 8), BotTask::ShowTimerPanel));
    assert_eq!(said(press(&mut shared, "timer_close", 9)), "请选择要关闭定时换 IP 的范围：");
}

fn asked(task: BotTask) -> String {
    match task {
        BotTask::AddServer(WizardAction::Say(r), false) => r.text,
        _ => panic!("expected a question"),
    }
}

#[test]
fn a_server_is_added_step_by_step() {
    let mut shared = BotShared::new(config());
    assert_eq!(
        said(press(&mut shared, "menu:addserver", 0)),
        "请给这台服务器设置一个显示名称："
    );
    assert_eq!(asked(write(&mut shared, "", 1)), "❌ 名称不能为空，请重新输入。");
    assert_eq!(asked(write(&mut shared, " New VPS ", 2)), "请输入服务器地址（IP 或域名）：");
    assert_eq!(asked(write(&mut shared, "http:///x", 3)), "❌ 服务器地址不能为空，请重新输入。");
    assert_eq!(
        asked(write(&mut shared, "https://vps.example:8443/x", 4)),
        "请发送这台 VPS 的新版 Boil Token："
    );
    match write(&mut shared, "  ", 5) {
        BotTask::AddServer(WizardAction::Say(r), true) => assert!(r.text.contains("Token 验证失败")),
        _ => panic!("expected a refusal"),
    }
    let (name, address, token) = match write(&mut shared, " fresh ", 6) {
        BotTask::AddServer(WizardAction::CheckToken { name, address, token }, true) => {
            (name, address, token)
        }
        _ => panic!("expected a token"),
    };
    assert_eq!(name, "New VPS");
    assert_eq!(address, "vps.example");
    assert_eq!(token.expose_secret(), "fresh");
    let reply = token_not_checked(
        &mut shared.server_wizards,
        CHAT,
        name.clone(),
        address.clone(),
        "no client",
        at(7),
    );
    assert_eq!(reply.text, "❌ 初始化失败: no client");
    assert!(matches!(
        write(&mut shared, "bad", 8),
        BotTask::AddServer(WizardAction::CheckToken { .. }, true)
    ));
    let refused =
        new_token_checked(&mut shared.server_wizards, CHAT, &name, &address, None, at(9));
    assert_eq!(refused.text, "❌ Token 验证失败\n\n请重新发送新版 Boil Token。");
    match write(&mut shared, "fresh", 10) {
        BotTask::AddServer(WizardAction::CheckToken { name, address, .. }, true) => {
            assert_eq!((name.as_str(), address.as_str()), ("New VPS", "vps.example"));
        }
        _ => panic!("expected a token"),
    }
    let good = new_token_checked(
        &mut shared.server_wizards,
        CHAT,
        &name,
        &address,
        Some("5.6.7.8"),
        at(11),
    );
    assert_eq!(good.text, "✅ Token 验证成功\n\n当前 IP：5.6.7.8");
    let metadata = address_metadata(None, None);
    let next = add_server(&shared.config, &name, &address, "5.6.7.8", &token, &metadata);
    let failed = server_added(
        &mut shared.config,
        &mut shared.timer,
        &mut shared.server_wizards,
        CHAT,
        next.clone(),
        SaveOutcome::SaveFailed("disk".to_string()),
        &name,
        &address,
        &metadata,
        at(12),
    );
    assert_eq!(failed.text, "❌ 保存失败: disk");
    assert_eq!(shared.config.servers.len(), 2);
    assert!(matches!(
        write(&mut shared, "fresh", 13),
        BotTask::AddServer(WizardAction::CheckToken { .. }, true)
    ));
    let done = server_added(
        &mut shared.config,
        &mut shared.timer,
        &mut shared.server_wizards,
        CHAT,
        next,
        SaveOutcome::Saved,
        &name,
        &address,
        &metadata,
        at(14),
    );
    assert_eq!(done.text, "✅ 配置完成\n\n📡 <b>New VPS</b>\n\n🌐 未知地区\nvps.example");
    assert_eq!(shared.config.servers[2].id, "server-1");
    assert_eq!(shared.config.servers[2].address.as_deref(), Some("vps.example"));
    assert_eq!(shared.config.servers[2].resolved_ip.as_deref(), Some("5.6.7.8"));
    assert!(matches!(write(&mut shared, "x", 15), BotTask::Nothing));
}

#[test]
fn a_server_is_edited() {
    let mut shared = BotShared::new(config());
    let menu = match press(&mut shared, "server_edit:hk-01", 0) {
        BotTask::Say(r) => r,
        _ => panic!("expected a menu"),
    };
    assert_eq!(menu.keyboard.unwrap().rows[1][1].data, "server_revalidate:hk-01");
    let _ = press(&mut shared, "server_edit_name:hk-01", 1);
    let (next, success) = match write(&mut shared, " Renamed ", 2) {
        BotTask::Edit(EditAction::Save { next, success }, false) => (next, success),
        _ => panic!("expected a configuration"),
    };
    let reply = save_config_and_reload(
        &mut shared.config,
        &mut shared.timer,
        next,
        success,
        SaveOutcome::RescheduleFailed("s<".to_string()),
    );
    assert_eq!(reply.text, "❌ 已保存配置，但重新调度失败: s&lt;");
    assert_eq!(shared.config.servers[0].name, "Renamed");

    let _ = press(&mut shared, "server_edit_address:hk-01", 3);
    match write(&mut shared, "https://new.example/x", 4) {
        BotTask::Edit(EditAction::FindAddress { server_id, address }, false) => {
            let metadata = address_metadata(Some("9.9.9.9".to_string()), None);
            let action = address_found(&shared.config, &server_id, address, &metadata);
            let EditAction::Save { next, success } = action else {
                panic!("expected a configuration");
            };
            assert_eq!(success, "✅ 服务器地址已更新");
            let s = &next.servers[0];
            assert_eq!(s.address.as_deref(), Some("new.example"));
            assert_eq!(s.resolved_ip.as_deref(), Some("9.9.9.9"));
        }
        _ => panic!("expected an address"),
    }

    let _ = press(&mut shared, "server_edit_token:hk-01", 5);
    match write(&mut shared, "tok", 6) {
        BotTask::Edit(EditAction::CheckToken { server_id, token }, true) => {
            let bad = token_checked(
                &shared.config,
                &server_id,
                token.clone(),
                Err("Bearer no".to_string()),
            );
            assert!(matches!(
                bad,
                EditAction::Say(r) if r.text == "❌ Token 验证失败: 认证信息 no"
            ));
            let good = token_checked(&shared.config, &server_id, token, Ok(()));
            let EditAction::Save { next, success } = good else {
                panic!("expected a configuration");
            };
            assert_eq!(success, "✅ 服务器 Token 已更新");
            assert_eq!(next.servers[0].token.expose_secret(), "tok");
        }
        _ => panic!("expected a token"),
    }
    let _ = press(&mut shared, "server_edit_name:hk-01", 7);
    let _ = press(&mut shared, "menu:servers", 8);
    assert!(matches!(write(&mut shared, "late", 9), BotTask::Nothing));
    let _ = press(&mut shared, "server_edit_name:none", 10);
    match write(&mut shared, "x", 11) {
        BotTask::Edit(EditAction::Say(r), false) => assert_eq!(r.text, "❌ 未找到服务器"),
        _ => panic!("expected a refusal"),
    }
    match press(&mut shared, "server_revalidate:jp_02", 12) {
        BotTask::Revalidate { server_id, token, address } => {
            assert_eq!(token.expose_secret(), "hidden-jp_02-token");
            assert_eq!(address, "a.example.com");
            let metadata = address_metadata(None, None);
            assert!(matches!(
                revalidated(&shared.config, &server_id, address.clone(), &metadata),
                EditAction::Save { success: "✅ 服务器已重新验证", .. }
            ));
            assert!(matches!(
                revalidated(&shared.config, "none", address, &metadata),
                EditAction::Say(r) if r.text == "❌ 未找到服务器"
            ));
        }
        _ => panic!("expected a check"),
    }
    assert_eq!(revalidation_failed("x").text, "❌ 验证失败: x");
}

#[test]
fn servers_are_moved_and_removed() {
    let mut shared = BotShared::new(config());
    match press(&mut shared, "server_move_down:hk-01", 0) {
        BotTask::Save { next, success } => {
            assert_eq!(success, "✅ 服务器顺序已更新");
            assert_eq!(next.servers[0].id, "jp_02");
        }
        _ => panic!("expected a configuration"),
    }
    let ask = match press(&mut shared, "server_delete:hk-01", 1) {
        BotTask::Say(r) => r,
        _ => panic!("expected a question"),
    };
    let rows = ask.keyboard.unwrap().rows;
    assert_eq!(rows[0][0].data, "server_delete_confirm:hk-01");
    assert_eq!(said(press(&mut shared, "server_delete_cancel", 2)), "已取消删除");
    match press(&mut shared, "server_delete_confirm:hk-01", 3) {
        BotTask::Save { next, .. } => assert_eq!(next.servers.len(), 1),
        _ => panic!("expected a configuration"),
    }
    assert_eq!(shared.config.servers.len(), 2);
    assert_eq!(said(press(&mut shared, "server_delete_confirm:none", 4)), "❌ 未找到服务器");
    assert_eq!(said(press(&mut shared, "server_delete:none", 5)), "服务器不存在或已禁用");
    assert_eq!(said(press(&mut shared, "nonsense", 6)), "无法识别的操作，请重新发送命令");
    match press(&mut shared, "menu:servers", 7) {
        BotTask::ShowServers(v) => assert_eq!(v.len(), 2),
        _ => panic!("expected the list"),
    }
    shared.config.servers.clear();
    assert_eq!(
        said(press(&mut shared, "menu:servers", 8)),
        "尚未添加服务器，请点击“添加服务器”。"
    );
}

#[test]
fn answers_are_the_same_whatever_the_tokens_are() {
    let mut other = config();
    other.servers[0].token = SecretToken::from_stored("another".to_string());
    other.servers[1].token = SecretToken::from_stored("more".to_string());
    other.tg_token = Some("bot".to_string());
    for data in [
        "menu:change",
        "menu:status",
        "select_change:hk-01",
        "timer_edit",
        "timer_close",
        "server_edit:jp_02",
        "server_delete:jp_02",
        "select_check:zz",
    ] {
        let (mut a, mut b) = (BotShared::new(config()), BotShared::new(other.clone()));
        match (press(&mut a, data, 0), press(&mut b, data, 0)) {
            (BotTask::Say(x), BotTask::Say(y))
            | (BotTask::SayAboutTimers(x), BotTask::SayAboutTimers(y)) => assert_eq!(x, y),
            _ => panic!("expected answers"),
        }
    }
}

#[test]
fn the_bot_needs_a_token() {
    let mut c = config();
    assert_eq!(
        bot_token(&c),
        Err("未配置 TG_TOKEN，请在 config.env 中配置".to_string())
    );
    c.tg_token = Some("t".to_string());
    assert_eq!(bot_token(&c), Ok("t".to_string()));
    c.global_timer = Some(ServerTimerConfig {
        enabled: true,
        cron: Some("1 2 * * *".to_string()),
    });
    assert_eq!(BotShared::new(c).timer.job_count(), 1);
}
