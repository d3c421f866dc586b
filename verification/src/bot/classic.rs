//! A smaller bot: it knows servers by their ids, and sets timers and changes addresses, but does
//! not manage servers. Chats that may not give orders get no answer.

use vstd::prelude::*;
use crate::bot::callbacks::{
    callback_action, order, parse_callback as parse_all, with_arg, ActionModel, CallbackAction,
};
use crate::bot::change::{
    counted, details_of_result, name_of_status, named, not_chosen_reply, resolve_for_tg,
    result_details, status_name,
};
use crate::bot::commands::{help_line, menu_model, Command, CommandModel, MenuCommand, MenuModel};
use crate::bot::dispatch::{
    check_of_server, check_task, on_action, on_button, set_timer, status_of_server, status_task,
    timer_task, BotModel, BotShared, BotTask, TaskModel,
};
use crate::bot::flows::{
    lemma_time_is_no_command, only_global_timer, only_timer_of, runs_daily, waits, within,
};
use crate::bot::formatting::{escaped, html_escape};
use crate::bot::pairing::{chat_authorized, is_authorized_callback_chat};
use crate::bot::state::{after_insert, nonce_of, pruned, taken, Instant};
use crate::bot::timer_ui::{
    handle_timer_time_input, input_action, InputActionModel, TimerInputAction,
};
use crate::bot::ui::{
    button, button_of, html, html_with, plain, Keyboard, Reply, ReplyModel,
};
use crate::config::choice::{name_means_its_server, one_enabled_server_needs_no_name};
use crate::config::{choose_server, chosen, ServerConfig, ServerModel};
use crate::reconnect::{ReconnectResult, ResultModel};
use crate::server_manage::{lemma_stands_first, stands_first};
use crate::text::{
    has_prefix, is_blank, join, joined, lemma_trimmed_blank, opt_text, starts_with, texts, trim,
    trimmed, trimming_takes_the_ends_away,
};
use crate::timer::{
    enabling_sets_one_timer, names_time, times_are_understood_as_written, ServerStatusModel,
    StatusModel, TargetModel, TimerServerStatus, TimerStatus,
};

verus! {

// ---------------------------------------------------------------------------
// Menu and help
// ---------------------------------------------------------------------------

pub open spec fn classic_menu() -> MenuModel {
    seq![
        ("start"@, "开始使用 Bot"@),
        ("help"@, "查看使用帮助"@),
        ("status"@, "查看 VPS 当前状态"@),
        ("check"@, "检查 VPS 当前 IP 质量"@),
        ("change"@, "更换已启用 VPS 的 IP"@),
        ("timer"@, "查看定时换 IP 配置"@),
    ]
}

fn menu_command(command: &str, description: &str) -> (r: MenuCommand)
    ensures
        r.command@ == command@,
        r.description@ == description@,
{
    MenuCommand { command: command.to_owned(), description: description.to_owned() }
}

pub fn menu_commands() -> (r: Vec<MenuCommand>)
    ensures
        menu_model(r@) == classic_menu(),
{
    let mut r: Vec<MenuCommand> = Vec::new();
    r.push(menu_command("start", "开始使用 Bot"));
    r.push(menu_command("help", "查看使用帮助"));
    r.push(menu_command("status", "查看 VPS 当前状态"));
    r.push(menu_command("check", "检查 VPS 当前 IP 质量"));
    r.push(menu_command("change", "更换已启用 VPS 的 IP"));
    r.push(menu_command("timer", "查看定时换 IP 配置"));
    assert(menu_model(r@) =~= classic_menu());
    r
}

/// The lines of the help, one for each command.
pub open spec fn help_lines(menu: MenuModel) -> Seq<Seq<char>> {
    Seq::new(menu.len(), |i: int| help_line(menu[i]))
}

pub open spec fn classic_help() -> Seq<char> {
    "可用命令：\n\n"@ + joined(help_lines(classic_menu()), "\n"@)
}

pub fn help_text() -> (r: String)
    ensures
        r@ == classic_help(),
{
    let menu = menu_commands();
    let mut lines: Vec<String> = Vec::new();
    let mut i: usize = 0;
    while i < menu.len()
        invariant
            i <= menu@.len(),
            menu_model(menu@) == classic_menu(),
            lines@.len() == i,
            forall|k: int|
                0 <= k < i ==> (#[trigger] lines@[k])@ == help_line(menu_model(menu@)[k]),
        decreases menu@.len() - i,
    {
        let mut line = "/".to_owned();
        line.append(menu[i].command.as_str());
        line.append(" — ");
        line.append(menu[i].description.as_str());
        lines.push(line);
        i += 1;
    }
    assert(menu_model(menu@).len() == menu@.len());
    assert(texts(lines@) =~= help_lines(classic_menu()));
    let mut r = "可用命令：\n\n".to_owned();
    r.append(join(&lines, "\n").as_str());
    r
}

pub open spec fn classic_start() -> Seq<char> {
    "欢迎使用 boilchangeip Telegram Bot。\n\n"@ + classic_help()
}

pub fn start_text() -> (r: String)
    ensures
        r@ == classic_start(),
{
    let mut r = "欢迎使用 boilchangeip Telegram Bot。\n\n".to_owned();
    r.append(help_text().as_str());
    r
}

// ---------------------------------------------------------------------------
// Messages
// ---------------------------------------------------------------------------

pub open spec fn status_message(s: ServerModel, reply: Result<&str, &str>) -> Seq<char> {
    match reply {
        Ok(ip) => "📡 <b>"@ + escaped(s.name) + "</b>\nserver: <code>"@ + escaped(s.id)
            + "</code>\nIP: <code>"@ + ip@ + "</code>"@,
        Err(e) => "❌ <b>"@ + escaped(s.name) + "</b>\nserver: <code>"@ + escaped(s.id)
            + "</code>\n查询失败: "@ + escaped(e@),
    }
}

/// The message about a server that was asked for its address.
pub fn status_reply(server: &ServerConfig, reply: Result<&str, &str>) -> (r: Reply)
    ensures
        r@ == html(status_message(server@, reply)),
{
    let mut text = match reply {
        Ok(_) => "📡 <b>".to_owned(),
        Err(_) => "❌ <b>".to_owned(),
    };
    text.append(html_escape(server.name.as_str()).as_str());
    text.append("</b>\nserver: <code>");
    text.append(html_escape(server.id.as_str()).as_str());
    match reply {
        Ok(ip) => {
            text.append("</code>\nIP: <code>");
            text.append(ip);
            text.append("</code>");
        },
        Err(e) => {
            text.append("</code>\n查询失败: ");
            text.append(html_escape(e).as_str());
        },
    }
    Reply::html(text)
}

/// The address of a server that was to be checked is not known.
pub fn check_failed(error: &str) -> (r: Reply)
    ensures
        r@ == plain("❌ API 查询失败: "@ + escaped(error@)),
{
    let mut text = "❌ API 查询失败: ".to_owned();
    text.append(html_escape(error).as_str());
    Reply::plain(text)
}

pub open spec fn reconnect_text(r: ResultModel) -> Seq<char> {
    "VPS: <b>"@ + escaped(r.server_name) + "</b>\nserver: <code>"@ + escaped(r.server_id)
        + "</code>\n状态: "@ + status_name(r.status) + result_details(r)
}

/// What came of a change.
pub fn reconnect_result(result: &ReconnectResult) -> (r: Reply)
    ensures
        r@ == html(reconnect_text(result@)),
{
    let mut text = "VPS: <b>".to_owned();
    text.append(html_escape(result.server_name.as_str()).as_str());
    text.append("</b>\nserver: <code>");
    text.append(html_escape(result.server_id.as_str()).as_str());
    text.append("</code>\n状态: ");
    text.append(name_of_status(result.status));
    text.append(details_of_result(result).as_str());
    Reply::html(text)
}

pub open spec fn timer_state(enabled: bool, time: Option<Seq<char>>) -> Seq<char> {
    if enabled {
        "已开启 | 每天 "@ + escaped(
            match time {
                Some(t) => t,
                None => "时间未设置"@,
            },
        )
    } else {
        match time {
            Some(t) => "已关闭"@ + " | 保留时间 "@ + escaped(t),
            None => "已关闭"@,
        }
    }
}

pub fn timer_state_text(enabled: bool, time: &Option<String>) -> (r: String)
    ensures
        r@ == timer_state(enabled, opt_text(*time)),
{
    if enabled {
        let mut r = "已开启 | 每天 ".to_owned();
        r.append(
            html_escape(
                match time {
                    Some(t) => t.as_str(),
                    None => "时间未设置",
                },
            ).as_str(),
        );
        r
    } else {
        let mut r = "已关闭".to_owned();
        match time {
            Some(t) => {
                r.append(" | 保留时间 ");
                r.append(html_escape(t.as_str()).as_str());
            },
            None => {},
        }
        r
    }
}

pub open spec fn panel_entry(s: ServerStatusModel) -> Seq<char> {
    "\n- 🖥 "@ + escaped(s.server_name) + " (<code>"@ + escaped(s.server_id) + "</code>): "@ + (
    if s.server_enabled {
        timer_state(s.timer_enabled, s.time)
    } else {
        "VPS 已禁用"@
    })
}

pub open spec fn panel_entries(servers: Seq<ServerStatusModel>) -> Seq<char>
    decreases servers.len(),
{
    if servers.len() == 0 {
        Seq::empty()
    } else {
        panel_entries(servers.drop_last()) + panel_entry(servers.last())
    }
}

/// The panel: what the timers are set to.
pub open spec fn panel(status: StatusModel) -> Seq<char> {
    "⏰ <b>定时换 IP</b>\n当前时区: <code>"@ + escaped(status.timezone)
        + "</code>\n🌐 全部 Server: "@ + timer_state(
        status.global_timer_enabled,
        status.global_time,
    ) + "\nServer 定时状态:"@ + panel_entries(status.servers)
}

fn entry_text(s: &TimerServerStatus) -> (r: String)
    ensures
        r@ == panel_entry(s@),
{
    let mut r = "\n- 🖥 ".to_owned();
    r.append(html_escape(s.server_name.as_str()).as_str());
    r.append(" (<code>");
    r.append(html_escape(s.server_id.as_str()).as_str());
    r.append("</code>): ");
    if s.server_enabled {
        r.append(timer_state_text(s.timer_enabled, &s.time).as_str());
    } else {
        r.append("VPS 已禁用");
    }
    r
}

pub fn format_timer_panel(status: &TimerStatus) -> (r: String)
    ensures
        r@ == panel(status@),
{
    let mut r = "⏰ <b>定时换 IP</b>\n当前时区: <code>".to_owned();
    r.append(html_escape(status.timezone).as_str());
    r.append("</code>\n🌐 全部 Server: ");
    r.append(timer_state_text(status.global_timer_enabled, &status.global_time).as_str());
    r.append("\nServer 定时状态:");
    let ghost head = r@;
    let ghost m = status@.servers;
    let mut i: usize = 0;
    assert(r@ =~= head + panel_entries(m.subrange(0, 0)));
    while i < status.servers.len()
        invariant
            i <= status.servers@.len(),
            m == status@.servers,
            r@ == head + panel_entries(m.subrange(0, i as int)),
        decreases status.servers@.len() - i,
    {
        let server = &status.servers[i];
        let ghost t = m.subrange(0, i + 1);
        assert(t.drop_last() =~= m.subrange(0, i as int));
        assert(t.last() == server@);
        r.append(entry_text(server).as_str());
        assert(r@ =~= head + panel_entries(t));
        i += 1;
    }
    assert(m.subrange(0, m.len() as int) =~= m);
    r
}

// ---------------------------------------------------------------------------
// Buttons
// ---------------------------------------------------------------------------

/// An order that this bot takes.
pub open spec fn taken_here(a: ActionModel) -> bool {
    match a {
        ActionModel::SelectStatus(_) | ActionModel::SelectCheck(_) | ActionModel::SelectChange(_)
        | ActionModel::ConfirmChange { .. } | ActionModel::CancelChange { .. }
        | ActionModel::TimerNew | ActionModel::TimerEdit | ActionModel::TimerClose
        | ActionModel::TimerRefresh | ActionModel::TimerCreateAll { .. }
        | ActionModel::TimerCreateServer { .. } | ActionModel::TimerEditTargetAll
        | ActionModel::TimerEditTargetServer(_) | ActionModel::TimerCloseAll
        | ActionModel::TimerCloseServer(_) | ActionModel::LegacyChange => true,
        _ => false,
    }
}

/// What the data of a button asks this bot for.
pub open spec fn classic_action(data: Seq<char>) -> ActionModel {
    if taken_here(callback_action(data)) {
        callback_action(data)
    } else {
        ActionModel::Unknown
    }
}

pub fn parse_callback(data: &str) -> (r: CallbackAction)
    ensures
        r@ == classic_action(data@),
{
    let a = parse_all(data);
    match &a {
        CallbackAction::SelectStatus(_) | CallbackAction::SelectCheck(_)
        | CallbackAction::SelectChange(_) | CallbackAction::ConfirmChange { .. }
        | CallbackAction::CancelChange { .. } | CallbackAction::TimerNew
        | CallbackAction::TimerEdit | CallbackAction::TimerClose | CallbackAction::TimerRefresh
        | CallbackAction::TimerCreateAll { .. } | CallbackAction::TimerCreateServer { .. }
        | CallbackAction::TimerEditTargetAll | CallbackAction::TimerEditTargetServer(_)
        | CallbackAction::TimerCloseAll | CallbackAction::TimerCloseServer(_)
        | CallbackAction::LegacyChange => a,
        _ => CallbackAction::Unknown,
    }
}

/// The question whether the address of a server is to be changed.
pub open spec fn confirmation_reply(s: ServerModel, nonce: Seq<char>) -> ReplyModel {
    html_with(
        "确认更换 VPS <b>"@ + escaped(s.name) + "</b> 的 IP？\nserver: <code>"@ + escaped(s.id)
            + "</code>"@,
        seq![
            seq![
                button_of("确认换 IP"@, with_arg("confirm_change"@, with_arg(s.id, nonce))),
                button_of("取消"@, with_arg("cancel_change"@, with_arg(s.id, nonce))),
            ],
        ],
    )
}

/// What is done about the order to change the address of a server.
pub open spec fn ask_to_change(s: BotModel, id: Seq<char>, now: Instant, millis: u128) -> (
    TaskModel,
    BotModel,
) {
    match chosen(s.config.servers, Some(id)) {
        Ok(server) => {
            let nonce = nonce_of(s.next_confirmation, millis);
            (
                TaskModel::Say(confirmation_reply(server, nonce)),
                BotModel {
                    confirmations: after_insert(s.confirmations, server.id, nonce, now),
                    next_confirmation: counted(s.next_confirmation),
                    ..s
                },
            )
        },
        Err(_) => (TaskModel::Say(plain("server 不存在或已禁用"@)), s),
    }
}

pub fn show_change_confirmation(
    shared: &mut BotShared,
    server_id: &str,
    now: Instant,
    millis: u128,
) -> (r: BotTask)
    requires
        old(shared).wf(),
    ensures
        final(shared).wf(),
        (r@, final(shared)@) == ask_to_change(old(shared)@, server_id@, now, millis),
{
    match choose_server(&shared.config, Some(server_id)) {
        Ok(server) => {
            let nonce = shared.confirmations.insert(server.id.as_str(), now, millis);
            let named = order(server.id.as_str(), nonce.as_str());
            let mut keyboard = Keyboard::new();
            keyboard.push_two(
                button("确认换 IP", order("confirm_change", named.as_str()).as_str()),
                button("取消", order("cancel_change", named.as_str()).as_str()),
            );
            assert(keyboard@ =~= confirmation_reply(server@, nonce@).keyboard->Some_0);
            let mut text = "确认更换 VPS <b>".to_owned();
            text.append(html_escape(server.name.as_str()).as_str());
            text.append("</b> 的 IP？\nserver: <code>");
            text.append(html_escape(server.id.as_str()).as_str());
            text.append("</code>");
            BotTask::Say(Reply::html_with(text, keyboard))
        },
        Err(_) => BotTask::Say(Reply::say("server 不存在或已禁用")),
    }
}

/// What is done about a button, and what is remembered then.
pub open spec fn on_classic_action(
    s: BotModel,
    chat: i64,
    action: ActionModel,
    now: Instant,
    millis: u128,
) -> (TaskModel, BotModel) {
    match action {
        ActionModel::SelectChange(id) => ask_to_change(s, id, now, millis),
        _ => on_action(s, chat, action, now, millis),
    }
}

/// What is done about a button that was pressed by a user, in the chat of its message.
pub fn handle_callback(
    shared: &mut BotShared,
    user_id: i64,
    chat_id: Option<i64>,
    data: Option<&str>,
    now: Instant,
    millis: u128,
) -> (r: BotTask)
    requires
        old(shared).wf(),
    ensures
        final(shared).wf(),
        match (chat_id, data) {
            (Some(chat), Some(d)) => if chat_authorized(old(shared)@.config, user_id) {
                (r@, final(shared)@) == on_classic_action(
                    old(shared)@,
                    chat,
                    classic_action(d@),
                    now,
                    millis,
                )
            } else {
                r@ == TaskModel::Nothing && final(shared)@ == old(shared)@
            },
            _ => r@ == TaskModel::Nothing && final(shared)@ == old(shared)@,
        },
{
    if !is_authorized_callback_chat(&shared.config, user_id) {
        return BotTask::Nothing;
    }
    match (chat_id, data) {
        (Some(chat), Some(d)) => match parse_callback(d) {
            CallbackAction::SelectChange(id) => show_change_confirmation(
                shared,
                id.as_str(),
                now,
                millis,
            ),
            action => on_button(shared, chat, action, now, millis),
        },
        _ => BotTask::Nothing,
    }
}

// ---------------------------------------------------------------------------
// Commands and texts
// ---------------------------------------------------------------------------

/// What is done about a command, and what is remembered then.
pub open spec fn command_outcome(
    s: BotModel,
    chat: i64,
    command: CommandModel,
    now: Instant,
    millis: u128,
) -> (TaskModel, BotModel) {
    if !chat_authorized(s.config, chat) {
        (TaskModel::Nothing, s)
    } else {
        match command {
            CommandModel::Start => (TaskModel::Say(plain(classic_start())), s),
            CommandModel::Help => (TaskModel::Say(plain(classic_help())), s),
            CommandModel::Status(arg) => (status_task(s.config, trimmed(arg)), s),
            CommandModel::Check(arg) => (check_task(s.config, trimmed(arg)), s),
            CommandModel::Change(arg) => match chosen(s.config.servers, named(trimmed(arg))) {
                Ok(server) => ask_to_change(s, server.id, now, millis),
                Err(f) => (
                    TaskModel::Say(
                        not_chosen_reply(
                            s.config.servers,
                            named(trimmed(arg)),
                            f,
                            "change"@,
                        ),
                    ),
                    s,
                ),
            },
            CommandModel::Timer => (TaskModel::ShowTimerPanel, s),
            _ => (TaskModel::Nothing, s),
        }
    }
}

/// What is done about a command. This bot has no commands about servers and none to pair.
pub fn handle_command(
    shared: &mut BotShared,
    chat_id: i64,
    command: Command,
    now: Instant,
    millis: u128,
) -> (r: BotTask)
    requires
        old(shared).wf(),
    ensures
        final(shared).wf(),
        (r@, final(shared)@) == command_outcome(old(shared)@, chat_id, command@, now, millis),
{
    if !is_authorized_callback_chat(&shared.config, chat_id) {
        return BotTask::Nothing;
    }
    match command {
        Command::Start => BotTask::Say(Reply::plain(start_text())),
        Command::Help => BotTask::Say(Reply::plain(help_text())),
        Command::Status(arg) => status_of_server(&shared.config, trim(arg.as_str()).as_str()),
        Command::Check(arg) => check_of_server(&shared.config, trim(arg.as_str()).as_str()),
        Command::Change(arg) => {
            let arg = trim(arg.as_str());
            let id = match resolve_for_tg(&shared.config, arg.as_str(), "change") {
                Ok(server) => server.id.clone(),
                Err(reply) => return BotTask::Say(reply),
            };
            show_change_confirmation(shared, id.as_str(), now, millis)
        },
        Command::Timer => BotTask::ShowTimerPanel,
        _ => BotTask::Nothing,
    }
}

/// What is done about a text, and what is remembered then: it may be a time that was asked for.
pub open spec fn on_text(s: BotModel, chat: i64, text: Seq<char>, now: Instant) -> (
    TaskModel,
    BotModel,
) {
    if starts_with(text, "/"@) {
        (TaskModel::Nothing, s)
    } else {
        let after = BotModel { timer_inputs: pruned(s.timer_inputs, now).remove(chat), ..s };
        match taken(s.timer_inputs, chat, now) {
            Some(mode) => (
                match input_action(s.timer, mode, text) {
                    InputActionModel::Say(reply) => TaskModel::SayAboutTimers(reply),
                    InputActionModel::Apply(update) => timer_task(s.timer, update),
                },
                after,
            ),
            None => (TaskModel::Nothing, after),
        }
    }
}

/// What is done about a message that is no command; `text` is `None` where it holds none.
pub fn handle_message(shared: &mut BotShared, chat_id: i64, text: Option<&str>, now: Instant) -> (r:
    BotTask)
    requires
        old(shared).wf(),
    ensures
        final(shared).wf(),
        match text {
            Some(t) => if chat_authorized(old(shared)@.config, chat_id) {
                (r@, final(shared)@) == on_text(old(shared)@, chat_id, trimmed(t@), now)
            } else {
                r@ == TaskModel::Nothing && final(shared)@ == old(shared)@
            },
            None => r@ == TaskModel::Nothing && final(shared)@ == old(shared)@,
        },
{
    if !is_authorized_callback_chat(&shared.config, chat_id) {
        return BotTask::Nothing;
    }
    let text = match text {
        Some(t) => trim(t),
        None => return BotTask::Nothing,
    };
    if has_prefix(text.as_str(), "/") {
        return BotTask::Nothing;
    }
    match handle_timer_time_input(
        shared.timer.config(),
        &mut shared.timer_inputs,
        chat_id,
        text.as_str(),
        now,
    ) {
        Some(TimerInputAction::Say(reply)) => BotTask::SayAboutTimers(reply),
        Some(TimerInputAction::Apply(update)) => set_timer(&shared.timer, update),
        None => BotTask::Nothing,
    }
}

/// Here too an address is changed only by the button of a confirmation.
pub proof fn only_a_confirmation_changes_an_address(
    s: BotModel,
    chat: i64,
    data: Seq<char>,
    now: Instant,
    millis: u128,
)
    requires
        on_classic_action(s, chat, classic_action(data), now, millis).0 is ChangeIp,
    ensures
        callback_action(data) is ConfirmChange,
{
}

/// This bot takes the buttons about status, checks, changes and timers as they are, and those
/// that add, edit, move or delete a server as unknown ones.
pub proof fn servers_are_not_managed_here(data: Seq<char>)
    ensures
        ({
            let a = callback_action(data);
            let here = classic_action(data);
            &&& here == a || here is Unknown
            &&& a is SelectStatus || a is SelectCheck || a is SelectChange || a is ConfirmChange
                || a is CancelChange ==> here == a
            &&& a is TimerNew || a is TimerEdit || a is TimerClose || a is TimerRefresh
                || a is TimerCreateAll || a is TimerCreateServer || a is TimerEditTargetAll
                || a is TimerEditTargetServer || a is TimerCloseAll || a is TimerCloseServer
                ==> here == a
            &&& a is ServerEdit || a is ServerEditName || a is ServerEditAddress
                || a is ServerEditToken || a is ServerRevalidate || a is ServerDelete
                || a is ServerDeleteConfirm || a is ServerMoveUp || a is ServerMoveDown
                || a is MenuAddServer || a is ConfirmAddServer ==> here is Unknown
        }),
{
}

/// Here too a time that was asked for sets the timer that it was asked for, and no other: that
/// of the server, or that for all servers.
pub proof fn edited_time_is_set_here_too(
    s: BotModel,
    chat: i64,
    id: Seq<char>,
    i: int,
    text: Seq<char>,
    hour: nat,
    minute: nat,
    asked: Instant,
    now: Instant,
    millis: u128,
)
    requires
        names_time(text, hour, minute),
        within(asked, now, 300),
    ensures
        stands_first(s.timer.servers, id, i) && s.timer.servers[i].enabled ==> {
            let a = ActionModel::TimerEditTargetServer(id);
            let s1 = on_classic_action(s, chat, a, asked, millis).1;
            let r = on_text(s1, chat, trimmed(text), now);
            &&& r.0 matches TaskModel::SaveTimers(next) && only_timer_of(next, s.timer, i)
                && runs_daily(next.servers[i].timer, hour, minute)
            &&& !waits(r.1.timer_inputs, chat, now)
        },
        ({
            let a = ActionModel::TimerEditTargetAll;
            let s1 = on_classic_action(s, chat, a, asked, millis).1;
            let r = on_text(s1, chat, trimmed(text), now);
            &&& r.0 matches TaskModel::SaveTimers(next) && only_global_timer(next, s.timer)
                && runs_daily(next.global_timer, hour, minute)
            &&& !waits(r.1.timer_inputs, chat, now)
        }),
        !waits(s.timer_inputs, chat, now) ==> on_text(s, chat, trimmed(text), now).0 is Nothing,
{
    lemma_time_is_no_command(text, hour, minute);
    lemma_stands_first(s.timer.servers, id);
    enabling_sets_one_timer(s.timer, TargetModel::Server(id), trimmed(text), hour, minute);
    enabling_sets_one_timer(s.timer, TargetModel::AllEnabled, trimmed(text), hour, minute);
    times_are_understood_as_written(trimmed(text), hour, minute);
}

/// Here too the address of a server is changed by two buttons, the second with the nonce of the
/// first and within two minutes, and only once.
pub proof fn confirmed_change_is_made_here_too(
    s: BotModel,
    chat: i64,
    id: Seq<char>,
    i: int,
    asked: Instant,
    now: Instant,
    later: Instant,
    millis: u128,
)
    requires
        stands_first(s.config.servers, id, i),
        s.config.servers[i].enabled,
        asked.nanos <= now.nanos <= later.nanos,
    ensures
        ({
            let ask = on_classic_action(s, chat, ActionModel::SelectChange(id), asked, millis);
            let yes = ActionModel::ConfirmChange {
                server_id: id,
                nonce: nonce_of(s.next_confirmation, millis),
            };
            let r = on_classic_action(ask.1, chat, yes, now, millis);
            &&& ask.0 is Say
            &&& within(asked, now, 120) ==> r.0 == TaskModel::ChangeIp(s.config.servers[i])
            &&& !within(asked, now, 120) ==> r.0 is Say
            &&& on_classic_action(r.1, chat, yes, later, millis).0 is Say
        }),
{
    name_means_its_server(s.config.servers, id, i);
}

/// A command of the one chat that may give orders is about the server that it names, or the
/// only enabled one; other chats get no answer.
pub proof fn commands_are_about_their_server(
    s: BotModel,
    chat: i64,
    arg: Seq<char>,
    i: int,
    command: CommandModel,
    now: Instant,
    millis: u128,
)
    requires
        0 <= i < s.config.servers.len(),
        s.config.servers[i].enabled,
        if is_blank(arg) {
            forall|k: int|
                0 <= k < s.config.servers.len() && (#[trigger] s.config.servers[k]).enabled ==> k
                    == i
        } else {
            stands_first(s.config.servers, trimmed(arg), i)
        },
    ensures
        !chat_authorized(s.config, chat) ==> command_outcome(s, chat, command, now, millis) == (
            TaskModel::Nothing,
            s,
        ),
        chat_authorized(s.config, chat) ==> {
            &&& command_outcome(s, chat, CommandModel::Status(arg), now, millis) == (
                TaskModel::ShowStatus(s.config.servers[i]),
                s,
            )
            &&& command_outcome(s, chat, CommandModel::Check(arg), now, millis) == (
                TaskModel::CheckServer(s.config.servers[i]),
                s,
            )
            &&& command_outcome(s, chat, CommandModel::Change(arg), now, millis)
                == on_classic_action(
                s,
                chat,
                ActionModel::SelectChange(s.config.servers[i].id),
                now,
                millis,
            )
            &&& command_outcome(s, chat, CommandModel::Timer, now, millis) == (
                TaskModel::ShowTimerPanel,
                s,
            )
        },
{
    let _ = trimming_takes_the_ends_away(arg);
    lemma_trimmed_blank(arg);
    lemma_trimmed_blank(trimmed(arg));
    if is_blank(arg) {
        one_enabled_server_needs_no_name(s.config.servers, i, i);
    } else {
        name_means_its_server(s.config.servers, trimmed(arg), i);
    }
}

/// The panel shows the state and the time of every server, in their order, those of a timer
/// that is switched off included.
pub proof fn panel_shows_every_server(servers: Seq<ServerStatusModel>, i: int) -> (at: int)
    requires
        0 <= i < servers.len(),
    ensures
        0 <= at <= at + panel_entry(servers[i]).len() <= panel_entries(servers).len(),
        panel_entries(servers).subrange(at, at + panel_entry(servers[i]).len()) == panel_entry(
            servers[i],
        ),
    decreases servers.len(),
{
    let before = panel_entries(servers.drop_last());
    let all = panel_entries(servers);
    let n = panel_entry(servers[i]).len();
    if i == servers.len() - 1 {
        let at = before.len() as int;
        assert(all.subrange(at, at + n) =~= panel_entry(servers[i]));
        at
    } else {
        let at = panel_shows_every_server(servers.drop_last(), i);
        assert(servers.drop_last()[i] == servers[i]);
        assert(all.subrange(at, at + n) =~= before.subrange(at, at + n));
        at
    }
}

} // verus!
