//! What the bot does about an order, a text, or a button.

use vstd::prelude::*;
use crate::bot::callbacks::{callback_action, parse_callback, ActionModel, CallbackAction};
use crate::bot::change::{
    confirm_and_change, confirmation_reply, confirmed, counted, named, not_chosen_reply,
    resolve_for_tg, show_change_confirmation, tg_change,
};
use crate::bot::commands::{
    command_specs, help_of, send_help, send_start_menu, start_menu, Command, CommandModel,
};
use crate::bot::formatting::failed;
use crate::bot::pairing::{
    chat_authorized, is_authorized_callback_chat, pairing, resolve_pairing, DecisionModel,
    PairingDecision,
};
use crate::bot::server_delete::{
    delete_question, delete_server_from_config, show_server_delete_confirmation, unknown_server,
};
use crate::bot::server_edit::{
    address_to_find, edit_action, edit_menu, handle_server_edit_input, revalidate_server,
    show_server_edit_menu, EditAction, EditActionModel,
};
use crate::bot::server_list::{move_server, no_servers, show_servers};
use crate::bot::server_wizard::{
    handle_add_server_input, name_question, start_add_server_wizard, step_after, waiting_for,
    wizard_action, WizardAction, WizardActionModel,
};
use crate::bot::state::{
    after_consume, after_insert, later_by, nonce_of, pruned, taken, BotBusyStore, Confirmation,
    ConfirmationStore, EditModel, InputModel, Instant, ServerEditMode, ServerEditStore,
    ServerWizardStore, StepModel, TimerInputMode, TimerInputStore, SERVER_WIZARD_TTL_SECS,
    TIMER_INPUT_TTL_SECS,
};
use crate::bot::timer_ui::{
    apply_timer_change, close_targets, edit_targets, handle_timer_time_input, input_action,
    show_timer_close_targets, show_timer_edit_targets, update_refused, InputActionModel,
    TimerInputAction,
};
use crate::bot::ui::{plain, Reply, ReplyModel};
use crate::config::{
    chosen, known_id, position_of, server_models, AppConfig, ConfigModel, SecretToken, ServerConfig,
    ServerModel,
};
use crate::number::{decimal_int, decimal_int_text};
use crate::server_manage::{after_delete, after_move, manage_error_text};
use crate::text::{has_prefix, starts_with, trim, trimmed};
use crate::timer::{updated, TargetModel, TimerManager, TimerTarget, TimerUpdate, UpdateModel};

verus! {

/// All that the bot remembers.
pub struct BotShared {
    pub config: AppConfig,
    pub timer: TimerManager,
    pub confirmations: ConfirmationStore,
    pub timer_inputs: TimerInputStore,
    pub server_wizards: ServerWizardStore,
    pub server_edits: ServerEditStore,
    pub busy: BotBusyStore,
}

pub struct BotModel {
    pub config: ConfigModel,
    pub timer: ConfigModel,
    pub confirmations: Map<Seq<char>, Confirmation>,
    pub next_confirmation: u64,
    pub timer_inputs: Map<i64, (InputModel, nat)>,
    pub server_wizards: Map<i64, (StepModel, nat)>,
    pub server_edits: Map<i64, (EditModel, nat)>,
    pub busy: Set<i64>,
}

impl View for BotShared {
    type V = BotModel;

    open spec fn view(&self) -> BotModel {
        BotModel {
            config: self.config@,
            timer: self.timer.model(),
            confirmations: self.confirmations@,
            next_confirmation: self.confirmations.next(),
            timer_inputs: self.timer_inputs@,
            server_wizards: self.server_wizards@,
            server_edits: self.server_edits@,
            busy: self.busy@,
        }
    }
}

/// What is to be done.
pub enum BotTask {
    Nothing,
    Say(Reply),
    /// A message about timers, which goes when the panel is shown anew.
    SayAboutTimers(Reply),
    /// A pairing code is to be answered; the configuration it comes to is saved before.
    Pair(PairingDecision),
    /// The addresses of the servers are asked for and shown.
    ShowServers(Vec<ServerConfig>),
    ShowStatus(ServerConfig),
    CheckServer(ServerConfig),
    /// The address of the server is changed.
    ChangeIp(ServerConfig),
    ShowTimerPanel,
    /// The configuration is to be saved.
    Save { next: AppConfig, success: &'static str },
    /// A configuration with a timer set is to be saved.
    SaveTimers(AppConfig),
    /// The token of a server is tried, and what is known of its address is found out.
    Revalidate { server_id: String, token: SecretToken, address: String },
    /// A text that changes a server; where the flag is set, the message is deleted.
    Edit(EditAction, bool),
    /// A text that adds a server; where the flag is set, the message is deleted.
    AddServer(WizardAction, bool),
}

pub enum TaskModel {
    Nothing,
    Say(ReplyModel),
    SayAboutTimers(ReplyModel),
    Pair(DecisionModel),
    ShowServers(Seq<ServerModel>),
    ShowStatus(ServerModel),
    CheckServer(ServerModel),
    ChangeIp(ServerModel),
    ShowTimerPanel,
    Save { next: ConfigModel, success: Seq<char> },
    SaveTimers(ConfigModel),
    Revalidate { server_id: Seq<char>, token: Seq<char>, address: Seq<char> },
    Edit(EditActionModel, bool),
    AddServer(WizardActionModel, bool),
}

impl View for BotTask {
    type V = TaskModel;

    open spec fn view(&self) -> TaskModel {
        match self {
            BotTask::Nothing => TaskModel::Nothing,
            BotTask::Say(r) => TaskModel::Say(r@),
            BotTask::SayAboutTimers(r) => TaskModel::SayAboutTimers(r@),
            BotTask::Pair(d) => TaskModel::Pair(d@),
            BotTask::ShowServers(v) => TaskModel::ShowServers(server_models(v@)),
            BotTask::ShowStatus(s) => TaskModel::ShowStatus(s@),
            BotTask::CheckServer(s) => TaskModel::CheckServer(s@),
            BotTask::ChangeIp(s) => TaskModel::ChangeIp(s@),
            BotTask::ShowTimerPanel => TaskModel::ShowTimerPanel,
            BotTask::Save { next, success } => TaskModel::Save { next: next@, success: success@ },
            BotTask::SaveTimers(c) => TaskModel::SaveTimers(c@),
            BotTask::Revalidate { server_id, token, address } => TaskModel::Revalidate {
                server_id: server_id@,
                token: token@,
                address: address@,
            },
            BotTask::Edit(a, delete) => TaskModel::Edit(a@, *delete),
            BotTask::AddServer(a, delete) => TaskModel::AddServer(a@, *delete),
        }
    }
}

impl BotShared {
    pub open spec fn wf(&self) -> bool {
        &&& self.timer.wf()
        &&& self.confirmations.wf()
        &&& self.timer_inputs.wf()
        &&& self.server_wizards.wf()
        &&& self.server_edits.wf()
        &&& self.busy.wf()
    }

    pub fn new(config: AppConfig) -> (r: BotShared)
        ensures
            r.wf(),
            r@ == (BotModel {
                config: config@,
                timer: config@,
                confirmations: Map::empty(),
                next_confirmation: 1,
                timer_inputs: Map::empty(),
                server_wizards: Map::empty(),
                server_edits: Map::empty(),
                busy: Set::empty(),
            }),
    {
        let timer = TimerManager::new(config.clone());
        BotShared {
            config,
            timer,
            confirmations: ConfirmationStore::new(),
            timer_inputs: TimerInputStore::new(),
            server_wizards: ServerWizardStore::new(),
            server_edits: ServerEditStore::new(),
            busy: BotBusyStore::new(),
        }
    }
}

/// The token of the bot, without which it cannot run.
pub fn bot_token(config: &AppConfig) -> (r: Result<String, String>)
    ensures
        match config@.tg_token {
            Some(t) => r is Ok && r->Ok_0@ == t,
            None => r is Err && r->Err_0@ == "未配置 TG_TOKEN，请在 config.env 中配置"@,
        },
{
    match &config.tg_token {
        Some(t) => Ok(t.clone()),
        None => Err("未配置 TG_TOKEN，请在 config.env 中配置".to_owned()),
    }
}

// ---------------------------------------------------------------------------
// Parts of what is done
// ---------------------------------------------------------------------------

pub open spec fn servers_task(config: ConfigModel) -> TaskModel {
    if config.servers.len() == 0 {
        TaskModel::Say(no_servers())
    } else {
        TaskModel::ShowServers(config.servers)
    }
}

fn servers_to_show(config: &AppConfig) -> (r: BotTask)
    ensures
        r@ == servers_task(config@),
{
    match show_servers(config) {
        Ok(v) => BotTask::ShowServers(v),
        Err(reply) => BotTask::Say(reply),
    }
}

pub open spec fn status_task(config: ConfigModel, arg: Seq<char>) -> TaskModel {
    match chosen(config.servers, named(arg)) {
        Ok(s) => TaskModel::ShowStatus(s),
        Err(f) => TaskModel::Say(not_chosen_reply(config.servers, named(arg), f, "status"@)),
    }
}

pub(crate) fn status_of_server(config: &AppConfig, arg: &str) -> (r: BotTask)
    ensures
        r@ == status_task(config@, arg@),
{
    match resolve_for_tg(config, arg, "status") {
        Ok(server) => BotTask::ShowStatus(server.clone()),
        Err(reply) => BotTask::Say(reply),
    }
}

pub open spec fn check_task(config: ConfigModel, arg: Seq<char>) -> TaskModel {
    match chosen(config.servers, named(arg)) {
        Ok(s) => TaskModel::CheckServer(s),
        Err(f) => TaskModel::Say(not_chosen_reply(config.servers, named(arg), f, "check"@)),
    }
}

pub(crate) fn check_of_server(config: &AppConfig, arg: &str) -> (r: BotTask)
    ensures
        r@ == check_task(config@, arg@),
{
    match resolve_for_tg(config, arg, "check") {
        Ok(server) => BotTask::CheckServer(server.clone()),
        Err(reply) => BotTask::Say(reply),
    }
}

/// What is done about the order to change the address of a server, which asks for a
/// confirmation, and what is remembered of it.
pub open spec fn ask_to_change(s: BotModel, id: Seq<char>, now: Instant, millis: u128) -> (
    TaskModel,
    BotModel,
) {
    match chosen(s.config.servers, Some(id)) {
        Ok(server) => {
            let nonce = nonce_of(s.next_confirmation, millis);
            (
                TaskModel::Say(confirmation_reply(server, nonce)),
                BotModel {
                    confirmations: after_insert(s.confirmations, server.id, nonce, now),
                    next_confirmation: counted(s.next_confirmation),
                    ..s
                },
            )
        },
        Err(_) => (TaskModel::Say(plain("server 不存在或已禁用"@)), s),
    }
}

pub open spec fn change_order(s: BotModel, arg: Seq<char>, now: Instant, millis: u128) -> (
    TaskModel,
    BotModel,
) {
    match chosen(s.config.servers, named(arg)) {
        Ok(server) => ask_to_change(s, server.id, now, millis),
        Err(f) => (
            TaskModel::Say(not_chosen_reply(s.config.servers, named(arg), f, "change"@)),
            s,
        ),
    }
}

fn order_change(shared: &mut BotShared, arg: &str, now: Instant, millis: u128) -> (r: BotTask)
    requires
        old(shared).wf(),
    ensures
        final(shared).wf(),
        (r@, final(shared)@) == change_order(old(shared)@, arg@, now, millis),
{
    let reply = tg_change(&shared.config, &mut shared.confirmations, arg, now, millis);
    BotTask::Say(reply)
}

/// A time for a timer is asked for.
pub open spec fn ask_for_time(s: BotModel, chat: i64, mode: InputModel, now: Instant) -> BotModel {
    BotModel {
        timer_inputs: pruned(s.timer_inputs, now).insert(
            chat,
            (mode, later_by(now, TIMER_INPUT_TTL_SECS)),
        ),
        ..s
    }
}

/// A change of a server is asked for.
pub open spec fn ask_for_edit(s: BotModel, chat: i64, mode: EditModel, now: Instant) -> BotModel {
    BotModel {
        server_edits: pruned(s.server_edits, now).insert(
            chat,
            (mode, later_by(now, SERVER_WIZARD_TTL_SECS)),
        ),
        ..s
    }
}

/// A new server is asked for.
pub open spec fn ask_for_server(s: BotModel, chat: i64, now: Instant) -> BotModel {
    BotModel {
        server_wizards: waiting_for(s.server_wizards, chat, StepModel::Name, now),
        ..s
    }
}

pub open spec fn timer_task(timer: ConfigModel, update: UpdateModel) -> TaskModel {
    match updated(timer, update) {
        Ok(next) => TaskModel::SaveTimers(next),
        Err(f) => TaskModel::SayAboutTimers(update_refused(f)),
    }
}

pub(crate) fn set_timer(timer: &TimerManager, update: TimerUpdate) -> (r: BotTask)
    ensures
        r@ == timer_task(timer.model(), update@),
{
    match apply_timer_change(timer, update) {
        Ok(next) => BotTask::SaveTimers(next),
        Err(reply) => BotTask::SayAboutTimers(reply),
    }
}

pub open spec fn revalidate_task(config: ConfigModel, id: Seq<char>) -> TaskModel {
    if known_id(config.servers, id) {
        let s = config.servers[position_of(config.servers, id)];
        TaskModel::Revalidate { server_id: id, token: s.token, address: address_to_find(s) }
    } else {
        TaskModel::Say(unknown_server())
    }
}

fn revalidate(config: &AppConfig, server_id: String) -> (r: BotTask)
    ensures
        r@ == revalidate_task(config@, server_id@),
{
    match revalidate_server(config, server_id.as_str()) {
        Ok((token, address)) => BotTask::Revalidate { server_id, token, address },
        Err(reply) => BotTask::Say(reply),
    }
}

pub open spec fn delete_task(config: ConfigModel, id: Seq<char>) -> TaskModel {
    match after_delete(config, id) {
        Ok(next) => TaskModel::Save { next, success: "✅ 已删除服务器"@ },
        Err(e) => TaskModel::Say(failed(manage_error_text(e))),
    }
}

fn delete(config: &AppConfig, server_id: &str) -> (r: BotTask)
    ensures
        r@ == delete_task(config@, server_id@),
{
    match delete_server_from_config(config, server_id) {
        Ok(next) => BotTask::Save { next, success: "✅ 已删除服务器" },
        Err(reply) => BotTask::Say(reply),
    }
}

pub open spec fn move_task(config: ConfigModel, id: Seq<char>, up: bool) -> TaskModel {
    match after_move(config, id, up) {
        Ok(next) => TaskModel::Save { next, success: "✅ 服务器顺序已更新"@ },
        Err(e) => TaskModel::Say(failed(manage_error_text(e))),
    }
}

fn move_by_one(config: &AppConfig, server_id: &str, up: bool) -> (r: BotTask)
    ensures
        r@ == move_task(config@, server_id@, up),
{
    match move_server(config, server_id, up) {
        Ok(next) => BotTask::Save { next, success: "✅ 服务器顺序已更新" },
        Err(reply) => BotTask::Say(reply),
    }
}

// ---------------------------------------------------------------------------
// Buttons
// ---------------------------------------------------------------------------

pub open spec fn unknown_action() -> TaskModel {
    TaskModel::Say(plain("无法识别的操作，请重新发送命令"@))
}

pub open spec fn new_time_question() -> TaskModel {
    TaskModel::Say(plain("请输入新的每天执行时间（HH:MM），例如 03:30"@))
}

/// What is done about a button, and what is remembered then.
pub open spec fn on_action(
    s: BotModel,
    chat: i64,
    action: ActionModel,
    now: Instant,
    millis: u128,
) -> (TaskModel, BotModel) {
    match action {
        ActionModel::MenuAddServer => (
            TaskModel::Say(name_question()),
            ask_for_server(s, chat, now),
        ),
        ActionModel::MenuServers => (
            servers_task(s.config),
            BotModel { server_edits: s.server_edits.remove(chat), ..s },
        ),
        ActionModel::MenuStatus => (status_task(s.config, ""@), s),
        ActionModel::MenuChange => change_order(s, ""@, now, millis),
        ActionModel::MenuTimer => (TaskModel::ShowTimerPanel, s),
        ActionModel::MenuHelp => (TaskModel::Say(plain(help_of(command_specs()))), s),
        ActionModel::ConfirmAddServer(_) => (unknown_action(), s),
        ActionModel::RetryAddServer(_) => (
            TaskModel::Say(name_question()),
            ask_for_server(s, chat, now),
        ),
        ActionModel::CancelAddServer(_) => (TaskModel::Say(plain("已取消添加服务器"@)), s),
        ActionModel::SelectStatus(id) => (status_task(s.config, id), s),
        ActionModel::SelectCheck(id) => (check_task(s.config, id), s),
        ActionModel::SelectChange(id) => ask_to_change(s, id, now, millis),
        ActionModel::ConfirmChange { server_id, nonce } => (
            match confirmed(s.config.servers, s.confirmations, server_id, nonce, now) {
                Ok(server) => TaskModel::ChangeIp(server),
                Err(reply) => TaskModel::Say(reply),
            },
            BotModel {
                confirmations: after_consume(s.confirmations, server_id, nonce, now),
                ..s
            },
        ),
        ActionModel::CancelChange { server_id, nonce } => (
            TaskModel::Say(plain("已取消换 IP"@)),
            BotModel {
                confirmations: after_consume(s.confirmations, server_id, nonce, now),
                ..s
            },
        ),
        ActionModel::TimerNew => (
            TaskModel::Say(plain("请输入每天执行时间（HH:MM），例如 03:30"@)),
            ask_for_time(s, chat, InputModel::New, now),
        ),
        ActionModel::TimerEdit => (TaskModel::SayAboutTimers(edit_targets(s.timer.servers)), s),
        ActionModel::TimerClose => (TaskModel::SayAboutTimers(close_targets(s.timer.servers)), s),
        ActionModel::TimerRefresh => (TaskModel::ShowTimerPanel, s),
        ActionModel::TimerCreateAll { hhmm } => (
            timer_task(s.timer, UpdateModel::Enable { target: TargetModel::AllEnabled, hhmm }),
            s,
        ),
        ActionModel::TimerCreateServer { server_id, hhmm } => (
            timer_task(
                s.timer,
                UpdateModel::Enable { target: TargetModel::Server(server_id), hhmm },
            ),
            s,
        ),
        ActionModel::TimerEditTargetAll => (
            new_time_question(),
            ask_for_time(s, chat, InputModel::Edit(TargetModel::AllEnabled), now),
        ),
        ActionModel::TimerEditTargetServer(id) => (
            new_time_question(),
            ask_for_time(s, chat, InputModel::Edit(TargetModel::Server(id)), now),
        ),
        ActionModel::TimerCloseAll => (
            timer_task(s.timer, UpdateModel::Disable { target: TargetModel::AllEnabled }),
            s,
        ),
        ActionModel::TimerCloseServer(id) => (
            timer_task(s.timer, UpdateModel::Disable { target: TargetModel::Server(id) }),
            s,
        ),
        ActionModel::ServerEdit(id) => (
            TaskModel::Say(
                if known_id(s.config.servers, id) {
                    edit_menu(s.config.servers[position_of(s.config.servers, id)], id)
                } else {
                    unknown_server()
                },
            ),
            s,
        ),
        ActionModel::ServerEditName(id) => (
            TaskModel::Say(plain("请输入新的服务器名称："@)),
            ask_for_edit(s, chat, EditModel::Name(id), now),
        ),
        ActionModel::ServerEditAddress(id) => (
            TaskModel::Say(plain("请输入新的服务器地址（IP 或域名）："@)),
            ask_for_edit(s, chat, EditModel::Address(id), now),
        ),
        ActionModel::ServerEditToken(id) => (
            TaskModel::Say(plain("请输入新的服务器 Token："@)),
            ask_for_edit(s, chat, EditModel::Token(id), now),
        ),
        ActionModel::ServerRevalidate(id) => (revalidate_task(s.config, id), s),
        ActionModel::ServerDelete(id) => (
            TaskModel::Say(
                if known_id(s.config.servers, id) {
                    delete_question(s.config.servers[position_of(s.config.servers, id)], id)
                } else {
                    unknown_server()
                },
            ),
            s,
        ),
        ActionModel::ServerDeleteConfirm(id) => (delete_task(s.config, id), s),
        ActionModel::ServerDeleteCancel => (TaskModel::Say(plain("已取消删除"@)), s),
        ActionModel::ServerMoveUp(id) => (move_task(s.config, id, true), s),
        ActionModel::ServerMoveDown(id) => (move_task(s.config, id, false), s),
        ActionModel::LegacyChange => (
            TaskModel::Say(plain("旧版 change callback 已拒绝，请重新发送 /change"@)),
            s,
        ),
        ActionModel::Unknown => (unknown_action(), s),
    }
}

/// What is done about a button that was pressed. `chat_id` is the chat of its message, where
/// there is one; a chat that may not give orders gets nothing done.
pub fn handle_callback(
    shared: &mut BotShared,
    chat_id: Option<i64>,
    data: Option<&str>,
    now: Instant,
    millis: u128,
) -> (r: BotTask)
    requires
        old(shared).wf(),
    ensures
        final(shared).wf(),
        match (chat_id, data) {
            (Some(chat), Some(d)) => if chat_authorized(old(shared)@.config, chat) {
                (r@, final(shared)@) == on_action(
                    old(shared)@,
                    chat,
                    callback_action(d@),
                    now,
                    millis,
                )
            } else {
                r@ == TaskModel::Nothing && final(shared)@ == old(shared)@
            },
            _ => r@ == TaskModel::Nothing && final(shared)@ == old(shared)@,
        },
{
    let chat = match chat_id {
        Some(chat) => chat,
        None => return BotTask::Nothing,
    };
    if !is_authorized_callback_chat(&shared.config, chat) {
        return BotTask::Nothing;
    }
    let data = match data {
        Some(d) => d,
        None => return BotTask::Nothing,
    };
    on_button(shared, chat, parse_callback(data), now, millis)
}

/// A button about timers.
pub open spec fn is_timer_button(action: ActionModel) -> bool {
    action is TimerNew
        || action is TimerEdit
        || action is TimerClose
        || action is TimerRefresh
        || action is TimerCreateAll
        || action is TimerCreateServer
        || action is TimerEditTargetAll
        || action is TimerEditTargetServer
        || action is TimerCloseAll
        || action is TimerCloseServer
}

/// A button about a server of the list.
pub open spec fn is_server_button(action: ActionModel) -> bool {
    action is ServerEdit
        || action is ServerEditName
        || action is ServerEditAddress
        || action is ServerEditToken
        || action is ServerRevalidate
        || action is ServerDelete
        || action is ServerDeleteConfirm
        || action is ServerDeleteCancel
        || action is ServerMoveUp
        || action is ServerMoveDown
}

/// What is done about a button about timers.
fn on_timer_button(
    shared: &mut BotShared,
    chat: i64,
    action: CallbackAction,
    now: Instant,
    millis: u128,
) -> (r: BotTask)
    requires
        old(shared).wf(),
        is_timer_button(action@),
    ensures
        final(shared).wf(),
        (r@, final(shared)@) == on_action(old(shared)@, chat, action@, now, millis),
{
    match action {
        CallbackAction::TimerNew => {
            shared.timer_inputs.set(chat, TimerInputMode::New, now);
            BotTask::Say(Reply::say("请输入每天执行时间（HH:MM），例如 03:30"))
        },
        CallbackAction::TimerEdit => BotTask::SayAboutTimers(
            show_timer_edit_targets(shared.timer.config()),
        ),
        CallbackAction::TimerClose => BotTask::SayAboutTimers(
            show_timer_close_targets(shared.timer.config()),
        ),
        CallbackAction::TimerRefresh => BotTask::ShowTimerPanel,
        CallbackAction::TimerCreateAll { hhmm } => set_timer(
            &shared.timer,
            TimerUpdate::Enable { target: TimerTarget::AllEnabled, hhmm },
        ),
        CallbackAction::TimerCreateServer { server_id, hhmm } => set_timer(
            &shared.timer,
            TimerUpdate::Enable { target: TimerTarget::Server(server_id), hhmm },
        ),
        CallbackAction::TimerEditTargetAll => {
            shared.timer_inputs.set(chat, TimerInputMode::Edit(TimerTarget::AllEnabled), now);
            BotTask::Say(Reply::say("请输入新的每天执行时间（HH:MM），例如 03:30"))
        },
        CallbackAction::TimerEditTargetServer(id) => {
            shared.timer_inputs.set(chat, TimerInputMode::Edit(TimerTarget::Server(id)), now);
            BotTask::Say(Reply::say("请输入新的每天执行时间（HH:MM），例如 03:30"))
        },
        CallbackAction::TimerCloseAll => set_timer(
            &shared.timer,
            TimerUpdate::Disable { target: TimerTarget::AllEnabled },
        ),
        CallbackAction::TimerCloseServer(id) => set_timer(
            &shared.timer,
            TimerUpdate::Disable { target: TimerTarget::Server(id) },
        ),
        _ => BotTask::Nothing,
    }
}

/// What is done about a button about a server of the list.
fn on_server_button(
    shared: &mut BotShared,
    chat: i64,
    action: CallbackAction,
    now: Instant,
    millis: u128,
) -> (r: BotTask)
    requires
        old(shared).wf(),
        is_server_button(action@),
    ensures
        final(shared).wf(),
        (r@, final(shared)@) == on_action(old(shared)@, chat, action@, now, millis),
{
    match action {
        CallbackAction::ServerEdit(id) => BotTask::Say(
            show_server_edit_menu(&shared.config, id.as_str()),
        ),
        CallbackAction::ServerEditName(server_id) => {
            shared.server_edits.set(chat, ServerEditMode::Name { server_id }, now);
            BotTask::Say(Reply::say("请输入新的服务器名称："))
        },
        CallbackAction::ServerEditAddress(server_id) => {
            shared.server_edits.set(chat, ServerEditMode::Address { server_id }, now);
            BotTask::Say(Reply::say("请输入新的服务器地址（IP 或域名）："))
        },
        CallbackAction::ServerEditToken(server_id) => {
            shared.server_edits.set(chat, ServerEditMode::Token { server_id }, now);
            BotTask::Say(Reply::say("请输入新的服务器 Token："))
        },
        CallbackAction::ServerRevalidate(id) => revalidate(&shared.config, id),
        CallbackAction::ServerDelete(id) => BotTask::Say(
            show_server_delete_confirmation(&shared.config, id.as_str()),
        ),
        CallbackAction::ServerDeleteConfirm(id) => delete(&shared.config, id.as_str()),
        CallbackAction::ServerDeleteCancel => BotTask::Say(Reply::say("已取消删除")),
        CallbackAction::ServerMoveUp(id) => move_by_one(&shared.config, id.as_str(), true),
        CallbackAction::ServerMoveDown(id) => move_by_one(&shared.config, id.as_str(), false),
        _ => BotTask::Nothing,
    }
}

/// What is done about a button.
pub(crate) fn on_button(
    shared: &mut BotShared,
    chat: i64,
    action: CallbackAction,
    now: Instant,
    millis: u128,
) -> (r: BotTask)
    requires
        old(shared).wf(),
    ensures
        final(shared).wf(),
        (r@, final(shared)@) == on_action(old(shared)@, chat, action@, now, millis),
{
    match action {
        CallbackAction::MenuAddServer => BotTask::Say(
            start_add_server_wizard(&mut shared.server_wizards, chat, now),
        ),
        CallbackAction::MenuServers => {
            shared.server_edits.cancel(chat);
            servers_to_show(&shared.config)
        },
        CallbackAction::MenuStatus => status_of_server(&shared.config, ""),
        CallbackAction::MenuChange => order_change(shared, "", now, millis),
        CallbackAction::MenuTimer => BotTask::ShowTimerPanel,
        CallbackAction::MenuHelp => BotTask::Say(send_help()),
        CallbackAction::ConfirmAddServer(_) => BotTask::Say(
            Reply::say("无法识别的操作，请重新发送命令"),
        ),
        CallbackAction::RetryAddServer(_) => BotTask::Say(
            start_add_server_wizard(&mut shared.server_wizards, chat, now),
        ),
        CallbackAction::CancelAddServer(_) => BotTask::Say(Reply::say("已取消添加服务器")),
        CallbackAction::SelectStatus(id) => status_of_server(&shared.config, id.as_str()),
        CallbackAction::SelectCheck(id) => check_of_server(&shared.config, id.as_str()),
        CallbackAction::SelectChange(id) => BotTask::Say(
            show_change_confirmation(
                &shared.config,
                &mut shared.confirmations,
                id.as_str(),
                now,
                millis,
            ),
        ),
        CallbackAction::ConfirmChange { server_id, nonce } => {
            match confirm_and_change(
                &shared.config,
                &mut shared.confirmations,
                server_id.as_str(),
                nonce.as_str(),
                now,
            ) {
                Ok(server) => BotTask::ChangeIp(server.clone()),
                Err(reply) => BotTask::Say(reply),
            }
        },
        CallbackAction::CancelChange { server_id, nonce } => {
            let _ = shared.confirmations.consume(server_id.as_str(), nonce.as_str(), now);
            BotTask::Say(Reply::say("已取消换 IP"))
        },
        CallbackAction::LegacyChange => BotTask::Say(
            Reply::say("旧版 change callback 已拒绝，请重新发送 /change"),
        ),
        CallbackAction::Unknown => BotTask::Say(Reply::say("无法识别的操作，请重新发送命令")),
        CallbackAction::TimerNew
        | CallbackAction::TimerEdit
        | CallbackAction::TimerClose
        | CallbackAction::TimerRefresh
        | CallbackAction::TimerCreateAll { .. }
        | CallbackAction::TimerCreateServer { .. }
        | CallbackAction::TimerEditTargetAll
        | CallbackAction::TimerEditTargetServer(_)
        | CallbackAction::TimerCloseAll
        | CallbackAction::TimerCloseServer(_) => on_timer_button(shared, chat, action, now, millis),
        CallbackAction::ServerEdit(_)
        | CallbackAction::ServerEditName(_)
        | CallbackAction::ServerEditAddress(_)
        | CallbackAction::ServerEditToken(_)
        | CallbackAction::ServerRevalidate(_)
        | CallbackAction::ServerDelete(_)
        | CallbackAction::ServerDeleteConfirm(_)
        | CallbackAction::ServerDeleteCancel
        | CallbackAction::ServerMoveUp(_)
        | CallbackAction::ServerMoveDown(_) => on_server_button(shared, chat, action, now, millis),
    }
}

// ---------------------------------------------------------------------------
// Commands
// ---------------------------------------------------------------------------

/// The command keeps the chat busy until it is done.
pub open spec fn takes_time(command: CommandModel) -> bool {
    command is Status || command is Check || command is Change || command is Timer
        || command is Servers
}

/// What is done about a command of a chat that may give it, and what is remembered then.
pub open spec fn on_command(
    s: BotModel,
    chat: i64,
    command: CommandModel,
    now: Instant,
    millis: u128,
) -> (TaskModel, BotModel) {
    match command {
        CommandModel::Start => (TaskModel::Say(start_menu()), s),
        CommandModel::Help => (TaskModel::Say(plain(help_of(command_specs()))), s),
        CommandModel::Status(arg) => (status_task(s.config, trimmed(arg)), s),
        CommandModel::Check(arg) => (check_task(s.config, trimmed(arg)), s),
        CommandModel::Change(arg) => change_order(s, trimmed(arg), now, millis),
        CommandModel::Timer => (TaskModel::ShowTimerPanel, s),
        CommandModel::Servers => (servers_task(s.config), s),
        CommandModel::Addserver => (
            TaskModel::Say(name_question()),
            ask_for_server(s, chat, now),
        ),
        CommandModel::Pair(_) => (TaskModel::Nothing, s),
    }
}

/// What is done about a command, and what is remembered then: a pairing code is taken from
/// every chat, other commands only from the one that may give orders, and one that takes time
/// only while no other one is under way in the chat.
pub open spec fn command_outcome(
    s: BotModel,
    chat: i64,
    command: CommandModel,
    now: Instant,
    millis: u128,
    unix_now: u64,
) -> (TaskModel, BotModel) {
    if command is Pair {
        (
            TaskModel::Pair(
                pairing(s.config, decimal_int(chat as int), trimmed(command->Pair_0), unix_now),
            ),
            s,
        )
    } else if !chat_authorized(s.config, chat) {
        (
            TaskModel::Say(
                plain(
                    if command is Start {
                        "请先完成配对"@
                    } else {
                        "拒绝访问"@
                    },
                ),
            ),
            s,
        )
    } else if takes_time(command) {
        if s.busy.contains(chat) {
            (TaskModel::Nothing, s)
        } else {
            on_command(BotModel { busy: s.busy.insert(chat), ..s }, chat, command, now, millis)
        }
    } else {
        on_command(s, chat, command, now, millis)
    }
}

/// What is done about a command. Where the flag is set, the chat is busy, until it leaves
/// `busy` again when all is done.
pub fn handle_command(
    shared: &mut BotShared,
    chat_id: i64,
    command: Command,
    now: Instant,
    millis: u128,
    unix_now: u64,
) -> (r: (BotTask, bool))
    requires
        old(shared).wf(),
    ensures
        final(shared).wf(),
        (r.0@, final(shared)@) == command_outcome(
            old(shared)@,
            chat_id,
            command@,
            now,
            millis,
            unix_now,
        ),
        r.1 == (takes_time(command@) && chat_authorized(old(shared)@.config, chat_id) && !old(
            shared,
        )@.busy.contains(chat_id)),
{
    if let Command::Pair(code) = &command {
        let chat = decimal_int_text(chat_id);
        let decision = resolve_pairing(
            &shared.config,
            chat.as_str(),
            trim(code.as_str()).as_str(),
            unix_now,
        );
        return (BotTask::Pair(decision), false);
    }
    if !is_authorized_callback_chat(&shared.config, chat_id) {
        return match command {
            Command::Start => (BotTask::Say(Reply::say("请先完成配对")), false),
            _ => (BotTask::Say(Reply::say("拒绝访问")), false),
        };
    }
    match command {
        Command::Start => (BotTask::Say(send_start_menu()), false),
        Command::Help => (BotTask::Say(send_help()), false),
        Command::Addserver => (
            BotTask::Say(start_add_server_wizard(&mut shared.server_wizards, chat_id, now)),
            false,
        ),
        Command::Pair(_) => (BotTask::Nothing, false),
        _ => {
            if !shared.busy.try_enter(chat_id) {
                assert(shared@.busy =~= old(shared)@.busy);
                return (BotTask::Nothing, false);
            }
            let task = match command {
                Command::Status(arg) => status_of_server(&shared.config, trim(arg.as_str()).as_str()),
                Command::Check(arg) => check_of_server(&shared.config, trim(arg.as_str()).as_str()),
                Command::Change(arg) => order_change(
                    shared,
                    trim(arg.as_str()).as_str(),
                    now,
                    millis,
                ),
                Command::Timer => BotTask::ShowTimerPanel,
                _ => servers_to_show(&shared.config),
            };
            (task, true)
        },
    }
}

// ---------------------------------------------------------------------------
// Texts
// ---------------------------------------------------------------------------

/// What is done about a text of a chat that may give orders, and what is remembered then: it
/// is the answer to the question that waits, that about a change of a server first, then that
/// about a new server, then that about a time.
pub open spec fn on_text(s: BotModel, chat: i64, text: Seq<char>, now: Instant) -> (
    TaskModel,
    BotModel,
) {
    let s1 = BotModel { server_edits: pruned(s.server_edits, now).remove(chat), ..s };
    match taken(s.server_edits, chat, now) {
        Some(mode) => (
            TaskModel::Edit(edit_action(s.config, mode, text), mode is Token),
            s1,
        ),
        None => {
            let s2 = BotModel { server_wizards: pruned(s.server_wizards, now).remove(chat), ..s1 };
            match taken(s.server_wizards, chat, now) {
                Some(step) => (
                    TaskModel::AddServer(wizard_action(step, text), step is Token),
                    match step_after(step, text) {
                        Some(next) => BotModel {
                            server_wizards: waiting_for(s.server_wizards, chat, next, now),
                            ..s1
                        },
                        None => s2,
                    },
                ),
                None => if starts_with(text, "/"@) {
                    (TaskModel::Nothing, s2)
                } else {
                    let s3 = BotModel {
                        timer_inputs: pruned(s.timer_inputs, now).remove(chat),
                        ..s2
                    };
                    match taken(s.timer_inputs, chat, now) {
                        Some(mode) => (
                            match input_action(s.timer, mode, text) {
                                InputActionModel::Say(reply) => TaskModel::SayAboutTimers(reply),
                                InputActionModel::Apply(update) => timer_task(s.timer, update),
                            },
                            s3,
                        ),
                        None => (TaskModel::Nothing, s3),
                    }
                },
            }
        },
    }
}

/// What is done about a message that is no command; `text` is `None` where it holds none.
pub fn handle_message(shared: &mut BotShared, chat_id: i64, text: Option<&str>, now: Instant) -> (r:
    BotTask)
    requires
        old(shared).wf(),
    ensures
        final(shared).wf(),
        if !chat_authorized(old(shared)@.config, chat_id) {
            r@ == TaskModel::Say(plain("拒绝访问"@)) && final(shared)@ == old(shared)@
        } else {
            match text {
                Some(t) => (r@, final(shared)@) == on_text(
                    old(shared)@,
                    chat_id,
                    trimmed(t@),
                    now,
                ),
                None => r@ == TaskModel::Nothing && final(shared)@ == old(shared)@,
            }
        },
{
    if !is_authorized_callback_chat(&shared.config, chat_id) {
        return BotTask::Say(Reply::say("拒绝访问"));
    }
    let text = match text {
        Some(t) => trim(t),
        None => return BotTask::Nothing,
    };
    let t = text.as_str();
    match handle_server_edit_input(&shared.config, &mut shared.server_edits, chat_id, t, now) {
        Some((action, delete)) => return BotTask::Edit(action, delete),
        None => {},
    }
    match handle_add_server_input(&mut shared.server_wizards, chat_id, t, now) {
        Some((action, delete)) => return BotTask::AddServer(action, delete),
        None => {},
    }
    if has_prefix(t, "/") {
        return BotTask::Nothing;
    }
    match handle_timer_time_input(
        shared.timer.config(),
        &mut shared.timer_inputs,
        chat_id,
        t,
        now,
    ) {
        Some(TimerInputAction::Say(reply)) => BotTask::SayAboutTimers(reply),
        Some(TimerInputAction::Apply(update)) => set_timer(&shared.timer, update),
        None => BotTask::Nothing,
    }
}

// ---------------------------------------------------------------------------
// What holds of all orders
// ---------------------------------------------------------------------------

/// A task that does more than answer.
pub open spec fn acts(t: TaskModel) -> bool {
    !(t is Nothing || t is Say || t is Pair)
}

/// A chat that may not give orders changes nothing and gets nothing done but a refusal.
pub proof fn strangers_get_nothing_done(
    s: BotModel,
    chat: i64,
    command: CommandModel,
    now: Instant,
    millis: u128,
    unix_now: u64,
)
    requires
        !chat_authorized(s.config, chat),
    ensures
        command_outcome(s, chat, command, now, millis, unix_now).1 == s,
        !acts(command_outcome(s, chat, command, now, millis, unix_now).0),
{
}

/// The address of a server is changed only by the button of a confirmation that was asked for
/// it, was not used before and is not too old.
pub proof fn only_a_confirmation_changes_an_address(
    s: BotModel,
    chat: i64,
    action: ActionModel,
    now: Instant,
    millis: u128,
)
    requires
        on_action(s, chat, action, now, millis).0 is ChangeIp,
    ensures
        action is ConfirmChange,
        s.confirmations.dom().contains(action->ConfirmChange_nonce),
        s.confirmations[action->ConfirmChange_nonce].server_id == action->ConfirmChange_server_id,
        !s.confirmations[action->ConfirmChange_nonce].used,
        now.nanos < s.confirmations[action->ConfirmChange_nonce].expires_at,
{
}

/// No command changes the address of a server.
pub proof fn no_command_changes_an_address(
    s: BotModel,
    chat: i64,
    command: CommandModel,
    now: Instant,
    millis: u128,
    unix_now: u64,
)
    ensures
        !(command_outcome(s, chat, command, now, millis, unix_now).0 is ChangeIp),
{
}

/// No text changes the address of a server.
pub proof fn no_text_changes_an_address(s: BotModel, chat: i64, text: Seq<char>, now: Instant)
    ensures
        !(on_text(s, chat, text, now).0 is ChangeIp),
{
}

/// While a command is under way in a chat, another one that takes time is dropped there, and
/// none waits; in other chats nothing is different.
pub proof fn busy_chat_drops_commands(
    s: BotModel,
    chat: i64,
    other: i64,
    command: CommandModel,
    now: Instant,
    millis: u128,
    unix_now: u64,
)
    requires
        takes_time(command),
        s.busy.contains(chat),
        chat != other,
        chat_authorized(s.config, chat),
    ensures
        command_outcome(s, chat, command, now, millis, unix_now) == (TaskModel::Nothing, s),
        command_outcome(s, other, command, now, millis, unix_now).0 == command_outcome(
            BotModel { busy: s.busy.remove(chat), ..s },
            other,
            command,
            now,
            millis,
            unix_now,
        ).0,
{
}

/// A configuration comes into force only after it was saved: no order changes it by itself.
pub proof fn orders_keep_the_configuration(
    s: BotModel,
    chat: i64,
    action: ActionModel,
    command: CommandModel,
    text: Seq<char>,
    now: Instant,
    millis: u128,
    unix_now: u64,
)
    ensures
        on_action(s, chat, action, now, millis).1.config == s.config,
        on_action(s, chat, action, now, millis).1.timer == s.timer,
        command_outcome(s, chat, command, now, millis, unix_now).1.config == s.config,
        command_outcome(s, chat, command, now, millis, unix_now).1.timer == s.timer,
        on_text(s, chat, text, now).1.config == s.config,
        on_text(s, chat, text, now).1.timer == s.timer,
{
}

} // verus!
