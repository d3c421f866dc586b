//! What the bot says does not depend on the secrets of its configuration: the tokens and
//! the pairing code.

use vstd::prelude::*;
use crate::bot::callbacks::ActionModel;
use crate::bot::change::{named, selection_reply, selection_rows};
use crate::bot::commands::CommandModel;
use crate::bot::dispatch::{
    change_order, check_task, command_outcome, on_action, on_text, status_task, timer_task,
    BotModel, TaskModel,
};
use crate::bot::formatting::server_card;
use crate::bot::server_edit::EditActionModel;
use crate::bot::server_wizard::WizardActionModel;
use crate::bot::state::{taken, EditModel, InputModel, Instant};
use crate::bot::timer_ui::server_rows;
use crate::bot::ui::ReplyModel;
use crate::config::debug::{all_alike, alike, same_but_secrets};
use crate::config::{
    chosen, enabled_models, lemma_position_of, position_of, ConfigModel, ServerModel,
};
use crate::text::trimmed;
use crate::timer::{TargetModel, UpdateModel};

verus! {

/// The bots have the same to remember, and configurations that differ in their secrets
/// only.
pub open spec fn same_bots(a: BotModel, b: BotModel) -> bool {
    &&& a == (BotModel { config: a.config, timer: a.timer, ..b })
    &&& same_but_secrets(a.config, b.config)
    &&& same_but_secrets(a.timer, b.timer)
}

/// The message that a task sends at once.
pub open spec fn said(t: TaskModel) -> Option<ReplyModel> {
    match t {
        TaskModel::Say(reply) => Some(reply),
        TaskModel::SayAboutTimers(reply) => Some(reply),
        TaskModel::Edit(EditActionModel::Say(reply), _) => Some(reply),
        TaskModel::AddServer(WizardActionModel::Say(reply), _) => Some(reply),
        _ => None,
    }
}

proof fn lemma_position(a: Seq<ServerModel>, b: Seq<ServerModel>, id: Seq<char>)
    requires
        all_alike(a, b),
    ensures
        position_of(a, id) == position_of(b, id),
        0 <= position_of(a, id) <= a.len(),
{
    lemma_position_of(a, id);
    lemma_position_of(b, id);
    let i = position_of(a, id);
    let j = position_of(b, id);
    if i < j {
        assert(alike(a[i], b[i]));
    } else if j < i {
        assert(alike(a[j], b[j]));
    }
}

proof fn lemma_drop_last(a: Seq<ServerModel>, b: Seq<ServerModel>)
    requires
        all_alike(a, b),
        a.len() > 0,
    ensures
        all_alike(a.drop_last(), b.drop_last()),
        alike(a.last(), b.last()),
{
    assert forall|i: int| 0 <= i < a.drop_last().len() implies alike(
        #[trigger] a.drop_last()[i],
        b.drop_last()[i],
    ) by {
        assert(alike(a[i], b[i]));
    }
    assert(alike(a[a.len() - 1], b[a.len() - 1]));
}

proof fn lemma_enabled(a: Seq<ServerModel>, b: Seq<ServerModel>)
    requires
        all_alike(a, b),
    ensures
        all_alike(enabled_models(a), enabled_models(b)),
    decreases a.len(),
{
    if a.len() > 0 {
        lemma_drop_last(a, b);
        lemma_enabled(a.drop_last(), b.drop_last());
    }
}

proof fn lemma_chosen(a: Seq<ServerModel>, b: Seq<ServerModel>, id: Option<Seq<char>>)
    requires
        all_alike(a, b),
    ensures
        match chosen(a, id) {
            Ok(s) => chosen(b, id) matches Ok(t) && alike(s, t),
            Err(f) => chosen(b, id) matches Err(g) && f == g,
        },
{
    lemma_enabled(a, b);
    let e = enabled_models(a);
    if e.len() > 0 {
        assert(alike(e[0], enabled_models(b)[0]));
    }
    if let Some(id) = id {
        lemma_position(a, b, id);
        let i = position_of(a, id);
        if i < a.len() {
            assert(alike(a[i], b[i]));
        }
    }
}

proof fn lemma_selection(a: Seq<ServerModel>, b: Seq<ServerModel>, action: Seq<char>)
    requires
        all_alike(a, b),
    ensures
        selection_rows(a, action) == selection_rows(b, action),
        selection_reply(a, action) == selection_reply(b, action),
    decreases a.len(),
{
    if a.len() > 0 {
        lemma_drop_last(a, b);
        lemma_selection(a.drop_last(), b.drop_last(), action);
    }
}

proof fn lemma_rows(
    a: Seq<ServerModel>,
    b: Seq<ServerModel>,
    verb: Seq<char>,
    after: Option<Seq<char>>,
)
    requires
        all_alike(a, b),
    ensures
        server_rows(a, verb, after) == server_rows(b, verb, after),
    decreases a.len(),
{
    if a.len() > 0 {
        lemma_drop_last(a, b);
        lemma_rows(a.drop_last(), b.drop_last(), verb, after);
    }
}

proof fn lemma_tasks(a: ConfigModel, b: ConfigModel, arg: Seq<char>)
    requires
        same_but_secrets(a, b),
    ensures
        said(status_task(a, arg)) == said(status_task(b, arg)),
        said(check_task(a, arg)) == said(check_task(b, arg)),
{
    let id = named(arg);
    lemma_chosen(a.servers, b.servers, id);
    lemma_selection(a.servers, b.servers, "status"@);
    lemma_selection(a.servers, b.servers, "check"@);
}

proof fn lemma_change(a: BotModel, b: BotModel, arg: Seq<char>, now: Instant, millis: u128)
    requires
        same_bots(a, b),
    ensures
        said(change_order(a, arg, now, millis).0) == said(change_order(b, arg, now, millis).0),
{
    let id = named(arg);
    lemma_chosen(a.config.servers, b.config.servers, id);
    lemma_selection(a.config.servers, b.config.servers, "change"@);
    if let Ok(s) = chosen(a.config.servers, id) {
        lemma_chosen(a.config.servers, b.config.servers, Some(s.id));
    }
}

proof fn lemma_timer(a: ConfigModel, b: ConfigModel, update: UpdateModel)
    requires
        same_but_secrets(a, b),
    ensures
        said(timer_task(a, update)) == said(timer_task(b, update)),
{
    let target = match update {
        UpdateModel::Enable { target, .. } => target,
        UpdateModel::Disable { target } => target,
    };
    if let TargetModel::Server(id) = target {
        lemma_position(a.servers, b.servers, id);
        let i = position_of(a.servers, id);
        if i < a.servers.len() {
            assert(alike(a.servers[i], b.servers[i]));
        }
    }
}

proof fn lemma_one_server(a: Seq<ServerModel>, b: Seq<ServerModel>, id: Seq<char>)
    requires
        all_alike(a, b),
    ensures
        position_of(a, id) == position_of(b, id),
        position_of(a, id) < a.len() ==> server_card(a[position_of(a, id)]) == server_card(
            b[position_of(a, id)],
        ),
{
    lemma_position(a, b, id);
    let i = position_of(a, id);
    if i < a.len() {
        assert(alike(a[i], b[i]));
    }
}

/// What is said about a button, and the buttons that come with it, are the same whatever
/// the secrets are.
pub proof fn answers_to_buttons_hide_the_secrets(
    a: BotModel,
    b: BotModel,
    chat: i64,
    action: ActionModel,
    now: Instant,
    millis: u128,
)
    requires
        same_bots(a, b),
    ensures
        said(on_action(a, chat, action, now, millis).0) == said(
            on_action(b, chat, action, now, millis).0,
        ),
{
    let x = a.config.servers;
    let y = b.config.servers;
    match action {
        ActionModel::MenuStatus => {
            lemma_tasks(a.config, b.config, ""@);
        },
        ActionModel::SelectStatus(id) => {
            lemma_tasks(a.config, b.config, id);
        },
        ActionModel::SelectCheck(id) => {
            lemma_tasks(a.config, b.config, id);
        },
        ActionModel::MenuChange => {
            lemma_change(a, b, ""@, now, millis);
        },
        ActionModel::SelectChange(id) => {
            lemma_chosen(x, y, Some(id));
        },
        ActionModel::ConfirmChange { server_id, .. } => {
            lemma_chosen(x, y, Some(server_id));
        },
        ActionModel::TimerEdit => {
            lemma_rows(a.timer.servers, b.timer.servers, "timer_edit_target"@, None);
        },
        ActionModel::TimerClose => {
            lemma_rows(a.timer.servers, b.timer.servers, "timer_close"@, None);
        },
        ActionModel::TimerCreateAll { hhmm } => {
            let target = TargetModel::AllEnabled;
            lemma_timer(a.timer, b.timer, UpdateModel::Enable { target, hhmm });
        },
        ActionModel::TimerCreateServer { server_id, hhmm } => {
            let target = TargetModel::Server(server_id);
            lemma_timer(a.timer, b.timer, UpdateModel::Enable { target, hhmm });
        },
        ActionModel::TimerCloseAll => {
            let target = TargetModel::AllEnabled;
            lemma_timer(a.timer, b.timer, UpdateModel::Disable { target });
        },
        ActionModel::TimerCloseServer(id) => {
            let target = TargetModel::Server(id);
            lemma_timer(a.timer, b.timer, UpdateModel::Disable { target });
        },
        ActionModel::ServerEdit(id) => {
            lemma_one_server(x, y, id);
        },
        ActionModel::ServerRevalidate(id) => {
            lemma_one_server(x, y, id);
        },
        ActionModel::ServerDelete(id) => {
            lemma_one_server(x, y, id);
        },
        ActionModel::ServerDeleteConfirm(id) => {
            lemma_one_server(x, y, id);
        },
        ActionModel::ServerMoveUp(id) => {
            lemma_one_server(x, y, id);
        },
        ActionModel::ServerMoveDown(id) => {
            lemma_one_server(x, y, id);
        },
        _ => {},
    }
}

/// What is said about a command, and the buttons that come with it, are the same whatever
/// the secrets are.
pub proof fn answers_to_commands_hide_the_secrets(
    a: BotModel,
    b: BotModel,
    chat: i64,
    command: CommandModel,
    now: Instant,
    millis: u128,
    unix_now: u64,
)
    requires
        same_bots(a, b),
    ensures
        said(command_outcome(a, chat, command, now, millis, unix_now).0) == said(
            command_outcome(b, chat, command, now, millis, unix_now).0,
        ),
{
    match command {
        CommandModel::Status(arg) | CommandModel::Check(arg) => {
            lemma_tasks(a.config, b.config, trimmed(arg));
        },
        CommandModel::Change(arg) => {
            lemma_change(
                BotModel { busy: a.busy.insert(chat), ..a },
                BotModel { busy: b.busy.insert(chat), ..b },
                trimmed(arg),
                now,
                millis,
            );
        },
        _ => {},
    }
}

/// What is said about a text is the same whatever the secrets are.
pub proof fn answers_to_texts_hide_the_secrets(
    a: BotModel,
    b: BotModel,
    chat: i64,
    text: Seq<char>,
    now: Instant,
)
    requires
        same_bots(a, b),
    ensures
        said(on_text(a, chat, text, now).0) == said(on_text(b, chat, text, now).0),
{
    if let Some(mode) = taken(a.server_edits, chat, now) {
        if let EditModel::Name(id) = mode {
            lemma_position(a.config.servers, b.config.servers, id);
        }
    } else if let Some(mode) = taken(a.timer_inputs, chat, now) {
        lemma_rows(a.timer.servers, b.timer.servers, "timer_create"@, Some(text));
        if let InputModel::Edit(target) = mode {
            lemma_timer(a.timer, b.timer, UpdateModel::Enable { target, hhmm: text });
        }
    }
}

} // verus!
