//! Where the buttons of the messages lead: what is sent when one is pressed asks for what it
//! shows.

use vstd::prelude::*;
use crate::bot::callbacks::{
    callback_action, menu_buttons_are_understood, server_buttons_are_understood,
    timer_buttons_are_understood, with_arg, ActionModel,
};
use crate::bot::change::{selection_reply, selection_rows};
use crate::bot::commands::{start_menu, CommandModel};
use crate::bot::dispatch::{on_action, on_command, on_text, BotModel, TaskModel};
use crate::bot::flows::{lemma_time_is_no_command, waits, within};
use crate::bot::server_delete::delete_question;
use crate::bot::server_edit::edit_menu;
use crate::bot::state::Instant;
use crate::bot::timer_ui::{
    close_targets, create_targets, edit_targets, panel_keyboard, server_rows,
};
use crate::bot::ui::{button_of, ButtonModel};
use crate::config::ServerModel;
use crate::server_manage::{lemma_stands_first, stands_first};
use crate::text::{has_char, lemma_trimmed_blank, trimmed, trimming_takes_the_ends_away};
use crate::timer::{names_time, times_are_understood_as_written};

verus! {

/// The enabled servers, in their order.
pub open spec fn enabled_ones(servers: Seq<ServerModel>) -> Seq<ServerModel> {
    servers.filter(|s: ServerModel| s.enabled)
}

/// An order is its name, a colon, and what it is about.
pub proof fn orders_have_a_colon(a: Seq<char>, b: Seq<char>)
    ensures
        with_arg(a, b) == a + ":"@ + b,
{
    reveal_strlit(":");
    assert(with_arg(a, b) =~= a + ":"@ + b);
}

proof fn lemma_server_rows(
    servers: Seq<ServerModel>,
    verb: Seq<char>,
    after: Option<Seq<char>>,
    k: int,
)
    ensures
        server_rows(servers, verb, after).len() == enabled_ones(servers).len(),
        0 <= k < enabled_ones(servers).len() ==> {
            let s = enabled_ones(servers)[k];
            server_rows(servers, verb, after)[k] == seq![
                button_of(
                    "🖥 "@ + s.name,
                    with_arg(
                        verb,
                        with_arg(
                            "server"@,
                            match after {
                                Some(a) => with_arg(s.id, a),
                                None => s.id,
                            },
                        ),
                    ),
                ),
            ]
        },
    decreases servers.len(),
{
    reveal(Seq::filter);
    if servers.len() > 0 {
        lemma_server_rows(servers.drop_last(), verb, after, k);
    }
}

proof fn lemma_selection_rows(servers: Seq<ServerModel>, action: Seq<char>, k: int)
    ensures
        selection_rows(servers, action).len() == enabled_ones(servers).len(),
        0 <= k < enabled_ones(servers).len() ==> {
            let s = enabled_ones(servers)[k];
            selection_rows(servers, action)[k] == seq![
                button_of(s.name, with_arg("select_"@ + action, s.id)),
            ]
        },
    decreases servers.len(),
{
    reveal(Seq::filter);
    if servers.len() > 0 {
        lemma_selection_rows(servers.drop_last(), action, k);
    }
}

/// The row has one button, which shows the server and asks for this.
pub open spec fn leads_to(row: Seq<ButtonModel>, label: Seq<char>, action: ActionModel) -> bool {
    row.len() == 1 && row[0].label == label && callback_action(row[0].data) == action
}

/// The question which timer is to be edited, closed or set has a button for all servers and one
/// for each enabled server, in their order, and each leads to its own target.
pub proof fn timer_targets_lead_to_their_timers(
    servers: Seq<ServerModel>,
    hhmm: Seq<char>,
    k: int,
)
    requires
        forall|i: int| 0 <= i < servers.len() ==> !has_char((#[trigger] servers[i]).id, ':'),
    ensures
        ({
            let n = enabled_ones(servers).len();
            let s = enabled_ones(servers)[k];
            &&& edit_targets(servers).keyboard matches Some(rows) && rows.len() == n + 1
                && leads_to(rows[0], "🌐 全部 Server"@, ActionModel::TimerEditTargetAll) && (0 <= k
                < n ==> leads_to(
                rows[k + 1],
                "🖥 "@ + s.name,
                ActionModel::TimerEditTargetServer(s.id),
            ))
            &&& close_targets(servers).keyboard matches Some(rows) && rows.len() == n + 1
                && leads_to(rows[0], "🌐 全部 Server"@, ActionModel::TimerCloseAll) && (0 <= k < n
                ==> leads_to(
                rows[k + 1],
                "🖥 "@ + s.name,
                ActionModel::TimerCloseServer(s.id),
            ))
            &&& create_targets(servers, hhmm).keyboard matches Some(rows) && rows.len() == n + 1
                && leads_to(rows[0], "🌐 全部 Server"@, ActionModel::TimerCreateAll { hhmm }) && (0
                <= k < n ==> leads_to(
                rows[k + 1],
                "🖥 "@ + s.name,
                ActionModel::TimerCreateServer { server_id: s.id, hhmm },
            ))
        }),
{
    let e = enabled_ones(servers);
    lemma_server_rows(servers, "timer_edit_target"@, None, k);
    lemma_server_rows(servers, "timer_close"@, None, k);
    lemma_server_rows(servers, "timer_create"@, Some(hhmm), k);
    timer_buttons_are_understood(Seq::empty(), hhmm);
    if 0 <= k < e.len() {
        lemma_filtered(servers, k);
        timer_buttons_are_understood(e[k].id, hhmm);
    }
}

proof fn lemma_filtered(servers: Seq<ServerModel>, k: int)
    requires
        0 <= k < enabled_ones(servers).len(),
    ensures
        servers.contains(enabled_ones(servers)[k]),
        enabled_ones(servers)[k].enabled,
    decreases servers.len(),
{
    reveal(Seq::filter);
    let before = servers.drop_last();
    if k < enabled_ones(before).len() {
        lemma_filtered(before, k);
        let s = enabled_ones(before)[k];
        let i = choose|i: int| 0 <= i < before.len() && before[i] == s;
        assert(servers[i] == s);
    } else {
        assert(servers[servers.len() - 1] == enabled_ones(servers)[k]);
    }
}

/// The question which server is meant has a button for each enabled server, in their order,
/// and each leads to the order for that server. Without an enabled server there are none.
pub proof fn selection_leads_to_the_servers(servers: Seq<ServerModel>, k: int)
    ensures
        enabled_ones(servers).len() == 0 ==> selection_reply(servers, "status"@).keyboard is None,
        0 <= k < enabled_ones(servers).len() ==> {
            let n = enabled_ones(servers).len();
            let s = enabled_ones(servers)[k];
            &&& selection_reply(servers, "status"@).keyboard matches Some(rows) && rows.len() == n
                && leads_to(rows[k], s.name, ActionModel::SelectStatus(s.id))
            &&& selection_reply(servers, "check"@).keyboard matches Some(rows) && rows.len() == n
                && leads_to(rows[k], s.name, ActionModel::SelectCheck(s.id))
            &&& selection_reply(servers, "change"@).keyboard matches Some(rows) && rows.len() == n
                && leads_to(rows[k], s.name, ActionModel::SelectChange(s.id))
        },
{
    lemma_selection_rows(servers, "status"@, k);
    lemma_selection_rows(servers, "check"@, k);
    lemma_selection_rows(servers, "change"@, k);
    if 0 <= k < enabled_ones(servers).len() {
        server_buttons_are_understood(enabled_ones(servers)[k].id);
        reveal_strlit("select_");
        reveal_strlit("status");
        reveal_strlit("check");
        reveal_strlit("change");
        reveal_strlit("select_status");
        reveal_strlit("select_check");
        reveal_strlit("select_change");
        assert("select_"@ + "status"@ =~= "select_status"@);
        assert("select_"@ + "check"@ =~= "select_check"@);
        assert("select_"@ + "change"@ =~= "select_change"@);
    }
}

/// The menu of a server leads to the edits of that server and back to the list, and the
/// question whether it is to be deleted to both answers.
pub proof fn server_menus_lead_to_the_server(s: ServerModel, id: Seq<char>)
    ensures
        edit_menu(s, id).keyboard matches Some(rows) && rows.len() == 3 && rows[0].len() == 2
            && rows[1].len() == 2 && rows[2].len() == 1 && callback_action(rows[0][0].data)
            == ActionModel::ServerEditName(id) && callback_action(rows[0][1].data)
            == ActionModel::ServerEditAddress(id) && callback_action(rows[1][0].data)
            == ActionModel::ServerEditToken(id) && callback_action(rows[1][1].data)
            == ActionModel::ServerRevalidate(id) && callback_action(rows[2][0].data)
            == ActionModel::MenuServers,
        delete_question(s, id).keyboard matches Some(rows) && rows.len() == 1 && rows[0].len() == 2
            && callback_action(rows[0][0].data) == ActionModel::ServerDeleteConfirm(id)
            && callback_action(rows[0][1].data) == ActionModel::ServerDeleteCancel,
{
    server_buttons_are_understood(id);
    menu_buttons_are_understood();
}

/// The buttons of the start menu and of the panel lead to what they show.
pub proof fn menus_lead_to_what_they_show()
    ensures
        start_menu().keyboard matches Some(rows) && rows.len() == 3 && callback_action(
            rows[0][0].data,
        ) == ActionModel::MenuAddServer && callback_action(rows[0][1].data)
            == ActionModel::MenuServers && callback_action(rows[1][0].data)
            == ActionModel::MenuStatus && callback_action(rows[1][1].data)
            == ActionModel::MenuChange && callback_action(rows[2][0].data)
            == ActionModel::MenuTimer && callback_action(rows[2][1].data) == ActionModel::MenuHelp,
        panel_keyboard().len() == 2,
        callback_action(panel_keyboard()[0][0].data) == ActionModel::TimerNew,
        callback_action(panel_keyboard()[0][1].data) == ActionModel::TimerEdit,
        callback_action(panel_keyboard()[1][0].data) == ActionModel::TimerClose,
        callback_action(panel_keyboard()[1][1].data) == ActionModel::TimerRefresh,
{
    menu_buttons_are_understood();
}

/// A new timer is set by three steps: the button, a time within five minutes, and the button of
/// a target. The time brings the question for the target, whose buttons set that time.
pub proof fn new_timer_asks_for_its_target(
    s: BotModel,
    chat: i64,
    text: Seq<char>,
    hour: nat,
    minute: nat,
    k: int,
    asked: Instant,
    now: Instant,
    millis: u128,
)
    requires
        names_time(text, hour, minute),
        within(asked, now, 300),
        !waits(s.server_edits, chat, now),
        !waits(s.server_wizards, chat, now),
        forall|i: int| 0 <= i < s.timer.servers.len() ==> !has_char(
            (#[trigger] s.timer.servers[i]).id,
            ':',
        ),
    ensures
        ({
            let s1 = on_action(s, chat, ActionModel::TimerNew, asked, millis).1;
            let hhmm = trimmed(text);
            let r = on_text(s1, chat, hhmm, now);
            let e = enabled_ones(s.timer.servers);
            &&& r.0 matches TaskModel::SayAboutTimers(reply) && (reply.keyboard matches Some(rows)
                && rows.len() == e.len() + 1 && leads_to(
                rows[0],
                "🌐 全部 Server"@,
                ActionModel::TimerCreateAll { hhmm },
            ) && (0 <= k < e.len() ==> leads_to(
                rows[k + 1],
                "🖥 "@ + e[k].name,
                ActionModel::TimerCreateServer { server_id: e[k].id, hhmm },
            )))
            &&& !waits(r.1.timer_inputs, chat, now)
        }),
{
    lemma_time_is_no_command(text, hour, minute);
    times_are_understood_as_written(trimmed(text), hour, minute);
    timer_targets_lead_to_their_timers(s.timer.servers, trimmed(text), k);
}

/// The buttons of the panel bring what they show: the panel anew, and the questions whose timer
/// is to be edited or closed, with the servers of the timers.
pub proof fn panel_buttons_ask_for_targets(
    s: BotModel,
    chat: i64,
    k: int,
    now: Instant,
    millis: u128,
)
    requires
        forall|i: int| 0 <= i < s.timer.servers.len() ==> !has_char(
            (#[trigger] s.timer.servers[i]).id,
            ':',
        ),
    ensures
        ({
            let e = enabled_ones(s.timer.servers);
            let edit = on_action(s, chat, ActionModel::TimerEdit, now, millis);
            let close = on_action(s, chat, ActionModel::TimerClose, now, millis);
            &&& edit.1 == s && close.1 == s
            &&& edit.0 matches TaskModel::SayAboutTimers(reply) && (reply.keyboard matches Some(
                rows,
            ) && rows.len() == e.len() + 1 && callback_action(rows[0][0].data)
                == ActionModel::TimerEditTargetAll && (0 <= k < e.len() ==> leads_to(
                rows[k + 1],
                "🖥 "@ + e[k].name,
                ActionModel::TimerEditTargetServer(e[k].id),
            )))
            &&& close.0 matches TaskModel::SayAboutTimers(reply) && (reply.keyboard matches Some(
                rows,
            ) && rows.len() == e.len() + 1 && callback_action(rows[0][0].data)
                == ActionModel::TimerCloseAll && (0 <= k < e.len() ==> leads_to(
                rows[k + 1],
                "🖥 "@ + e[k].name,
                ActionModel::TimerCloseServer(e[k].id),
            )))
            &&& on_action(s, chat, ActionModel::TimerRefresh, now, millis) == (
                TaskModel::ShowTimerPanel,
                s,
            )
            &&& on_action(s, chat, ActionModel::MenuTimer, now, millis) == (
                TaskModel::ShowTimerPanel,
                s,
            )
            &&& on_command(s, chat, CommandModel::Timer, now, millis) == (
                TaskModel::ShowTimerPanel,
                s,
            )
        }),
{
    timer_targets_lead_to_their_timers(s.timer.servers, Seq::empty(), k);
}

/// The buttons and commands that only answer change nothing; the button of the list takes back
/// the question about a change of a server, and that of a server brings its menu.
pub proof fn menu_buttons_bring_their_answers(
    s: BotModel,
    chat: i64,
    id: Seq<char>,
    i: int,
    now: Instant,
    millis: u128,
)
    ensures
        ({
            let list = on_action(s, chat, ActionModel::MenuServers, now, millis);
            &&& s.config.servers.len() > 0 ==> list.0 == TaskModel::ShowServers(s.config.servers)
                && on_command(s, chat, CommandModel::Servers, now, millis) == (
                TaskModel::ShowServers(s.config.servers),
                s,
            )
            &&& s.config.servers.len() == 0 ==> list.0 is Say
            &&& list.1 == (BotModel { server_edits: list.1.server_edits, ..s })
            &&& !waits(list.1.server_edits, chat, now)
        }),
        stands_first(s.config.servers, id, i) ==> {
            let menu = on_action(s, chat, ActionModel::ServerEdit(id), now, millis);
            let question = on_action(s, chat, ActionModel::ServerDelete(id), now, millis);
            &&& menu == (TaskModel::Say(edit_menu(s.config.servers[i], id)), s)
            &&& question == (TaskModel::Say(delete_question(s.config.servers[i], id)), s)
        },
        on_command(s, chat, CommandModel::Start, now, millis) == (
            TaskModel::Say(start_menu()),
            s,
        ),
        on_action(s, chat, ActionModel::MenuHelp, now, millis) == on_command(
            s,
            chat,
            CommandModel::Help,
            now,
            millis,
        ),
        on_action(s, chat, ActionModel::MenuHelp, now, millis).0 is Say,
        on_action(s, chat, ActionModel::MenuHelp, now, millis).1 == s,
        on_action(s, chat, ActionModel::LegacyChange, now, millis).0 is Say,
        on_action(s, chat, ActionModel::LegacyChange, now, millis).1 == s,
        on_action(s, chat, ActionModel::Unknown, now, millis).0 is Say,
        on_action(s, chat, ActionModel::Unknown, now, millis).1 == s,
        on_action(s, chat, ActionModel::CancelAddServer(id), now, millis).0 is Say,
        on_action(s, chat, ActionModel::CancelAddServer(id), now, millis).1 == s,
        on_action(s, chat, ActionModel::ConfirmAddServer(id), now, millis).0 is Say,
        on_action(s, chat, ActionModel::ConfirmAddServer(id), now, millis).1 == s,
        on_action(s, chat, ActionModel::MenuChange, now, millis) == on_command(
            s,
            chat,
            CommandModel::Change(""@),
            now,
            millis,
        ),
{
    lemma_stands_first(s.config.servers, id);
    let _ = trimming_takes_the_ends_away(""@);
    reveal_strlit("");
    lemma_trimmed_blank(""@);
    assert(trimmed(""@) =~= ""@);
}

/// A question waits for its answer as long as it should: that for a time five minutes, those
/// about a server a quarter of an hour. A new one takes the place of the old one of the chat and
/// leaves the others.
pub proof fn questions_wait_their_time(
    s: BotModel,
    chat: i64,
    other: i64,
    id: Seq<char>,
    asked: Instant,
    now: Instant,
    millis: u128,
)
    requires
        asked.nanos <= now.nanos,
        chat != other,
    ensures
        ({
            let time = on_action(s, chat, ActionModel::TimerNew, asked, millis).1;
            let edit = on_action(s, chat, ActionModel::ServerEditName(id), asked, millis).1;
            let add = on_action(s, chat, ActionModel::MenuAddServer, asked, millis).1;
            &&& waits(time.timer_inputs, chat, now) <==> within(asked, now, 300)
            &&& waits(edit.server_edits, chat, now) <==> within(asked, now, 900)
            &&& waits(add.server_wizards, chat, now) <==> within(asked, now, 900)
            &&& waits(time.timer_inputs, other, now) <==> waits(s.timer_inputs, other, now)
            &&& waits(edit.server_edits, other, now) <==> waits(s.server_edits, other, now)
            &&& waits(add.server_wizards, other, now) <==> waits(s.server_wizards, other, now)
            &&& time == (BotModel { timer_inputs: time.timer_inputs, ..s })
            &&& edit == (BotModel { server_edits: edit.server_edits, ..s })
            &&& add == (BotModel { server_wizards: add.server_wizards, ..s })
        }),
{
}

} // verus!
