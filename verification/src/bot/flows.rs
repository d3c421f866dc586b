//! What orders come to that follow one another: a button that asks for something, and the text
//! or the button that answers it.

use vstd::prelude::*;
use crate::bot::callbacks::{callback_action, change_buttons_are_understood, ActionModel};
use crate::bot::commands::CommandModel;
use crate::bot::dispatch::{
    command_outcome, on_action, on_command, on_text, BotModel, TaskModel,
};
use crate::bot::formatting::{host_of, AddressMetadata};
use crate::bot::pairing::{chat_authorized, DecisionModel};
use crate::bot::server_edit::{after_trial, found, saving, EditActionModel};
use crate::bot::server_wizard::{new_server, WizardActionModel};
use crate::bot::state::{nonce_of, Instant, StepModel};
use crate::config::choice::{name_means_its_server, one_enabled_server_needs_no_name};
use crate::config::{lemma_position_of, position_of, ConfigModel, ServerModel, TimerModel};
use crate::number::{decimal_int, decimal_int_reads_back};
use crate::server_manage::{
    address_edit_changes_the_address_only, after_address, delete_takes_one_server_out,
    differ_at_most_in, lemma_stands_first, rename_changes_the_name_only, stands_first,
    token_edit_changes_the_token_only, with_servers,
};
use crate::text::{
    has_char, is_blank, lemma_trimmed_blank, starts_with, trimmed, trimming_takes_the_ends_away,
    upper_ascii,
};
use crate::timer::{
    disabling_stops_one_timer, enabling_sets_one_timer, entered_time_is_shown, is_daily,
    names_time, parsed_hhmm, parsed_times_are_times, status_of, times_are_understood_as_written,
    TargetModel,
};

verus! {

// ---------------------------------------------------------------------------
// Words for what follows
// ---------------------------------------------------------------------------

/// A question waits for an answer of this chat.
pub open spec fn waits<T>(m: Map<i64, (T, nat)>, chat: i64, now: Instant) -> bool {
    m.dom().contains(chat) && m[chat].1 > now.nanos
}

/// The second reading is not before the first, and less than this many seconds after it.
pub open spec fn within(asked: Instant, now: Instant, secs: nat) -> bool {
    asked.nanos <= now.nanos < asked.nanos + secs * 1_000_000_000
}

/// The timer runs every day at this time.
pub open spec fn runs_daily(t: Option<TimerModel>, hour: nat, minute: nat) -> bool {
    t matches Some(t) && t.enabled && (t.cron matches Some(cron) && is_daily(cron, hour, minute))
}

/// The timer does not run, and has the cron expression that it had.
pub open spec fn is_stopped(new: Option<TimerModel>, old: Option<TimerModel>) -> bool {
    new matches Some(t) && !t.enabled && t.cron == (match old {
        Some(o) => o.cron,
        None => None,
    })
}

/// The configuration differs from another one in the timer of the server at `i` alone.
pub open spec fn only_timer_of(next: ConfigModel, old: ConfigModel, i: int) -> bool {
    &&& differ_at_most_in(next, old, i)
    &&& next.servers[i].id == old.servers[i].id
    &&& next.servers[i].name == old.servers[i].name
    &&& next.servers[i].token == old.servers[i].token
    &&& next.servers[i].enabled == old.servers[i].enabled
    &&& next.servers[i].address == old.servers[i].address
    &&& next.servers[i].country == old.servers[i].country
    &&& next.servers[i].flag == old.servers[i].flag
    &&& next.servers[i].resolved_ip == old.servers[i].resolved_ip
}

/// The configuration differs from another one in the timer for all servers alone.
pub open spec fn only_global_timer(next: ConfigModel, old: ConfigModel) -> bool {
    &&& next.servers == old.servers
    &&& next.tg_token == old.tg_token
    &&& next.tg_chat_id == old.tg_chat_id
    &&& next.tg_pair_code == old.tg_pair_code
    &&& next.tg_pair_expires_at == old.tg_pair_expires_at
    &&& next.change_ip_cooldown == old.change_ip_cooldown
    &&& next.migration_notice == old.migration_notice
}

/// The configuration differs from another one in the name of the server at `i` alone.
pub open spec fn only_name_of(next: ConfigModel, old: ConfigModel, i: int) -> bool {
    &&& differ_at_most_in(next, old, i)
    &&& next.servers[i] == (ServerModel { name: next.servers[i].name, ..old.servers[i] })
}

/// The configuration differs from another one in the token of the server at `i` alone.
pub open spec fn only_token_of(next: ConfigModel, old: ConfigModel, i: int) -> bool {
    &&& differ_at_most_in(next, old, i)
    &&& next.servers[i] == (ServerModel { token: next.servers[i].token, ..old.servers[i] })
}

/// The configuration differs from another one in that the servers at `i` and `j` have changed
/// places.
pub open spec fn exchanged(next: ConfigModel, old: ConfigModel, i: int, j: int) -> bool {
    &&& next == (ConfigModel { servers: next.servers, ..old })
    &&& next.servers.len() == old.servers.len()
    &&& next.servers[i] == old.servers[j]
    &&& next.servers[j] == old.servers[i]
    &&& forall|k: int|
        0 <= k < old.servers.len() && k != i && k != j ==> #[trigger] next.servers[k]
            == old.servers[k]
}

pub(crate) proof fn lemma_time_is_no_command(text: Seq<char>, hour: nat, minute: nat)
    requires
        names_time(text, hour, minute),
    ensures
        trimmed(trimmed(text)) == trimmed(text),
        names_time(trimmed(text), hour, minute),
        !starts_with(trimmed(text), "/"@),
{
    let _ = trimming_takes_the_ends_away(text);
    reveal_strlit("/");
    let t = trimmed(text);
    if starts_with(t, "/"@) {
        assert(t.subrange(0, 1)[0] == t[0]);
        assert(t[0] == '/');
    }
}

// ---------------------------------------------------------------------------
// Timers
// ---------------------------------------------------------------------------

/// The timer of a server is edited: after the button for an enabled server and, within five
/// minutes, a time from the same chat, a configuration is to be saved in which the timer of
/// that server runs at that time and is shown with it. It agrees with the old one in all else,
/// the timer for all servers and every other server included. The question is answered then.
pub proof fn edited_time_is_set_for_the_server(
    s: BotModel,
    chat: i64,
    id: Seq<char>,
    i: int,
    text: Seq<char>,
    hour: nat,
    minute: nat,
    asked: Instant,
    now: Instant,
    millis: u128,
)
    requires
        stands_first(s.timer.servers, id, i),
        s.timer.servers[i].enabled,
        names_time(text, hour, minute),
        within(asked, now, 300),
        !waits(s.server_edits, chat, now),
        !waits(s.server_wizards, chat, now),
    ensures
        ({
            let s1 = on_action(s, chat, ActionModel::TimerEditTargetServer(id), asked, millis).1;
            let r = on_text(s1, chat, trimmed(text), now);
            &&& r.0 matches TaskModel::SaveTimers(next) && {
                &&& only_timer_of(next, s.timer, i)
                &&& runs_daily(next.servers[i].timer, hour, minute)
                &&& status_of(next).servers[i].timer_enabled
                &&& status_of(next).servers[i].time == Some(trimmed(text))
            }
            &&& !waits(r.1.timer_inputs, chat, now)
        }),
{
    lemma_time_is_no_command(text, hour, minute);
    lemma_stands_first(s.timer.servers, id);
    enabling_sets_one_timer(s.timer, TargetModel::Server(id), trimmed(text), hour, minute);
    times_are_understood_as_written(trimmed(text), hour, minute);
    entered_time_is_shown(trimmed(text));
}

/// The timer for all servers is edited in the same way: it runs at the time that was given,
/// and every server keeps its own.
pub proof fn edited_time_is_set_for_all(
    s: BotModel,
    chat: i64,
    text: Seq<char>,
    hour: nat,
    minute: nat,
    asked: Instant,
    now: Instant,
    millis: u128,
)
    requires
        names_time(text, hour, minute),
        within(asked, now, 300),
        !waits(s.server_edits, chat, now),
        !waits(s.server_wizards, chat, now),
    ensures
        ({
            let s1 = on_action(s, chat, ActionModel::TimerEditTargetAll, asked, millis).1;
            let r = on_text(s1, chat, trimmed(text), now);
            &&& r.0 matches TaskModel::SaveTimers(next) && {
                &&& only_global_timer(next, s.timer)
                &&& runs_daily(next.global_timer, hour, minute)
                &&& status_of(next).global_timer_enabled
                &&& status_of(next).global_time == Some(trimmed(text))
            }
            &&& !waits(r.1.timer_inputs, chat, now)
        }),
{
    lemma_time_is_no_command(text, hour, minute);
    enabling_sets_one_timer(s.timer, TargetModel::AllEnabled, trimmed(text), hour, minute);
    times_are_understood_as_written(trimmed(text), hour, minute);
    entered_time_is_shown(trimmed(text));
}

/// No timer is set for a server that is unknown or disabled.
pub proof fn edited_time_needs_an_enabled_server(
    s: BotModel,
    chat: i64,
    id: Seq<char>,
    text: Seq<char>,
    asked: Instant,
    now: Instant,
    millis: u128,
)
    requires
        forall|i: int| stands_first(s.timer.servers, id, i) ==> !s.timer.servers[i].enabled,
    ensures
        ({
            let s1 = on_action(s, chat, ActionModel::TimerEditTargetServer(id), asked, millis).1;
            !(on_text(s1, chat, text, now).0 is SaveTimers)
        }),
        !(on_action(s, chat, ActionModel::TimerCloseServer(id), now, millis).0 is SaveTimers),
        forall|hhmm: Seq<char>|
            #![auto]
            !(on_action(
                s,
                chat,
                ActionModel::TimerCreateServer { server_id: id, hhmm },
                now,
                millis,
            ).0 is SaveTimers),
{
    lemma_stands_first(s.timer.servers, id);
}

/// A text that names no time sets no timer, whatever was asked.
pub proof fn text_without_a_time_sets_no_timer(s: BotModel, chat: i64, text: Seq<char>, now: Instant)
    requires
        forall|hour: nat, minute: nat| !#[trigger] names_time(text, hour, minute),
    ensures
        !(on_text(s, chat, text, now).0 is SaveTimers),
{
    if on_text(s, chat, text, now).0 is SaveTimers {
        let t = parsed_hhmm(text);
        assert(t is Ok);
        parsed_times_are_times(text);
        times_are_understood_as_written(text, t->Ok_0.0 as nat, t->Ok_0.1 as nat);
    }
}

/// A text sets a timer only where a time was asked for in that chat, and the question has not
/// run out; a question of another chat is nothing to it. So does the question of a new timer
/// set none by itself.
pub proof fn time_nobody_asked_for_sets_no_timer(
    s: BotModel,
    chat: i64,
    other: i64,
    action: ActionModel,
    text: Seq<char>,
    asked: Instant,
    now: Instant,
    millis: u128,
)
    ensures
        !waits(s.timer_inputs, chat, now) ==> !(on_text(s, chat, text, now).0 is SaveTimers),
        !waits(s.timer_inputs, chat, now) && other != chat ==> !(on_text(
            on_action(s, other, action, asked, millis).1,
            chat,
            text,
            now,
        ).0 is SaveTimers),
        (action is TimerEditTargetAll || action is TimerEditTargetServer) && now.nanos
            >= asked.nanos + 300 * 1_000_000_000 ==> !(on_text(
            on_action(s, chat, action, asked, millis).1,
            chat,
            text,
            now,
        ).0 is SaveTimers),
        action is TimerNew ==> !(on_text(
            on_action(s, chat, action, asked, millis).1,
            chat,
            text,
            now,
        ).0 is SaveTimers),
{
}

/// The buttons that set a timer at a time do so for their own target.
pub proof fn created_timer_is_set(
    s: BotModel,
    chat: i64,
    id: Seq<char>,
    i: int,
    hhmm: Seq<char>,
    hour: nat,
    minute: nat,
    now: Instant,
    millis: u128,
)
    requires
        names_time(hhmm, hour, minute),
    ensures
        on_action(s, chat, ActionModel::TimerCreateAll { hhmm }, now, millis).0 matches
        TaskModel::SaveTimers(next) && only_global_timer(next, s.timer) && runs_daily(
            next.global_timer,
            hour,
            minute,
        ),
        stands_first(s.timer.servers, id, i) && s.timer.servers[i].enabled ==> (on_action(
            s,
            chat,
            ActionModel::TimerCreateServer { server_id: id, hhmm },
            now,
            millis,
        ).0 matches TaskModel::SaveTimers(next) && only_timer_of(next, s.timer, i) && runs_daily(
            next.servers[i].timer,
            hour,
            minute,
        )),
{
    lemma_stands_first(s.timer.servers, id);
    enabling_sets_one_timer(s.timer, TargetModel::AllEnabled, hhmm, hour, minute);
    enabling_sets_one_timer(s.timer, TargetModel::Server(id), hhmm, hour, minute);
}

/// The buttons that close a timer stop that of their own target, which keeps its time.
pub proof fn closed_timer_is_stopped(
    s: BotModel,
    chat: i64,
    id: Seq<char>,
    i: int,
    now: Instant,
    millis: u128,
)
    ensures
        on_action(s, chat, ActionModel::TimerCloseAll, now, millis).0 matches
        TaskModel::SaveTimers(next) && only_global_timer(next, s.timer) && is_stopped(
            next.global_timer,
            s.timer.global_timer,
        ),
        stands_first(s.timer.servers, id, i) && s.timer.servers[i].enabled ==> (on_action(
            s,
            chat,
            ActionModel::TimerCloseServer(id),
            now,
            millis,
        ).0 matches TaskModel::SaveTimers(next) && only_timer_of(next, s.timer, i) && is_stopped(
            next.servers[i].timer,
            s.timer.servers[i].timer,
        )),
{
    lemma_stands_first(s.timer.servers, id);
    disabling_stops_one_timer(s.timer, TargetModel::AllEnabled);
    disabling_stops_one_timer(s.timer, TargetModel::Server(id));
}

// ---------------------------------------------------------------------------
// Which question a text answers
// ---------------------------------------------------------------------------

/// A text answers the question about a change of a server, else that about a new server, else
/// that about a time. The questions that come after the one that it answers wait on, and those
/// of other chats wait on in any case.
pub proof fn text_answers_one_question(
    s: BotModel,
    chat: i64,
    other: i64,
    text: Seq<char>,
    now: Instant,
)
    ensures
        ({
            let r = on_text(s, chat, text, now);
            &&& waits(s.server_edits, chat, now) ==> r.0 is Edit && r.1.server_wizards
                == s.server_wizards && r.1.timer_inputs == s.timer_inputs
            &&& !waits(s.server_edits, chat, now) && waits(s.server_wizards, chat, now)
                ==> r.0 is AddServer && r.1.timer_inputs == s.timer_inputs
            &&& !waits(s.server_edits, chat, now) && !waits(s.server_wizards, chat, now) && !waits(
                s.timer_inputs,
                chat,
                now,
            ) ==> r.0 is Nothing
            &&& !waits(r.1.server_edits, chat, now)
            &&& r.1.confirmations == s.confirmations
            &&& r.1.next_confirmation == s.next_confirmation
            &&& r.1.busy == s.busy
        }),
        other != chat ==> {
            let r = on_text(s, chat, text, now);
            &&& waits(r.1.server_edits, other, now) == waits(s.server_edits, other, now)
            &&& waits(r.1.server_wizards, other, now) == waits(s.server_wizards, other, now)
            &&& waits(r.1.timer_inputs, other, now) == waits(s.timer_inputs, other, now)
            &&& waits(s.server_edits, other, now) ==> r.1.server_edits[other]
                == s.server_edits[other]
            &&& waits(s.server_wizards, other, now) ==> r.1.server_wizards[other]
                == s.server_wizards[other]
            &&& waits(s.timer_inputs, other, now) ==> r.1.timer_inputs[other]
                == s.timer_inputs[other]
        },
{
}

// ---------------------------------------------------------------------------
// Changing a server
// ---------------------------------------------------------------------------

/// The name of a server is edited: after the button and, within fifteen minutes, a name from
/// the same chat, a configuration is to be saved in which that server has that name, and which
/// agrees with the old one in all else. A blank name is refused. The message stays.
pub proof fn edited_name_is_saved(
    s: BotModel,
    chat: i64,
    id: Seq<char>,
    i: int,
    text: Seq<char>,
    asked: Instant,
    now: Instant,
    millis: u128,
)
    requires
        within(asked, now, 900),
    ensures
        ({
            let s1 = on_action(s, chat, ActionModel::ServerEditName(id), asked, millis).1;
            let r = on_text(s1, chat, text, now);
            &&& r.0 matches TaskModel::Edit(a, delete) && !delete && {
                &&& is_blank(text) ==> a is Say
                &&& !is_blank(text) && stands_first(s.config.servers, id, i) ==> (a matches
                    EditActionModel::Save { next, .. } && only_name_of(next, s.config, i)
                    && next.servers[i].name == trimmed(text))
                &&& (forall|j: int|
                    0 <= j < s.config.servers.len() ==> (#[trigger] s.config.servers[j]).id != id)
                    ==> a is Say
            }
            &&& !waits(r.1.server_edits, chat, now)
        }),
{
    lemma_trimmed_blank(text);
    let _ = trimming_takes_the_ends_away(text);
    lemma_trimmed_blank(trimmed(text));
    rename_changes_the_name_only(s.config, id, trimmed(text), i);
}

/// The token of a server is edited: after the button and, within fifteen minutes, a token from
/// the same chat, that token is to be tried for that server, and the message is to be deleted.
/// A blank one is refused.
pub proof fn edited_token_is_tried(
    s: BotModel,
    chat: i64,
    id: Seq<char>,
    text: Seq<char>,
    asked: Instant,
    now: Instant,
    millis: u128,
)
    requires
        within(asked, now, 900),
    ensures
        ({
            let s1 = on_action(s, chat, ActionModel::ServerEditToken(id), asked, millis).1;
            let r = on_text(s1, chat, text, now);
            &&& r.0 matches TaskModel::Edit(a, delete) && delete && {
                &&& is_blank(text) ==> a is Say
                &&& !is_blank(text) ==> a == (EditActionModel::CheckToken {
                    server_id: id,
                    token: trimmed(text),
                })
            }
            &&& !waits(r.1.server_edits, chat, now)
        }),
{
    lemma_trimmed_blank(text);
    let _ = trimming_takes_the_ends_away(text);
    lemma_trimmed_blank(trimmed(text));
}

/// A token that was tried and works is saved for its server, and nothing else is changed. One
/// that does not work changes nothing.
pub proof fn tried_token_is_saved(
    config: ConfigModel,
    id: Seq<char>,
    i: int,
    token: Seq<char>,
    tried: Result<(), String>,
)
    ensures
        tried is Err ==> after_trial(config, id, token, tried) is Say,
        tried is Ok && stands_first(config.servers, id, i) ==> (after_trial(
            config,
            id,
            token,
            tried,
        ) matches EditActionModel::Save { next, .. } && only_token_of(next, config, i)
            && next.servers[i].token == token),
        tried is Ok && (forall|j: int|
            0 <= j < config.servers.len() ==> (#[trigger] config.servers[j]).id != id)
            ==> after_trial(config, id, token, tried) is Say,
{
    token_edit_changes_the_token_only(config, id, token, i);
}

/// The address of a server is edited: after the button and, within fifteen minutes, an address
/// from the same chat, the host that it names is to be looked up for that server. A text that
/// names no host is refused.
pub proof fn edited_address_is_looked_up(
    s: BotModel,
    chat: i64,
    id: Seq<char>,
    text: Seq<char>,
    asked: Instant,
    now: Instant,
    millis: u128,
)
    requires
        within(asked, now, 900),
    ensures
        ({
            let s1 = on_action(s, chat, ActionModel::ServerEditAddress(id), asked, millis).1;
            let r = on_text(s1, chat, text, now);
            &&& r.0 matches TaskModel::Edit(a, delete) && !delete && {
                &&& host_of(text).len() == 0 ==> a is Say
                &&& host_of(text).len() > 0 && !is_blank(text) ==> a
                    == (EditActionModel::FindAddress { server_id: id, address: host_of(text) })
            }
            &&& !waits(r.1.server_edits, chat, now)
        }),
{
}

/// What was found out of an address is saved for its server, all of it, and nothing else is
/// changed.
pub proof fn found_address_is_saved(
    config: ConfigModel,
    id: Seq<char>,
    i: int,
    address: Seq<char>,
    metadata: AddressMetadata,
    success: Seq<char>,
)
    requires
        stands_first(config.servers, id, i),
    ensures
        saving(after_address(config, id, found(address, metadata)), success) matches
        EditActionModel::Save { next, success: told } && told == success && differ_at_most_in(
            next,
            config,
            i,
        ) && {
            let new = next.servers[i];
            let old = config.servers[i];
            &&& new.address == Some(address)
            &&& new.country == Some(metadata.geo.country@)
            &&& new.flag == Some(metadata.geo.flag@)
            &&& new.resolved_ip == (match metadata.resolved_ip {
                Some(ip) => Some(ip@),
                None => None,
            })
            &&& new.id == old.id
            &&& new.name == old.name
            &&& new.token == old.token
            &&& new.enabled == old.enabled
            &&& new.timer == old.timer
        },
{
    address_edit_changes_the_address_only(config, id, found(address, metadata), i);
}

/// A server that is looked up again is so with its own token, under its address, or that which
/// it had last where it has none.
pub proof fn known_server_is_looked_up_again(
    s: BotModel,
    chat: i64,
    id: Seq<char>,
    i: int,
    now: Instant,
    millis: u128,
)
    ensures
        on_action(s, chat, ActionModel::ServerRevalidate(id), now, millis).1 == s,
        stands_first(s.config.servers, id, i) ==> (on_action(
            s,
            chat,
            ActionModel::ServerRevalidate(id),
            now,
            millis,
        ).0 matches TaskModel::Revalidate { server_id, token, address } && {
            let server = s.config.servers[i];
            &&& server_id == id
            &&& token == server.token
            &&& server.address matches Some(a) ==> address == a
            &&& server.address is None ==> (server.resolved_ip matches Some(ip) ==> address == ip)
        }),
        (forall|j: int|
            0 <= j < s.config.servers.len() ==> (#[trigger] s.config.servers[j]).id != id)
            ==> on_action(s, chat, ActionModel::ServerRevalidate(id), now, millis).0 is Say,
{
    lemma_stands_first(s.config.servers, id);
    lemma_position_of(s.config.servers, id);
}

/// A server is deleted by the button that confirms it and by no other: the first one only
/// asks. What is to be saved lacks that server alone.
pub proof fn deleting_is_asked_for_first(
    s: BotModel,
    chat: i64,
    id: Seq<char>,
    i: int,
    now: Instant,
    millis: u128,
)
    requires
        stands_first(s.config.servers, id, i),
    ensures
        on_action(s, chat, ActionModel::ServerDelete(id), now, millis).0 is Say,
        on_action(s, chat, ActionModel::ServerDelete(id), now, millis).1 == s,
        on_action(s, chat, ActionModel::ServerDeleteCancel, now, millis).0 is Say,
        on_action(s, chat, ActionModel::ServerDeleteCancel, now, millis).1 == s,
        on_action(s, chat, ActionModel::ServerDeleteConfirm(id), now, millis).0 matches
        TaskModel::Save { next, .. } && {
            &&& next == (ConfigModel { servers: next.servers, ..s.config })
            &&& next.servers.len() == s.config.servers.len() - 1
            &&& forall|j: int| 0 <= j < i ==> #[trigger] next.servers[j] == s.config.servers[j]
            &&& forall|j: int|
                i <= j < next.servers.len() ==> #[trigger] next.servers[j] == s.config.servers[j
                    + 1]
        },
{
    delete_takes_one_server_out(s.config, id, i);
    lemma_stands_first(s.config.servers, id);
}

/// The buttons that move a server up or down exchange it with its neighbour on that side, and
/// do nothing at the end of the list.
pub proof fn moved_server_changes_places(
    s: BotModel,
    chat: i64,
    id: Seq<char>,
    i: int,
    now: Instant,
    millis: u128,
)
    requires
        stands_first(s.config.servers, id, i),
    ensures
        on_action(s, chat, ActionModel::ServerMoveUp(id), now, millis).0 matches TaskModel::Save {
            next,
            ..
        } && exchanged(next, s.config, i, if i > 0 {
            i - 1
        } else {
            i
        }),
        on_action(s, chat, ActionModel::ServerMoveDown(id), now, millis).0 matches TaskModel::Save {
            next,
            ..
        } && exchanged(next, s.config, i, if i < s.config.servers.len() - 1 {
            i + 1
        } else {
            i
        }),
{
    lemma_stands_first(s.config.servers, id);
    lemma_position_of(s.config.servers, id);
}

/// A button leads to a configuration that is to be saved only where it says so: those that
/// delete or move a server, and those that set or close a timer.
pub proof fn other_buttons_save_nothing(
    s: BotModel,
    chat: i64,
    action: ActionModel,
    now: Instant,
    millis: u128,
)
    ensures
        match on_action(s, chat, action, now, millis).0 {
            TaskModel::Save { .. } => action is ServerDeleteConfirm || action is ServerMoveUp
                || action is ServerMoveDown,
            TaskModel::SaveTimers(_) => action is TimerCreateAll || action is TimerCreateServer
                || action is TimerCloseAll || action is TimerCloseServer,
            TaskModel::Revalidate { .. } => action is ServerRevalidate,
            TaskModel::Edit(_, _) | TaskModel::AddServer(_, _) | TaskModel::Pair(_) => false,
            _ => true,
        },
{
}

// ---------------------------------------------------------------------------
// Adding a server
// ---------------------------------------------------------------------------

/// A server is added by three texts: after the order, its name, its address and its token are
/// taken in this order, each within fifteen minutes, and then that token is to be tried for a
/// server of that name at that host. The message with the token is to be deleted, the others
/// stay.
pub proof fn server_is_added_by_three_texts(
    s: BotModel,
    chat: i64,
    name: Seq<char>,
    address: Seq<char>,
    token: Seq<char>,
    t0: Instant,
    t1: Instant,
    t2: Instant,
    t3: Instant,
    millis: u128,
)
    requires
        !is_blank(name),
        !is_blank(address),
        host_of(address).len() > 0,
        !is_blank(token),
        within(t0, t1, 900),
        within(t1, t2, 900),
        within(t2, t3, 900),
        !waits(s.server_edits, chat, t1),
    ensures
        ({
            let s0 = on_action(s, chat, ActionModel::MenuAddServer, t0, millis).1;
            let r1 = on_text(s0, chat, name, t1);
            let r2 = on_text(r1.1, chat, address, t2);
            let r3 = on_text(r2.1, chat, token, t3);
            &&& r1.0 matches TaskModel::AddServer(a, delete) && a is Say && !delete
            &&& r2.0 matches TaskModel::AddServer(a, delete) && a is Say && !delete
            &&& r3.0 == TaskModel::AddServer(
                WizardActionModel::CheckToken {
                    name: trimmed(name),
                    address: host_of(address),
                    token: trimmed(token),
                },
                true,
            )
            &&& !waits(r3.1.server_wizards, chat, t3)
            &&& on_action(s, chat, ActionModel::RetryAddServer(name), t0, millis).1 == s0
            &&& on_command(s, chat, CommandModel::Addserver, t0, millis).1 == s0
        }),
{
    lemma_trimmed_blank(name);
    lemma_trimmed_blank(token);
    let _ = trimming_takes_the_ends_away(token);
    lemma_trimmed_blank(trimmed(token));
}

/// A blank name, an address that names no host, and a blank token are not taken: the same
/// question waits again.
pub proof fn bad_answer_is_asked_for_again(
    s: BotModel,
    chat: i64,
    text: Seq<char>,
    now: Instant,
    later: Instant,
)
    requires
        !waits(s.server_edits, chat, now),
        waits(s.server_wizards, chat, now),
        match s.server_wizards[chat].0 {
            StepModel::Address { .. } => is_blank(text) || host_of(text).len() == 0,
            _ => is_blank(text),
        },
        within(now, later, 900),
    ensures
        ({
            let r = on_text(s, chat, text, now);
            &&& r.0 matches TaskModel::AddServer(a, _) && a is Say
            &&& waits(r.1.server_wizards, chat, later)
            &&& r.1.server_wizards[chat].0 == s.server_wizards[chat].0
        }),
{
    lemma_trimmed_blank(text);
    let _ = trimming_takes_the_ends_away(text);
    lemma_trimmed_blank(trimmed(text));
}

/// A new server comes last: the others stay as they are, and so do all other settings. It is
/// enabled, has no timer, and has what was said and found out of it; where its host was not
/// resolved, the address that it answered with is taken.
pub proof fn added_server_comes_last(
    config: ConfigModel,
    id: Seq<char>,
    name: Seq<char>,
    address: Seq<char>,
    ip: Seq<char>,
    token: Seq<char>,
    metadata: AddressMetadata,
)
    ensures
        ({
            let next = with_servers(
                config,
                config.servers.push(new_server(id, name, address, ip, token, metadata)),
            );
            let new = next.servers[next.servers.len() - 1];
            &&& next == (ConfigModel { servers: next.servers, ..config })
            &&& next.servers.len() == config.servers.len() + 1
            &&& forall|j: int|
                0 <= j < config.servers.len() ==> #[trigger] next.servers[j] == config.servers[j]
            &&& new.id == id
            &&& new.name == name
            &&& new.token == token
            &&& new.enabled
            &&& new.timer is None
            &&& new.address == Some(address)
            &&& new.country == Some(metadata.geo.country@)
            &&& new.flag == Some(metadata.geo.flag@)
            &&& metadata.resolved_ip matches Some(found) ==> new.resolved_ip == Some(found@)
            &&& metadata.resolved_ip is None ==> new.resolved_ip == Some(ip)
        }),
{
}

// ---------------------------------------------------------------------------
// Changing an address
// ---------------------------------------------------------------------------

/// The address of a server is changed by two buttons: the first asks, and the second, with the
/// nonce that the question gave out and within two minutes, changes the address of that
/// server. It does so once, and not for another server, nor after two minutes, nor after the
/// change was cancelled.
pub proof fn confirmed_change_is_made_once(
    s: BotModel,
    chat: i64,
    id: Seq<char>,
    i: int,
    other: Seq<char>,
    asked: Instant,
    now: Instant,
    later: Instant,
    millis: u128,
)
    requires
        stands_first(s.config.servers, id, i),
        s.config.servers[i].enabled,
        asked.nanos <= now.nanos <= later.nanos,
    ensures
        ({
            let ask = on_action(s, chat, ActionModel::SelectChange(id), asked, millis);
            let nonce = nonce_of(s.next_confirmation, millis);
            let yes = ActionModel::ConfirmChange { server_id: id, nonce };
            let no = ActionModel::CancelChange { server_id: id, nonce };
            let r = on_action(ask.1, chat, yes, now, millis);
            &&& ask.0 is Say
            &&& within(asked, now, 120) ==> r.0 == TaskModel::ChangeIp(s.config.servers[i])
            &&& !within(asked, now, 120) ==> r.0 is Say
            &&& on_action(r.1, chat, yes, later, millis).0 is Say
            &&& other != id ==> on_action(
                ask.1,
                chat,
                ActionModel::ConfirmChange { server_id: other, nonce },
                now,
                millis,
            ).0 is Say
            &&& on_action(ask.1, chat, no, now, millis).0 is Say
            &&& on_action(on_action(ask.1, chat, no, now, millis).1, chat, yes, later, millis).0
                is Say
        }),
{
    name_means_its_server(s.config.servers, id, i);
}

/// The question gives out buttons that confirm and cancel it, and no other question before the
/// counter runs out has the same nonce while the clock's readings have equally many digits.
pub proof fn question_gives_out_its_buttons(
    s: BotModel,
    chat: i64,
    id: Seq<char>,
    i: int,
    asked: Instant,
    millis: u128,
)
    requires
        stands_first(s.config.servers, id, i),
        s.config.servers[i].enabled,
        !has_char(id, ':'),
    ensures
        ({
            let ask = on_action(s, chat, ActionModel::SelectChange(id), asked, millis);
            let nonce = nonce_of(s.next_confirmation, millis);
            &&& ask.0 matches TaskModel::Say(reply) && (reply.keyboard matches Some(rows) && {
                &&& rows.len() == 1
                &&& rows[0].len() == 2
                &&& callback_action(rows[0][0].data) == (ActionModel::ConfirmChange {
                    server_id: id,
                    nonce,
                })
                &&& callback_action(rows[0][1].data) == (ActionModel::CancelChange {
                    server_id: id,
                    nonce,
                })
            })
            &&& s.next_confirmation < u64::MAX ==> ask.1.next_confirmation == s.next_confirmation
                + 1
        }),
{
    name_means_its_server(s.config.servers, id, i);
    change_buttons_are_understood(id, nonce_of(s.next_confirmation, millis));
}

/// No address is changed for a server that is unknown or disabled, though it was asked for
/// while it was there: the servers of the moment count.
pub proof fn change_needs_the_server(
    s: BotModel,
    chat: i64,
    id: Seq<char>,
    nonce: Seq<char>,
    now: Instant,
    millis: u128,
)
    requires
        forall|i: int| stands_first(s.config.servers, id, i) ==> !s.config.servers[i].enabled,
    ensures
        on_action(
            s,
            chat,
            ActionModel::ConfirmChange { server_id: id, nonce },
            now,
            millis,
        ).0 is Say,
        on_action(s, chat, ActionModel::SelectChange(id), now, millis).0 is Say,
        on_action(s, chat, ActionModel::SelectChange(id), now, millis).1 == s,
{
    lemma_stands_first(s.config.servers, id);
    name_means_its_server(s.config.servers, id, position_of(s.config.servers, id));
}

/// The orders that name a server are about the first one with that id, where it is enabled;
/// those that name none are about the only enabled one.
pub proof fn orders_are_about_their_server(
    s: BotModel,
    chat: i64,
    arg: Seq<char>,
    i: int,
    now: Instant,
    millis: u128,
)
    requires
        0 <= i < s.config.servers.len(),
        s.config.servers[i].enabled,
        if is_blank(arg) {
            forall|k: int|
                0 <= k < s.config.servers.len() && (#[trigger] s.config.servers[k]).enabled ==> k
                    == i
        } else {
            stands_first(s.config.servers, trimmed(arg), i)
        },
    ensures
        on_command(s, chat, CommandModel::Status(arg), now, millis) == (
            TaskModel::ShowStatus(s.config.servers[i]),
            s,
        ),
        on_command(s, chat, CommandModel::Check(arg), now, millis) == (
            TaskModel::CheckServer(s.config.servers[i]),
            s,
        ),
        stands_first(s.config.servers, s.config.servers[i].id, i) ==> on_command(
            s,
            chat,
            CommandModel::Change(arg),
            now,
            millis,
        ) == on_action(
            s,
            chat,
            ActionModel::SelectChange(s.config.servers[i].id),
            now,
            millis,
        ),
        !is_blank(arg) ==> on_action(s, chat, ActionModel::SelectStatus(arg), now, millis) == (
            TaskModel::ShowStatus(s.config.servers[i]),
            s,
        ),
        !is_blank(arg) ==> on_action(s, chat, ActionModel::SelectCheck(arg), now, millis) == (
            TaskModel::CheckServer(s.config.servers[i]),
            s,
        ),
        is_blank(arg) ==> on_action(s, chat, ActionModel::MenuStatus, now, millis) == (
            TaskModel::ShowStatus(s.config.servers[i]),
            s,
        ),
{
    let servers = s.config.servers;
    let _ = trimming_takes_the_ends_away(arg);
    lemma_trimmed_blank(arg);
    lemma_trimmed_blank(trimmed(arg));
    assert(is_blank(""@)) by {
        reveal_strlit("");
    }
    if is_blank(arg) {
        one_enabled_server_needs_no_name(servers, i, i);
    } else {
        name_means_its_server(servers, trimmed(arg), i);
    }
}

// ---------------------------------------------------------------------------
// Who may give orders
// ---------------------------------------------------------------------------

/// A chat may give orders exactly where it is the one that the configuration is bound to; no
/// two chats may.
pub proof fn one_chat_gives_orders(config: ConfigModel, a: i64, b: i64)
    ensures
        chat_authorized(config, a) <==> config.tg_chat_id == Some(decimal_int(a as int)),
        config.tg_chat_id is None ==> !chat_authorized(config, a),
        chat_authorized(config, a) && chat_authorized(config, b) ==> a == b,
{
    decimal_int_reads_back(a as int);
    decimal_int_reads_back(b as int);
}

/// The code that is sent binds a chat exactly where none is bound yet, it is the code that was
/// set, in whatever case and with whatever white space around it, and that has not run out.
/// That chat may give orders then, and no other; the code is forgotten and all else is as it
/// was.
pub proof fn right_code_binds_the_chat(
    s: BotModel,
    chat: i64,
    other: i64,
    code: Seq<char>,
    now: Instant,
    millis: u128,
    unix_now: u64,
)
    ensures
        ({
            let r = command_outcome(s, chat, CommandModel::Pair(code), now, millis, unix_now);
            &&& r.1 == s
            &&& (r.0 matches TaskModel::Pair(DecisionModel::Paired(_))) <==> {
                &&& s.config.tg_chat_id is None
                &&& s.config.tg_pair_code matches Some(c) && c == upper_ascii(trimmed(code))
                &&& s.config.tg_pair_expires_at matches Some(t) && unix_now < t
            }
            &&& r.0 matches TaskModel::Pair(DecisionModel::Paired(next)) ==> {
                &&& chat_authorized(next, chat)
                &&& other != chat ==> !chat_authorized(next, other)
                &&& next.tg_pair_code is None
                &&& next.tg_pair_expires_at is None
                &&& next.servers == s.config.servers
                &&& next.global_timer == s.config.global_timer
                &&& next.tg_token == s.config.tg_token
                &&& next.change_ip_cooldown == s.config.change_ip_cooldown
                &&& next.migration_notice == s.config.migration_notice
            }
            &&& s.config.tg_chat_id is Some ==> r.0 == TaskModel::Pair(DecisionModel::AlreadyBound)
        }),
{
    let _ = trimming_takes_the_ends_away(code);
    decimal_int_reads_back(chat as int);
    decimal_int_reads_back(other as int);
}

/// A code that has run out is forgotten when one is sent, and one that is wrong stays.
pub proof fn wrong_code_binds_nobody(
    s: BotModel,
    chat: i64,
    code: Seq<char>,
    now: Instant,
    millis: u128,
    unix_now: u64,
)
    requires
        s.config.tg_chat_id is None,
    ensures
        ({
            let r = command_outcome(s, chat, CommandModel::Pair(code), now, millis, unix_now).0;
            let c = s.config;
            &&& c.tg_pair_code is Some && (c.tg_pair_expires_at matches Some(t) && t <= unix_now)
                ==> r == TaskModel::Pair(
                DecisionModel::InvalidOrExpired(
                    Some(ConfigModel { tg_pair_code: None, tg_pair_expires_at: None, ..c }),
                ),
            )
            &&& c.tg_pair_code is None ==> r == TaskModel::Pair(
                DecisionModel::InvalidOrExpired(None),
            )
            &&& c.tg_pair_expires_at is None ==> r == TaskModel::Pair(
                DecisionModel::InvalidOrExpired(None),
            )
            &&& c.tg_pair_code != Some(upper_ascii(trimmed(code))) && (
            c.tg_pair_expires_at matches Some(t) && unix_now < t) ==> r == TaskModel::Pair(
                DecisionModel::InvalidOrExpired(None),
            )
        }),
{
    let _ = trimming_takes_the_ends_away(code);
}

/// A command that takes time keeps its chat busy; the others do not, and none frees a chat.
pub proof fn long_commands_keep_the_chat_busy(
    s: BotModel,
    chat: i64,
    command: CommandModel,
    now: Instant,
    millis: u128,
    unix_now: u64,
)
    requires
        chat_authorized(s.config, chat),
    ensures
        ({
            let r = command_outcome(s, chat, command, now, millis, unix_now);
            let long = command is Status || command is Check || command is Change
                || command is Timer || command is Servers;
            &&& long ==> r.1.busy == s.busy.insert(chat)
            &&& !long ==> r.1.busy == s.busy
            &&& !(long && s.busy.contains(chat)) && !(command is Pair) ==> r.0 == on_command(
                s,
                chat,
                command,
                now,
                millis,
            ).0
        }),
{
    assert(s.busy.contains(chat) ==> s.busy.insert(chat) =~= s.busy);
}

} // verus!
