//! Buttons that were pressed.

use vstd::prelude::*;
use crate::text::{
    after_first, before_first, has_char, lemma_first_index, lemma_first_index_is, same_text,
    split_once,
};

verus! {

/// What a button asks for.
#[derive(Clone, Debug, PartialEq, Eq)]
pub enum CallbackAction {
    MenuAddServer,
    MenuServers,
    MenuStatus,
    MenuChange,
    MenuTimer,
    MenuHelp,
    ConfirmAddServer(String),
    RetryAddServer(String),
    CancelAddServer(String),
    SelectStatus(String),
    SelectCheck(String),
    SelectChange(String),
    ConfirmChange { server_id: String, nonce: String },
    CancelChange { server_id: String, nonce: String },
    TimerNew,
    TimerEdit,
    TimerClose,
    TimerRefresh,
    TimerCreateAll { hhmm: String },
    TimerCreateServer { server_id: String, hhmm: String },
    TimerEditTargetAll,
    TimerEditTargetServer(String),
    TimerCloseAll,
    TimerCloseServer(String),
    ServerEdit(String),
    ServerEditName(String),
    ServerEditAddress(String),
    ServerEditToken(String),
    ServerRevalidate(String),
    ServerDelete(String),
    ServerDeleteConfirm(String),
    ServerDeleteCancel,
    ServerMoveUp(String),
    ServerMoveDown(String),
    LegacyChange,
    Unknown,
}

pub enum ActionModel {
    MenuAddServer,
    MenuServers,
    MenuStatus,
    MenuChange,
    MenuTimer,
    MenuHelp,
    ConfirmAddServer(Seq<char>),
    RetryAddServer(Seq<char>),
    CancelAddServer(Seq<char>),
    SelectStatus(Seq<char>),
    SelectCheck(Seq<char>),
    SelectChange(Seq<char>),
    ConfirmChange { server_id: Seq<char>, nonce: Seq<char> },
    CancelChange { server_id: Seq<char>, nonce: Seq<char> },
    TimerNew,
    TimerEdit,
    TimerClose,
    TimerRefresh,
    TimerCreateAll { hhmm: Seq<char> },
    TimerCreateServer { server_id: Seq<char>, hhmm: Seq<char> },
    TimerEditTargetAll,
    TimerEditTargetServer(Seq<char>),
    TimerCloseAll,
    TimerCloseServer(Seq<char>),
    ServerEdit(Seq<char>),
    ServerEditName(Seq<char>),
    ServerEditAddress(Seq<char>),
    ServerEditToken(Seq<char>),
    ServerRevalidate(Seq<char>),
    ServerDelete(Seq<char>),
    ServerDeleteConfirm(Seq<char>),
    ServerDeleteCancel,
    ServerMoveUp(Seq<char>),
    ServerMoveDown(Seq<char>),
    LegacyChange,
    Unknown,
}

impl View for CallbackAction {
    type V = ActionModel;

    open spec fn view(&self) -> ActionModel {
        match self {
            CallbackAction::MenuAddServer => ActionModel::MenuAddServer,
            CallbackAction::MenuServers => ActionModel::MenuServers,
            CallbackAction::MenuStatus => ActionModel::MenuStatus,
            CallbackAction::MenuChange => ActionModel::MenuChange,
            CallbackAction::MenuTimer => ActionModel::MenuTimer,
            CallbackAction::MenuHelp => ActionModel::MenuHelp,
            CallbackAction::ConfirmAddServer(s) => ActionModel::ConfirmAddServer(s@),
            CallbackAction::RetryAddServer(s) => ActionModel::RetryAddServer(s@),
            CallbackAction::CancelAddServer(s) => ActionModel::CancelAddServer(s@),
            CallbackAction::SelectStatus(s) => ActionModel::SelectStatus(s@),
            CallbackAction::SelectCheck(s) => ActionModel::SelectCheck(s@),
            CallbackAction::SelectChange(s) => ActionModel::SelectChange(s@),
            CallbackAction::ConfirmChange { server_id, nonce } => ActionModel::ConfirmChange { server_id: server_id@, nonce: nonce@ },
            CallbackAction::CancelChange { server_id, nonce } => ActionModel::CancelChange { server_id: server_id@, nonce: nonce@ },
            CallbackAction::TimerNew => ActionModel::TimerNew,
            CallbackAction::TimerEdit => ActionModel::TimerEdit,
            CallbackAction::TimerClose => ActionModel::TimerClose,
            CallbackAction::TimerRefresh => ActionModel::TimerRefresh,
            CallbackAction::TimerCreateAll { hhmm } => ActionModel::TimerCreateAll { hhmm: hhmm@ },
            CallbackAction::TimerCreateServer { server_id, hhmm } => ActionModel::TimerCreateServer { server_id: server_id@, hhmm: hhmm@ },
            CallbackAction::TimerEditTargetAll => ActionModel::TimerEditTargetAll,
            CallbackAction::TimerEditTargetServer(s) => ActionModel::TimerEditTargetServer(s@),
            CallbackAction::TimerCloseAll => ActionModel::TimerCloseAll,
            CallbackAction::TimerCloseServer(s) => ActionModel::TimerCloseServer(s@),
            CallbackAction::ServerEdit(s) => ActionModel::ServerEdit(s@),
            CallbackAction::ServerEditName(s) => ActionModel::ServerEditName(s@),
            CallbackAction::ServerEditAddress(s) => ActionModel::ServerEditAddress(s@),
            CallbackAction::ServerEditToken(s) => ActionModel::ServerEditToken(s@),
            CallbackAction::ServerRevalidate(s) => ActionModel::ServerRevalidate(s@),
            CallbackAction::ServerDelete(s) => ActionModel::ServerDelete(s@),
            CallbackAction::ServerDeleteConfirm(s) => ActionModel::ServerDeleteConfirm(s@),
            CallbackAction::ServerDeleteCancel => ActionModel::ServerDeleteCancel,
            CallbackAction::ServerMoveUp(s) => ActionModel::ServerMoveUp(s@),
            CallbackAction::ServerMoveDown(s) => ActionModel::ServerMoveDown(s@),
            CallbackAction::LegacyChange => ActionModel::LegacyChange,
            CallbackAction::Unknown => ActionModel::Unknown,
        }
    }
}

/// What a button without an argument asks for.
pub open spec fn word_action(data: Seq<char>) -> ActionModel {
    if data == "timer_new"@ {
        ActionModel::TimerNew
    } else if data == "timer_edit"@ {
        ActionModel::TimerEdit
    } else if data == "timer_close"@ {
        ActionModel::TimerClose
    } else if data == "timer_refresh"@ {
        ActionModel::TimerRefresh
    } else if data == "server_delete_cancel"@ {
        ActionModel::ServerDeleteCancel
    } else {
        ActionModel::Unknown
    }
}

/// What a button of the menu asks for.
pub open spec fn menu_action(arg: Seq<char>) -> ActionModel {
    if arg == "addserver"@ {
        ActionModel::MenuAddServer
    } else if arg == "servers"@ {
        ActionModel::MenuServers
    } else if arg == "status"@ {
        ActionModel::MenuStatus
    } else if arg == "change"@ {
        ActionModel::MenuChange
    } else if arg == "timer"@ {
        ActionModel::MenuTimer
    } else if arg == "help"@ {
        ActionModel::MenuHelp
    } else {
        ActionModel::Unknown
    }
}

/// What a button with an argument asks for.
pub open spec fn verb_action(verb: Seq<char>, arg: Seq<char>) -> ActionModel {
    if verb == "change"@ {
        ActionModel::LegacyChange
    } else if verb == "menu"@ {
        menu_action(arg)
    } else if verb == "confirm_change"@ {
        if has_char(arg, ':') {
            ActionModel::ConfirmChange {
                server_id: before_first(arg, ':'),
                nonce: after_first(arg, ':'),
            }
        } else {
            ActionModel::Unknown
        }
    } else if verb == "cancel_change"@ {
        if has_char(arg, ':') {
            ActionModel::CancelChange {
                server_id: before_first(arg, ':'),
                nonce: after_first(arg, ':'),
            }
        } else {
            ActionModel::Unknown
        }
    } else if verb == "timer_create"@ {
        timer_create_action(arg)
    } else if verb == "timer_edit_target"@ {
        if arg == "all"@ {
            ActionModel::TimerEditTargetAll
        } else if has_char(arg, ':') && before_first(arg, ':') == "server"@ {
            ActionModel::TimerEditTargetServer(after_first(arg, ':'))
        } else {
            ActionModel::Unknown
        }
    } else if verb == "timer_close"@ {
        if arg == "all"@ {
            ActionModel::TimerCloseAll
        } else if has_char(arg, ':') && before_first(arg, ':') == "server"@ {
            ActionModel::TimerCloseServer(after_first(arg, ':'))
        } else {
            ActionModel::Unknown
        }
    } else if verb == "addserver_confirm"@ {
        ActionModel::ConfirmAddServer(arg)
    } else if verb == "addserver_retry"@ {
        ActionModel::RetryAddServer(arg)
    } else if verb == "addserver_cancel"@ {
        ActionModel::CancelAddServer(arg)
    } else if verb == "select_status"@ {
        ActionModel::SelectStatus(arg)
    } else if verb == "select_check"@ {
        ActionModel::SelectCheck(arg)
    } else if verb == "select_change"@ {
        ActionModel::SelectChange(arg)
    } else if verb == "server_edit"@ {
        ActionModel::ServerEdit(arg)
    } else if verb == "server_edit_name"@ {
        ActionModel::ServerEditName(arg)
    } else if verb == "server_edit_address"@ {
        ActionModel::ServerEditAddress(arg)
    } else if verb == "server_edit_token"@ {
        ActionModel::ServerEditToken(arg)
    } else if verb == "server_revalidate"@ {
        ActionModel::ServerRevalidate(arg)
    } else if verb == "server_delete"@ {
        ActionModel::ServerDelete(arg)
    } else if verb == "server_delete_confirm"@ {
        ActionModel::ServerDeleteConfirm(arg)
    } else if verb == "server_move_up"@ {
        ActionModel::ServerMoveUp(arg)
    } else if verb == "server_move_down"@ {
        ActionModel::ServerMoveDown(arg)
    } else {
        ActionModel::Unknown
    }
}

pub open spec fn timer_create_action(arg: Seq<char>) -> ActionModel {
    if !has_char(arg, ':') {
        ActionModel::Unknown
    } else {
        let more = after_first(arg, ':');
        if before_first(arg, ':') == "all"@ {
            ActionModel::TimerCreateAll { hhmm: more }
        } else if before_first(arg, ':') == "server"@ && has_char(more, ':') {
            ActionModel::TimerCreateServer {
                server_id: before_first(more, ':'),
                hhmm: after_first(more, ':'),
            }
        } else {
            ActionModel::Unknown
        }
    }
}

/// What the data of a button asks for.
pub open spec fn callback_action(data: Seq<char>) -> ActionModel {
    if has_char(data, ':') {
        verb_action(before_first(data, ':'), after_first(data, ':'))
    } else {
        word_action(data)
    }
}

fn parse_word(data: &str) -> (r: CallbackAction)
    ensures
        r@ == word_action(data@),
{
    if same_text(data, "timer_new") {
        CallbackAction::TimerNew
    } else if same_text(data, "timer_edit") {
        CallbackAction::TimerEdit
    } else if same_text(data, "timer_close") {
        CallbackAction::TimerClose
    } else if same_text(data, "timer_refresh") {
        CallbackAction::TimerRefresh
    } else if same_text(data, "server_delete_cancel") {
        CallbackAction::ServerDeleteCancel
    } else {
        CallbackAction::Unknown
    }
}

fn parse_menu(arg: &str) -> (r: CallbackAction)
    ensures
        r@ == menu_action(arg@),
{
    if same_text(arg, "addserver") {
        CallbackAction::MenuAddServer
    } else if same_text(arg, "servers") {
        CallbackAction::MenuServers
    } else if same_text(arg, "status") {
        CallbackAction::MenuStatus
    } else if same_text(arg, "change") {
        CallbackAction::MenuChange
    } else if same_text(arg, "timer") {
        CallbackAction::MenuTimer
    } else if same_text(arg, "help") {
        CallbackAction::MenuHelp
    } else {
        CallbackAction::Unknown
    }
}

fn parse_timer_create(arg: &str) -> (r: CallbackAction)
    ensures
        r@ == timer_create_action(arg@),
{
    match split_once(arg, ':') {
        None => CallbackAction::Unknown,
        Some((target, more)) => {
            if same_text(target.as_str(), "all") {
                CallbackAction::TimerCreateAll { hhmm: more }
            } else if same_text(target.as_str(), "server") {
                match split_once(more.as_str(), ':') {
                    Some((server_id, hhmm)) => CallbackAction::TimerCreateServer {
                        server_id,
                        hhmm,
                    },
                    None => CallbackAction::Unknown,
                }
            } else {
                CallbackAction::Unknown
            }
        },
    }
}

/// The server that an argument names, where it names one.
fn server_arg(arg: &str) -> (r: Option<String>)
    ensures
        match r {
            Some(id) => has_char(arg@, ':') && before_first(arg@, ':') == "server"@ && id@
                == after_first(arg@, ':'),
            None => !(has_char(arg@, ':') && before_first(arg@, ':') == "server"@),
        },
{
    match split_once(arg, ':') {
        Some((target, id)) => if same_text(target.as_str(), "server") {
            Some(id)
        } else {
            None
        },
        None => None,
    }
}

fn parse_verb(verb: &str, arg: String) -> (r: CallbackAction)
    ensures
        r@ == verb_action(verb@, arg@),
{
    if same_text(verb, "change") {
        CallbackAction::LegacyChange
    } else if same_text(verb, "menu") {
        parse_menu(arg.as_str())
    } else if same_text(verb, "confirm_change") {
        match split_once(arg.as_str(), ':') {
            Some((server_id, nonce)) => CallbackAction::ConfirmChange { server_id, nonce },
            None => CallbackAction::Unknown,
        }
    } else if same_text(verb, "cancel_change") {
        match split_once(arg.as_str(), ':') {
            Some((server_id, nonce)) => CallbackAction::CancelChange { server_id, nonce },
            None => CallbackAction::Unknown,
        }
    } else if same_text(verb, "timer_create") {
        parse_timer_create(arg.as_str())
    } else if same_text(verb, "timer_edit_target") {
        if same_text(arg.as_str(), "all") {
            CallbackAction::TimerEditTargetAll
        } else {
            match server_arg(arg.as_str()) {
                Some(id) => CallbackAction::TimerEditTargetServer(id),
                None => CallbackAction::Unknown,
            }
        }
    } else if same_text(verb, "timer_close") {
        if same_text(arg.as_str(), "all") {
            CallbackAction::TimerCloseAll
        } else {
            match server_arg(arg.as_str()) {
                Some(id) => CallbackAction::TimerCloseServer(id),
                None => CallbackAction::Unknown,
            }
        }
    } else if same_text(verb, "addserver_confirm") {
        CallbackAction::ConfirmAddServer(arg)
    } else if same_text(verb, "addserver_retry") {
        CallbackAction::RetryAddServer(arg)
    } else if same_text(verb, "addserver_cancel") {
        CallbackAction::CancelAddServer(arg)
    } else if same_text(verb, "select_status") {
        CallbackAction::SelectStatus(arg)
    } else if same_text(verb, "select_check") {
        CallbackAction::SelectCheck(arg)
    } else if same_text(verb, "select_change") {
        CallbackAction::SelectChange(arg)
    } else if same_text(verb, "server_edit") {
        CallbackAction::ServerEdit(arg)
    } else if same_text(verb, "server_edit_name") {
        CallbackAction::ServerEditName(arg)
    } else if same_text(verb, "server_edit_address") {
        CallbackAction::ServerEditAddress(arg)
    } else if same_text(verb, "server_edit_token") {
        CallbackAction::ServerEditToken(arg)
    } else if same_text(verb, "server_revalidate") {
        CallbackAction::ServerRevalidate(arg)
    } else if same_text(verb, "server_delete") {
        CallbackAction::ServerDelete(arg)
    } else if same_text(verb, "server_delete_confirm") {
        CallbackAction::ServerDeleteConfirm(arg)
    } else if same_text(verb, "server_move_up") {
        CallbackAction::ServerMoveUp(arg)
    } else if same_text(verb, "server_move_down") {
        CallbackAction::ServerMoveDown(arg)
    } else {
        CallbackAction::Unknown
    }
}

pub fn parse_callback(data: &str) -> (r: CallbackAction)
    ensures
        r@ == callback_action(data@),
{
    match split_once(data, ':') {
        Some((verb, arg)) => parse_verb(verb.as_str(), arg),
        None => parse_word(data),
    }
}

// ---------------------------------------------------------------------------
// What the buttons send
// ---------------------------------------------------------------------------

/// `a`, a colon, and `b`.
pub open spec fn with_arg(a: Seq<char>, b: Seq<char>) -> Seq<char> {
    a.push(':') + b
}

proof fn lemma_with_arg(a: Seq<char>, b: Seq<char>)
    requires
        !has_char(a, ':'),
    ensures
        has_char(with_arg(a, b), ':'),
        before_first(with_arg(a, b), ':') == a,
        after_first(with_arg(a, b), ':') == b,
{
    let s = with_arg(a, b);
    lemma_first_index(a, ':');
    assert forall|i: int| 0 <= i < a.len() implies s[i] != ':' by {
        assert(s[i] == a[i]);
    }
    assert(s[a.len() as int] == ':');
    lemma_first_index_is(s, ':', a.len() as int);
    assert(before_first(s, ':') =~= a);
    assert(after_first(s, ':') =~= b);
}

/// A name without a colon.
proof fn lemma_no_colon(a: Seq<char>)
    requires
        forall|i: int| 0 <= i < a.len() ==> a[i] != ':',
    ensures
        !has_char(a, ':'),
{
    lemma_first_index_is(a, ':', a.len() as int);
}

/// The names of the orders hold no colon and differ.
proof fn lemma_verbs()
    ensures
        !has_char("change"@, ':') && "change"@.len() == 6 && "change"@[0] == 'c',
        !has_char("menu"@, ':') && "menu"@.len() == 4 && "menu"@[0] == 'm',
        !has_char("confirm_change"@, ':') && "confirm_change"@.len() == 14 && "confirm_change"@[0] == 'c' && "confirm_change"@[7] == '_',
        !has_char("cancel_change"@, ':') && "cancel_change"@.len() == 13 && "cancel_change"@[0] == 'c' && "cancel_change"@[7] == 'c',
        !has_char("timer_create"@, ':') && "timer_create"@.len() == 12 && "timer_create"@[0] == 't' && "timer_create"@[7] == 'r',
        !has_char("timer_edit_target"@, ':') && "timer_edit_target"@.len() == 17 && "timer_edit_target"@[0] == 't' && "timer_edit_target"@[7] == 'd',
        !has_char("timer_close"@, ':') && "timer_close"@.len() == 11 && "timer_close"@[0] == 't' && "timer_close"@[7] == 'l',
        !has_char("addserver_confirm"@, ':') && "addserver_confirm"@.len() == 17 && "addserver_confirm"@[0] == 'a' && "addserver_confirm"@[7] == 'e',
        !has_char("addserver_retry"@, ':') && "addserver_retry"@.len() == 15 && "addserver_retry"@[0] == 'a' && "addserver_retry"@[7] == 'e',
        !has_char("addserver_cancel"@, ':') && "addserver_cancel"@.len() == 16 && "addserver_cancel"@[0] == 'a' && "addserver_cancel"@[7] == 'e',
        !has_char("select_status"@, ':') && "select_status"@.len() == 13 && "select_status"@[0] == 's' && "select_status"@[7] == 's',
        !has_char("select_check"@, ':') && "select_check"@.len() == 12 && "select_check"@[0] == 's' && "select_check"@[7] == 'c',
        !has_char("select_change"@, ':') && "select_change"@.len() == 13 && "select_change"@[0] == 's' && "select_change"@[7] == 'c',
        !has_char("server_edit"@, ':') && "server_edit"@.len() == 11 && "server_edit"@[0] == 's' && "server_edit"@[7] == 'e',
        !has_char("server_edit_name"@, ':') && "server_edit_name"@.len() == 16 && "server_edit_name"@[0] == 's' && "server_edit_name"@[7] == 'e',
        !has_char("server_edit_address"@, ':') && "server_edit_address"@.len() == 19 && "server_edit_address"@[0] == 's' && "server_edit_address"@[7] == 'e',
        !has_char("server_edit_token"@, ':') && "server_edit_token"@.len() == 17 && "server_edit_token"@[0] == 's' && "server_edit_token"@[7] == 'e',
        !has_char("server_revalidate"@, ':') && "server_revalidate"@.len() == 17 && "server_revalidate"@[0] == 's' && "server_revalidate"@[7] == 'r',
        !has_char("server_delete"@, ':') && "server_delete"@.len() == 13 && "server_delete"@[0] == 's' && "server_delete"@[7] == 'd',
        !has_char("server_delete_confirm"@, ':') && "server_delete_confirm"@.len() == 21 && "server_delete_confirm"@[0] == 's' && "server_delete_confirm"@[7] == 'd',
        !has_char("server_move_up"@, ':') && "server_move_up"@.len() == 14 && "server_move_up"@[0] == 's' && "server_move_up"@[7] == 'm',
        !has_char("server_move_down"@, ':') && "server_move_down"@.len() == 16 && "server_move_down"@[0] == 's' && "server_move_down"@[7] == 'm',
{
    reveal_strlit("change");
    lemma_no_colon("change"@);
    reveal_strlit("menu");
    lemma_no_colon("menu"@);
    reveal_strlit("confirm_change");
    lemma_no_colon("confirm_change"@);
    reveal_strlit("cancel_change");
    lemma_no_colon("cancel_change"@);
    reveal_strlit("timer_create");
    lemma_no_colon("timer_create"@);
    reveal_strlit("timer_edit_target");
    lemma_no_colon("timer_edit_target"@);
    reveal_strlit("timer_close");
    lemma_no_colon("timer_close"@);
    reveal_strlit("addserver_confirm");
    lemma_no_colon("addserver_confirm"@);
    reveal_strlit("addserver_retry");
    lemma_no_colon("addserver_retry"@);
    reveal_strlit("addserver_cancel");
    lemma_no_colon("addserver_cancel"@);
    reveal_strlit("select_status");
    lemma_no_colon("select_status"@);
    reveal_strlit("select_check");
    lemma_no_colon("select_check"@);
    reveal_strlit("select_change");
    lemma_no_colon("select_change"@);
    reveal_strlit("server_edit");
    lemma_no_colon("server_edit"@);
    reveal_strlit("server_edit_name");
    lemma_no_colon("server_edit_name"@);
    reveal_strlit("server_edit_address");
    lemma_no_colon("server_edit_address"@);
    reveal_strlit("server_edit_token");
    lemma_no_colon("server_edit_token"@);
    reveal_strlit("server_revalidate");
    lemma_no_colon("server_revalidate"@);
    reveal_strlit("server_delete");
    lemma_no_colon("server_delete"@);
    reveal_strlit("server_delete_confirm");
    lemma_no_colon("server_delete_confirm"@);
    reveal_strlit("server_move_up");
    lemma_no_colon("server_move_up"@);
    reveal_strlit("server_move_down");
    lemma_no_colon("server_move_down"@);
}

/// The data of a button: an order and its argument.
pub fn order(verb: &str, arg: &str) -> (r: String)
    ensures
        r@ == with_arg(verb@, arg@),
{
    let mut r = verb.to_owned();
    r.push(':');
    r.append(arg);
    r
}

/// An order and its argument are read back as they were written.
proof fn lemma_order(verb: Seq<char>, arg: Seq<char>)
    requires
        !has_char(verb, ':'),
    ensures
        callback_action(with_arg(verb, arg)) == verb_action(verb, arg),
{
    lemma_with_arg(verb, arg);
}

/// Buttons about one server ask for what they say, for every id.
pub proof fn server_buttons_are_understood(id: Seq<char>)
    ensures
        callback_action(with_arg("addserver_confirm"@, id)) == ActionModel::ConfirmAddServer(id),
        callback_action(with_arg("addserver_retry"@, id)) == ActionModel::RetryAddServer(id),
        callback_action(with_arg("addserver_cancel"@, id)) == ActionModel::CancelAddServer(id),
        callback_action(with_arg("select_status"@, id)) == ActionModel::SelectStatus(id),
        callback_action(with_arg("select_check"@, id)) == ActionModel::SelectCheck(id),
        callback_action(with_arg("select_change"@, id)) == ActionModel::SelectChange(id),
        callback_action(with_arg("server_edit"@, id)) == ActionModel::ServerEdit(id),
        callback_action(with_arg("server_edit_name"@, id)) == ActionModel::ServerEditName(id),
        callback_action(with_arg("server_edit_address"@, id)) == ActionModel::ServerEditAddress(id),
        callback_action(with_arg("server_edit_token"@, id)) == ActionModel::ServerEditToken(id),
        callback_action(with_arg("server_revalidate"@, id)) == ActionModel::ServerRevalidate(id),
        callback_action(with_arg("server_delete"@, id)) == ActionModel::ServerDelete(id),
        callback_action(with_arg("server_delete_confirm"@, id)) == ActionModel::ServerDeleteConfirm(id),
        callback_action(with_arg("server_move_up"@, id)) == ActionModel::ServerMoveUp(id),
        callback_action(with_arg("server_move_down"@, id)) == ActionModel::ServerMoveDown(id),
{
    lemma_verbs();
    lemma_order("addserver_confirm"@, id);
    lemma_order("addserver_retry"@, id);
    lemma_order("addserver_cancel"@, id);
    lemma_order("select_status"@, id);
    lemma_order("select_check"@, id);
    lemma_order("select_change"@, id);
    lemma_order("server_edit"@, id);
    lemma_order("server_edit_name"@, id);
    lemma_order("server_edit_address"@, id);
    lemma_order("server_edit_token"@, id);
    lemma_order("server_revalidate"@, id);
    lemma_order("server_delete"@, id);
    lemma_order("server_delete_confirm"@, id);
    lemma_order("server_move_up"@, id);
    lemma_order("server_move_down"@, id);
}

/// Buttons that confirm or cancel a change name the server and the confirmation.
pub proof fn change_buttons_are_understood(id: Seq<char>, nonce: Seq<char>)
    requires
        !has_char(id, ':'),
    ensures
        callback_action(with_arg("confirm_change"@, with_arg(id, nonce)))
            == (ActionModel::ConfirmChange { server_id: id, nonce }),
        callback_action(with_arg("cancel_change"@, with_arg(id, nonce)))
            == (ActionModel::CancelChange { server_id: id, nonce }),
{
    lemma_verbs();
    lemma_with_arg(id, nonce);
    lemma_order("confirm_change"@, with_arg(id, nonce));
    lemma_order("cancel_change"@, with_arg(id, nonce));
}

/// Buttons that set a timer name its target and its time.
pub proof fn timer_buttons_are_understood(id: Seq<char>, hhmm: Seq<char>)
    requires
        !has_char(id, ':'),
    ensures
        callback_action(with_arg("timer_create"@, with_arg("all"@, hhmm)))
            == (ActionModel::TimerCreateAll { hhmm }),
        callback_action(with_arg("timer_create"@, with_arg("server"@, with_arg(id, hhmm))))
            == (ActionModel::TimerCreateServer { server_id: id, hhmm }),
        callback_action(with_arg("timer_edit_target"@, "all"@)) == ActionModel::TimerEditTargetAll,
        callback_action(with_arg("timer_edit_target"@, with_arg("server"@, id)))
            == ActionModel::TimerEditTargetServer(id),
        callback_action(with_arg("timer_close"@, "all"@)) == ActionModel::TimerCloseAll,
        callback_action(with_arg("timer_close"@, with_arg("server"@, id)))
            == ActionModel::TimerCloseServer(id),
{
    lemma_verbs();
    reveal_strlit("all");
    reveal_strlit("server");
    lemma_no_colon("all"@);
    lemma_no_colon("server"@);
    lemma_with_arg(id, hhmm);
    lemma_with_arg("all"@, hhmm);
    lemma_with_arg("server"@, with_arg(id, hhmm));
    lemma_with_arg("server"@, id);
    assert(with_arg("server"@, id)[0] == 's');
    assert("all"@[0] == 'a');
    lemma_order("timer_create"@, with_arg("all"@, hhmm));
    lemma_order("timer_create"@, with_arg("server"@, with_arg(id, hhmm)));
    lemma_order("timer_edit_target"@, "all"@);
    lemma_order("timer_edit_target"@, with_arg("server"@, id));
    lemma_order("timer_close"@, "all"@);
    lemma_order("timer_close"@, with_arg("server"@, id));
}

/// The buttons of the menu, and those without an argument, are understood.
pub proof fn menu_buttons_are_understood()
    ensures
        callback_action(with_arg("menu"@, "addserver"@)) == ActionModel::MenuAddServer,
        callback_action(with_arg("menu"@, "servers"@)) == ActionModel::MenuServers,
        callback_action(with_arg("menu"@, "status"@)) == ActionModel::MenuStatus,
        callback_action(with_arg("menu"@, "change"@)) == ActionModel::MenuChange,
        callback_action(with_arg("menu"@, "timer"@)) == ActionModel::MenuTimer,
        callback_action(with_arg("menu"@, "help"@)) == ActionModel::MenuHelp,
        callback_action("timer_new"@) == ActionModel::TimerNew,
        callback_action("timer_edit"@) == ActionModel::TimerEdit,
        callback_action("timer_close"@) == ActionModel::TimerClose,
        callback_action("timer_refresh"@) == ActionModel::TimerRefresh,
        callback_action("server_delete_cancel"@) == ActionModel::ServerDeleteCancel,
{
    lemma_verbs();
    reveal_strlit("addserver");
    reveal_strlit("servers");
    reveal_strlit("status");
    reveal_strlit("change");
    reveal_strlit("timer");
    reveal_strlit("help");
    reveal_strlit("timer_new");
    reveal_strlit("timer_edit");
    reveal_strlit("timer_close");
    reveal_strlit("timer_refresh");
    reveal_strlit("server_delete_cancel");
    assert("addserver"@.len() == 9 && "addserver"@[0] == 'a');
    lemma_order("menu"@, "addserver"@);
    assert("servers"@.len() == 7 && "servers"@[0] == 's');
    lemma_order("menu"@, "servers"@);
    assert("status"@.len() == 6 && "status"@[0] == 's');
    lemma_order("menu"@, "status"@);
    assert("change"@.len() == 6 && "change"@[0] == 'c');
    lemma_order("menu"@, "change"@);
    assert("timer"@.len() == 5 && "timer"@[0] == 't');
    lemma_order("menu"@, "timer"@);
    assert("help"@.len() == 4 && "help"@[0] == 'h');
    lemma_order("menu"@, "help"@);
    assert("timer_new"@.len() == 9);
    lemma_no_colon("timer_new"@);
    assert("timer_edit"@.len() == 10);
    lemma_no_colon("timer_edit"@);
    assert("timer_close"@.len() == 11);
    lemma_no_colon("timer_close"@);
    assert("timer_refresh"@.len() == 13);
    lemma_no_colon("timer_refresh"@);
    assert("server_delete_cancel"@.len() == 20);
    lemma_no_colon("server_delete_cancel"@);
}

} // verus!
