//! Changing a server.

use vstd::prelude::*;
use crate::bot::callbacks::{order, with_arg};
use crate::bot::formatting::{
    escaped, failed, failure, format_server_card, host_of, html_escape, normalize_server_address,
    server_card, short_error, short_safe_error, AddressMetadata,
};
use crate::bot::server_delete::unknown_server;
use crate::bot::server_list::find_configured_server;
use crate::bot::state::{pruned, taken, EditModel, Instant, ServerEditMode, ServerEditStore};
use crate::bot::ui::{button, button_of, html_with, plain, Keyboard, Reply, ReplyModel};
use crate::config::{
    fault_text, known_id, position_of, AppConfig, ConfigFault, ConfigModel, SecretToken,
    ServerModel,
};
use crate::server_manage::{
    after_address, after_rename, after_token, manage_error_text, rename_server,
    update_server_address, update_server_token, AddressModel, ManageError, ServerAddressUpdate,
};
use crate::text::{clone_opt, is_blank, opt_text, trim, trimmed};
use crate::timer::TimerManager;

verus! {

// ---------------------------------------------------------------------------
// Saving
// ---------------------------------------------------------------------------

/// How it went to save a configuration and to schedule its timers.
pub enum SaveOutcome {
    Saved,
    SaveFailed(String),
    /// It was saved, but its timers are not scheduled.
    RescheduleFailed(String),
}

/// The message about a configuration that was to be saved.
pub open spec fn saved_reply(outcome: SaveOutcome, success: Seq<char>) -> ReplyModel {
    match outcome {
        SaveOutcome::Saved => plain(success),
        SaveOutcome::SaveFailed(e) => plain("❌ 保存失败: "@ + escaped(e@)),
        SaveOutcome::RescheduleFailed(e) => plain(
            "❌ 已保存配置，但重新调度失败: "@ + escaped(e@),
        ),
    }
}

pub fn save_failed(error: &str) -> (r: Reply)
    ensures
        r@ == plain("❌ 保存失败: "@ + escaped(error@)),
{
    let mut text = "❌ 保存失败: ".to_owned();
    text.append(html_escape(error).as_str());
    Reply::plain(text)
}

/// A configuration that was saved comes into force; one that was not does not.
pub fn save_config_and_reload(
    config: &mut AppConfig,
    timer: &mut TimerManager,
    next: AppConfig,
    success: &str,
    outcome: SaveOutcome,
) -> (r: Reply)
    requires
        old(timer).wf(),
    ensures
        final(timer).wf(),
        r@ == saved_reply(outcome, success@),
        outcome is SaveFailed ==> final(config)@ == old(config)@ && final(timer).model() == old(
            timer,
        ).model(),
        !(outcome is SaveFailed) ==> final(config)@ == next@ && final(timer).model() == next@,
{
    match outcome {
        SaveOutcome::SaveFailed(e) => save_failed(e.as_str()),
        SaveOutcome::Saved => {
            *config = next.clone();
            timer.replace_config(next);
            Reply::say(success)
        },
        SaveOutcome::RescheduleFailed(e) => {
            *config = next.clone();
            timer.replace_config(next);
            let mut text = "❌ 已保存配置，但重新调度失败: ".to_owned();
            text.append(html_escape(e.as_str()).as_str());
            Reply::plain(text)
        },
    }
}

// ---------------------------------------------------------------------------
// Text that was asked for
// ---------------------------------------------------------------------------

/// What a text that changes a server comes to.
pub enum EditAction {
    Say(Reply),
    /// The configuration is to be saved.
    Save { next: AppConfig, success: &'static str },
    /// What is known of an address is to be found out.
    FindAddress { server_id: String, address: String },
    /// A token is to be tried.
    CheckToken { server_id: String, token: SecretToken },
}

pub enum EditActionModel {
    Say(ReplyModel),
    Save { next: ConfigModel, success: Seq<char> },
    FindAddress { server_id: Seq<char>, address: Seq<char> },
    CheckToken { server_id: Seq<char>, token: Seq<char> },
}

impl View for EditAction {
    type V = EditActionModel;

    open spec fn view(&self) -> EditActionModel {
        match self {
            EditAction::Say(r) => EditActionModel::Say(r@),
            EditAction::Save { next, success } => EditActionModel::Save {
                next: next@,
                success: success@,
            },
            EditAction::FindAddress { server_id, address } => EditActionModel::FindAddress {
                server_id: server_id@,
                address: address@,
            },
            EditAction::CheckToken { server_id, token } => EditActionModel::CheckToken {
                server_id: server_id@,
                token: token@,
            },
        }
    }
}

pub open spec fn edit_action(config: ConfigModel, mode: EditModel, text: Seq<char>) ->
    EditActionModel {
    match mode {
        EditModel::Name(id) => saving(
            after_rename(config, id, trimmed(text)),
            "✅ 服务器名称已更新"@,
        ),
        EditModel::Address(id) => if is_blank(text) || host_of(text).len() == 0 {
            EditActionModel::Say(plain("❌ 服务器地址不能为空"@))
        } else {
            EditActionModel::FindAddress { server_id: id, address: host_of(text) }
        },
        EditModel::Token(id) => if is_blank(trimmed(text)) {
            EditActionModel::Say(failed(fault_text(ConfigFault::EmptyToken)))
        } else {
            EditActionModel::CheckToken { server_id: id, token: trimmed(text) }
        },
    }
}

/// A text may be what a server is changed to; then it comes to an action. A message that holds
/// a token is to be deleted.
pub fn handle_server_edit_input(
    config: &AppConfig,
    edits: &mut ServerEditStore,
    chat_id: i64,
    text: &str,
    now: Instant,
) -> (r: Option<(EditAction, bool)>)
    requires
        old(edits).wf(),
    ensures
        final(edits).wf(),
        final(edits)@ == pruned(old(edits)@, now).remove(chat_id),
        match taken(old(edits)@, chat_id, now) {
            Some(mode) => r is Some && r->Some_0.0@ == edit_action(config@, mode, text@)
                && r->Some_0.1 == (mode is Token),
            None => r is None,
        },
{
    let mode = match edits.take(chat_id, now) {
        Some(mode) => mode,
        None => return None,
    };
    match mode {
        ServerEditMode::Name { server_id } => {
            let mut next = config.clone();
            match rename_server(&mut next, server_id.as_str(), trim(text)) {
                Ok(_) => Some((EditAction::Save { next, success: "✅ 服务器名称已更新" }, false)),
                Err(e) => Some((EditAction::Say(failure(e.message().as_str())), false)),
            }
        },
        ServerEditMode::Address { server_id } => match normalize_server_address(text) {
            Some(address) => Some((EditAction::FindAddress { server_id, address }, false)),
            None => Some((EditAction::Say(Reply::say("❌ 服务器地址不能为空")), false)),
        },
        ServerEditMode::Token { server_id } => match SecretToken::new(trim(text)) {
            Ok(token) => Some((EditAction::CheckToken { server_id, token }, true)),
            Err(e) => Some((EditAction::Say(failure(e.message().as_str())), true)),
        },
    }
}

pub open spec fn found(address: Seq<char>, metadata: AddressMetadata) -> AddressModel {
    AddressModel {
        address,
        country: metadata.geo@.country,
        flag: metadata.geo@.flag,
        resolved_ip: opt_text(metadata.resolved_ip),
    }
}

/// A changed configuration is saved; a change that cannot be made is refused.
pub open spec fn saving(changed: Result<ConfigModel, ManageError>, success: Seq<char>) ->
    EditActionModel {
    match changed {
        Ok(next) => EditActionModel::Save { next, success },
        Err(e) => EditActionModel::Say(failed(manage_error_text(e))),
    }
}

fn save_address(
    config: &AppConfig,
    server_id: &str,
    address: String,
    metadata: &AddressMetadata,
    success: &'static str,
) -> (r: EditAction)
    ensures
        r@ == saving(after_address(config@, server_id@, found(address@, *metadata)), success@),
{
    let mut next = config.clone();
    let update = ServerAddressUpdate {
        address,
        country: metadata.geo.country.clone(),
        flag: metadata.geo.flag.clone(),
        resolved_ip: clone_opt(&metadata.resolved_ip),
    };
    assert(update@ =~= found(address@, *metadata));
    match update_server_address(&mut next, server_id, update) {
        Ok(_) => EditAction::Save { next, success },
        Err(e) => EditAction::Say(failure(e.message().as_str())),
    }
}

/// What is known of a new address was found out: the server gets the address.
pub fn address_found(
    config: &AppConfig,
    server_id: &str,
    address: String,
    metadata: &AddressMetadata,
) -> (r: EditAction)
    ensures
        r@ == saving(
            after_address(config@, server_id@, found(address@, *metadata)),
            "✅ 服务器地址已更新"@,
        ),
{
    save_address(config, server_id, address, metadata, "✅ 服务器地址已更新")
}

/// The token of a server is still good, and what is known of its address was found out.
pub fn revalidated(
    config: &AppConfig,
    server_id: &str,
    address: String,
    metadata: &AddressMetadata,
) -> (r: EditAction)
    ensures
        r@ == saving(
            after_address(config@, server_id@, found(address@, *metadata)),
            "✅ 服务器已重新验证"@,
        ),
{
    save_address(config, server_id, address, metadata, "✅ 服务器已重新验证")
}

/// A token was tried: the server gets it where it is good.
pub open spec fn after_trial(
    config: ConfigModel,
    server_id: Seq<char>,
    token: Seq<char>,
    tried: Result<(), String>,
) -> EditActionModel {
    match tried {
        Ok(_) => saving(after_token(config, server_id, token), "✅ 服务器 Token 已更新"@),
        Err(e) => EditActionModel::Say(
            plain("❌ Token 验证失败: "@ + escaped(short_error(e@))),
        ),
    }
}

pub fn token_checked(
    config: &AppConfig,
    server_id: &str,
    token: SecretToken,
    tried: Result<(), String>,
) -> (r: EditAction)
    ensures
        r@ == after_trial(config@, server_id@, token@, tried),
{
    match tried {
        Ok(_) => {
            let mut next = config.clone();
            match update_server_token(&mut next, server_id, token) {
                Ok(_) => EditAction::Save { next, success: "✅ 服务器 Token 已更新" },
                Err(e) => EditAction::Say(failure(e.message().as_str())),
            }
        },
        Err(e) => {
            let mut text = "❌ Token 验证失败: ".to_owned();
            text.append(html_escape(short_safe_error(e.as_str()).as_str()).as_str());
            EditAction::Say(Reply::plain(text))
        },
    }
}

// ---------------------------------------------------------------------------
// The menu
// ---------------------------------------------------------------------------

pub open spec fn edit_menu(s: ServerModel, server_id: Seq<char>) -> ReplyModel {
    html_with(
        "请选择要编辑的项目：\n\n"@ + server_card(s),
        seq![
            seq![
                button_of("✏️ 修改名称"@, with_arg("server_edit_name"@, server_id)),
                button_of("🌍 修改地址"@, with_arg("server_edit_address"@, server_id)),
            ],
            seq![
                button_of("🔑 修改 Token"@, with_arg("server_edit_token"@, server_id)),
                button_of("🔍 重新验证"@, with_arg("server_revalidate"@, server_id)),
            ],
            seq![button_of("⬅️ 返回"@, with_arg("menu"@, "servers"@))],
        ],
    )
}

pub fn show_server_edit_menu(config: &AppConfig, server_id: &str) -> (r: Reply)
    ensures
        r@ == (if known_id(config@.servers, server_id@) {
            edit_menu(config@.servers[position_of(config@.servers, server_id@)], server_id@)
        } else {
            unknown_server()
        }),
{
    match find_configured_server(config, server_id) {
        Some(server) => {
            let mut keyboard = Keyboard::new();
            keyboard.push_two(
                button("✏️ 修改名称", order("server_edit_name", server_id).as_str()),
                button("🌍 修改地址", order("server_edit_address", server_id).as_str()),
            );
            keyboard.push_two(
                button("🔑 修改 Token", order("server_edit_token", server_id).as_str()),
                button("🔍 重新验证", order("server_revalidate", server_id).as_str()),
            );
            keyboard.push_one(button("⬅️ 返回", order("menu", "servers").as_str()));
            assert(keyboard@ =~= edit_menu(server@, server_id@).keyboard->Some_0);
            let mut text = "请选择要编辑的项目：\n\n".to_owned();
            text.append(format_server_card(server).as_str());
            Reply::html_with(text, keyboard)
        },
        None => Reply::say("服务器不存在或已禁用"),
    }
}

/// The address under which a server is looked up again.
pub open spec fn address_to_find(s: ServerModel) -> Seq<char> {
    match (s.address, s.resolved_ip) {
        (Some(a), _) => a,
        (None, Some(ip)) => ip,
        (None, None) => "unknown"@,
    }
}

/// What is to be tried again for a server: its token, and its address.
pub fn revalidate_server(config: &AppConfig, server_id: &str) -> (r: Result<
    (SecretToken, String),
    Reply,
>)
    ensures
        match r {
            Ok((token, address)) => {
                let s = config@.servers[position_of(config@.servers, server_id@)];
                &&& known_id(config@.servers, server_id@)
                &&& token@ == s.token
                &&& address@ == address_to_find(s)
            },
            Err(reply) => !known_id(config@.servers, server_id@) && reply@ == unknown_server(),
        },
{
    match find_configured_server(config, server_id) {
        Some(server) => {
            let address = match &server.address {
                Some(a) => a.clone(),
                None => match &server.resolved_ip {
                    Some(ip) => ip.clone(),
                    None => "unknown".to_owned(),
                },
            };
            Ok((server.token.clone(), address))
        },
        None => Err(Reply::say("服务器不存在或已禁用")),
    }
}

/// A server could not be reached with its token.
pub fn revalidation_failed(error: &str) -> (r: Reply)
    ensures
        r@ == plain("❌ 验证失败: "@ + escaped(short_error(error@))),
{
    let mut text = "❌ 验证失败: ".to_owned();
    text.append(html_escape(short_safe_error(error).as_str()).as_str());
    Reply::plain(text)
}

/// A token is tried before it is saved, and one that does not work changes nothing.
pub proof fn bad_token_keeps_the_old_one(
    config: ConfigModel,
    mode: EditModel,
    text: Seq<char>,
    server_id: Seq<char>,
    token: Seq<char>,
    tried: Result<(), String>,
)
    requires
        mode is Token,
        tried is Err,
    ensures
        !(edit_action(config, mode, text) is Save),
        !(after_trial(config, server_id, token, tried) is Save),
{
}

} // verus!
