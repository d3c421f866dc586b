//! Removing a server.

use vstd::prelude::*;
use crate::bot::callbacks::{order, with_arg};
use crate::bot::formatting::{failed, failure, format_server_card, server_card};
use crate::bot::server_list::find_configured_server;
use crate::bot::ui::{button, button_of, html_with, plain, Keyboard, Reply, ReplyModel};
use crate::config::{known_id, position_of, AppConfig, ServerModel};
use crate::server_manage::{after_delete, delete_server, manage_error_text};

verus! {

/// What is answered where a server is not known.
pub open spec fn unknown_server() -> ReplyModel {
    plain("服务器不存在或已禁用"@)
}

/// The question whether a server is to be removed.
pub open spec fn delete_question(s: ServerModel, server_id: Seq<char>) -> ReplyModel {
    html_with(
        "⚠️ 确定删除这台服务器吗？\n\n"@ + server_card(s),
        seq![
            seq![
                button_of("✅ 删除"@, with_arg("server_delete_confirm"@, server_id)),
                button_of("❌ 取消"@, "server_delete_cancel"@),
            ],
        ],
    )
}

pub fn show_server_delete_confirmation(config: &AppConfig, server_id: &str) -> (r: Reply)
    ensures
        r@ == (if known_id(config@.servers, server_id@) {
            delete_question(
                config@.servers[position_of(config@.servers, server_id@)],
                server_id@,
            )
        } else {
            unknown_server()
        }),
{
    match find_configured_server(config, server_id) {
        Some(server) => {
            let mut keyboard = Keyboard::new();
            keyboard.push_two(
                button("✅ 删除", order("server_delete_confirm", server_id).as_str()),
                button("❌ 取消", "server_delete_cancel"),
            );
            assert(keyboard@ =~= delete_question(server@, server_id@).keyboard->Some_0);
            let mut text = "⚠️ 确定删除这台服务器吗？\n\n".to_owned();
            text.append(format_server_card(server).as_str());
            Reply::html_with(text, keyboard)
        },
        None => Reply::say("服务器不存在或已禁用"),
    }
}

/// The configuration without a server, or why it cannot be removed.
pub fn delete_server_from_config(config: &AppConfig, server_id: &str) -> (r: Result<
    AppConfig,
    Reply,
>)
    ensures
        match after_delete(config@, server_id@) {
            Ok(c) => r is Ok && r->Ok_0@ == c,
            Err(e) => r is Err && r->Err_0@ == failed(manage_error_text(e)),
        },
{
    let mut next = config.clone();
    match delete_server(&mut next, server_id) {
        Ok(_) => Ok(next),
        Err(e) => Err(failure(e.message().as_str())),
    }
}

} // verus!
