//! Choosing a server, checking it, and changing its address.

use vstd::prelude::*;
use crate::bot::callbacks::{order, with_arg};
use crate::bot::formatting::{
    escaped, failed, failure, format_server_card, html_escape, server_card,
};
use crate::bot::state::{
    after_consume, after_insert, consumed, nonce_of, ConfirmConsume, Confirmation,
    ConfirmationStore, Instant,
};
use crate::bot::ui::{
    button, button_of, html, html_with, plain, plain_with, Keyboard, KeyboardModel, Reply,
    ReplyModel,
};
use crate::boil::IpAddress;
use crate::config::{
    choose_server, chosen, fault_text, AppConfig, ConfigFault, ServerConfig, ServerModel,
};
use crate::ip_quality::IpQuality;
use crate::number::{decimal_int, decimal_int_text, decimal_text};
use crate::reconnect::{ReconnectResult, ReconnectStatus, ResultModel};
use crate::text::{append_part, is_blank, lemma_trimmed_blank, opt_part, opt_text, trim, trimmed};
use crate::timer::message::uses_text;

verus! {

// ---------------------------------------------------------------------------
// Choosing a server
// ---------------------------------------------------------------------------

/// The id that follows a command, where one does.
pub open spec fn named(arg: Seq<char>) -> Option<Seq<char>> {
    if is_blank(arg) {
        None
    } else {
        Some(trimmed(arg))
    }
}

pub fn selection_from_tg_arg(arg: &str) -> (r: Option<String>)
    ensures
        opt_text(r) == named(arg@),
{
    proof {
        lemma_trimmed_blank(arg@);
    }
    let t = trim(arg);
    if t.as_str().is_empty() {
        None
    } else {
        Some(t)
    }
}

/// A row for each server: its name, and the order to take it.
pub open spec fn selection_rows(servers: Seq<ServerModel>, action: Seq<char>) -> KeyboardModel
    decreases servers.len(),
{
    if servers.len() == 0 {
        Seq::empty()
    } else if servers.last().enabled {
        selection_rows(servers.drop_last(), action).push(
            seq![button_of(servers.last().name, with_arg("select_"@ + action, servers.last().id))],
        )
    } else {
        selection_rows(servers.drop_last(), action)
    }
}

/// The question which server is meant.
pub open spec fn selection_reply(servers: Seq<ServerModel>, action: Seq<char>) -> ReplyModel {
    let rows = selection_rows(servers, action);
    if rows.len() == 0 {
        plain("没有已启用的 VPS"@)
    } else {
        plain_with("请选择 VPS："@, rows)
    }
}

pub fn show_server_selection(config: &AppConfig, action: &str) -> (r: Reply)
    ensures
        r@ == selection_reply(config@.servers, action@),
{
    let mut verb = "select_".to_owned();
    verb.append(action);
    let mut keyboard = Keyboard::new();
    let mut i: usize = 0;
    let ghost m = config@.servers;
    assert(selection_rows(m.subrange(0, 0), action@) =~= keyboard@);
    while i < config.servers.len()
        invariant
            i <= config.servers@.len(),
            m == config@.servers,
            verb@ == "select_"@ + action@,
            keyboard@ == selection_rows(m.subrange(0, i as int), action@),
        decreases config.servers@.len() - i,
    {
        let server = &config.servers[i];
        let ghost t = m.subrange(0, i + 1);
        assert(t.drop_last() =~= m.subrange(0, i as int));
        assert(t.last() == server@);
        if server.enabled {
            let data = order(verb.as_str(), server.id.as_str());
            keyboard.push_one(button(server.name.as_str(), data.as_str()));
        }
        i += 1;
    }
    assert(m.subrange(0, m.len() as int) =~= m);
    assert(keyboard@.len() == keyboard.rows@.len());
    if keyboard.rows.len() == 0 {
        Reply::say("没有已启用的 VPS")
    } else {
        Reply::plain_with("请选择 VPS：".to_owned(), keyboard)
    }
}

/// The reply to an order that does not say which server is meant, or names none that can be
/// taken.
pub open spec fn not_chosen_reply(
    servers: Seq<ServerModel>,
    id: Option<Seq<char>>,
    fault: ConfigFault,
    action: Seq<char>,
) -> ReplyModel {
    match id {
        None => selection_reply(servers, action),
        Some(_) => failed(fault_text(fault)),
    }
}

/// The server that an order with this argument is about, or what is answered.
pub fn resolve_for_tg<'a>(config: &'a AppConfig, arg: &str, action: &str) -> (r: Result<
    &'a ServerConfig,
    Reply,
>)
    ensures
        match chosen(config@.servers, named(arg@)) {
            Ok(s) => r is Ok && r->Ok_0@ == s,
            Err(f) => r is Err && r->Err_0@ == not_chosen_reply(
                config@.servers,
                named(arg@),
                f,
                action@,
            ),
        },
{
    let id = selection_from_tg_arg(arg);
    let name: Option<&str> = match &id {
        Some(id) => Some(id.as_str()),
        None => None,
    };
    match choose_server(config, name) {
        Ok(server) => Ok(server),
        Err(e) => if id.is_none() {
            Err(show_server_selection(config, action))
        } else {
            Err(failure(e.message().as_str()))
        },
    }
}

// ---------------------------------------------------------------------------
// Changing an address
// ---------------------------------------------------------------------------

/// The question whether the address of a server is to be changed.
pub open spec fn confirmation_reply(s: ServerModel, nonce: Seq<char>) -> ReplyModel {
    html_with(
        "确认更换这台服务器的 IP？\n\n"@ + server_card(s),
        seq![
            seq![
                button_of("确认换 IP"@, with_arg("confirm_change"@, with_arg(s.id, nonce))),
                button_of("取消"@, with_arg("cancel_change"@, with_arg(s.id, nonce))),
            ],
        ],
    )
}

/// Asks whether the address of a server is to be changed.
pub fn show_change_confirmation(
    config: &AppConfig,
    confirmations: &mut ConfirmationStore,
    server_id: &str,
    now: Instant,
    millis: u128,
) -> (r: Reply)
    requires
        old(confirmations).wf(),
    ensures
        final(confirmations).wf(),
        match chosen(config@.servers, Some(server_id@)) {
            Ok(s) => {
                let nonce = nonce_of(old(confirmations).next(), millis);
                &&& r@ == confirmation_reply(s, nonce)
                &&& final(confirmations)@ == after_insert(old(confirmations)@, s.id, nonce, now)
                &&& final(confirmations).next() == counted(old(confirmations).next())
            },
            Err(_) => r@ == plain("server 不存在或已禁用"@) && *final(confirmations) == *old(
                confirmations,
            ),
        },
{
    match choose_server(config, Some(server_id)) {
        Ok(server) => {
            let nonce = confirmations.insert(server.id.as_str(), now, millis);
            let named = order(server.id.as_str(), nonce.as_str());
            let mut keyboard = Keyboard::new();
            keyboard.push_two(
                button("确认换 IP", order("confirm_change", named.as_str()).as_str()),
                button("取消", order("cancel_change", named.as_str()).as_str()),
            );
            let mut text = "确认更换这台服务器的 IP？\n\n".to_owned();
            text.append(format_server_card(server).as_str());
            let r = Reply::html_with(text, keyboard);
            assert(keyboard@ =~= confirmation_reply(server@, nonce@).keyboard->Some_0);
            r
        },
        Err(_) => Reply::say("server 不存在或已禁用"),
    }
}

/// The next value of a counter.
pub open spec fn counted(n: u64) -> u64 {
    if n == u64::MAX {
        0
    } else {
        (n + 1) as u64
    }
}

/// The order to change an address: asks which server is meant, or whether it is meant.
pub fn tg_change(
    config: &AppConfig,
    confirmations: &mut ConfirmationStore,
    arg: &str,
    now: Instant,
    millis: u128,
) -> (r: Reply)
    requires
        old(confirmations).wf(),
    ensures
        final(confirmations).wf(),
        match chosen(config@.servers, named(arg@)) {
            Ok(s) => match chosen(config@.servers, Some(s.id)) {
                Ok(t) => {
                    let nonce = nonce_of(old(confirmations).next(), millis);
                    &&& r@ == confirmation_reply(t, nonce)
                    &&& final(confirmations)@ == after_insert(
                        old(confirmations)@,
                        t.id,
                        nonce,
                        now,
                    )
                    &&& final(confirmations).next() == counted(old(confirmations).next())
                },
                Err(_) => r@ == plain("server 不存在或已禁用"@) && *final(confirmations) == *old(
                    confirmations,
                ),
            },
            Err(f) => r@ == not_chosen_reply(config@.servers, named(arg@), f, "change"@)
                && *final(confirmations) == *old(confirmations),
        },
{
    match resolve_for_tg(config, arg, "change") {
        Ok(server) => show_change_confirmation(
            config,
            confirmations,
            server.id.as_str(),
            now,
            millis,
        ),
        Err(reply) => reply,
    }
}

/// What is answered to a confirmation that is not accepted.
pub open spec fn refusal(c: ConfirmConsume) -> Option<Seq<char>> {
    match c {
        ConfirmConsume::Accepted => None,
        ConfirmConsume::Expired => Some("确认已过期，请重新发送 /change"@),
        ConfirmConsume::Missing => Some("确认已过期，请重新发送 /change"@),
        ConfirmConsume::AlreadyUsed => Some("该确认已使用，请勿重复点击"@),
        ConfirmConsume::Mismatch => Some("确认信息不匹配，请重新发送 /change"@),
    }
}

/// The server whose address is changed after a confirmation, or what is answered.
pub open spec fn confirmed(
    servers: Seq<ServerModel>,
    confirmations: Map<Seq<char>, Confirmation>,
    server_id: Seq<char>,
    nonce: Seq<char>,
    now: Instant,
) -> Result<ServerModel, ReplyModel> {
    match refusal(consumed(confirmations, server_id, nonce, now)) {
        Some(text) => Err(plain(text)),
        None => match chosen(servers, Some(server_id)) {
            Ok(s) => Ok(s),
            Err(_) => Err(plain("server 不存在或已禁用"@)),
        },
    }
}

/// A change was confirmed. The confirmation is used up, whatever comes of it.
pub fn confirm_and_change<'a>(
    config: &'a AppConfig,
    confirmations: &mut ConfirmationStore,
    server_id: &str,
    nonce: &str,
    now: Instant,
) -> (r: Result<&'a ServerConfig, Reply>)
    requires
        old(confirmations).wf(),
    ensures
        final(confirmations).wf(),
        final(confirmations).next() == old(confirmations).next(),
        final(confirmations)@ == after_consume(old(confirmations)@, server_id@, nonce@, now),
        match confirmed(config@.servers, old(confirmations)@, server_id@, nonce@, now) {
            Ok(s) => r is Ok && r->Ok_0@ == s,
            Err(m) => r is Err && r->Err_0@ == m,
        },
{
    match confirmations.consume(server_id, nonce, now) {
        ConfirmConsume::Accepted => match choose_server(config, Some(server_id)) {
            Ok(server) => Ok(server),
            Err(_) => Err(Reply::say("server 不存在或已禁用")),
        },
        ConfirmConsume::Expired => Err(Reply::say("确认已过期，请重新发送 /change")),
        ConfirmConsume::Missing => Err(Reply::say("确认已过期，请重新发送 /change")),
        ConfirmConsume::AlreadyUsed => Err(Reply::say("该确认已使用，请勿重复点击")),
        ConfirmConsume::Mismatch => Err(Reply::say("确认信息不匹配，请重新发送 /change")),
    }
}

/// An address is changed only after a confirmation that was asked for that server, was not
/// used before and is not too old.
pub proof fn change_needs_a_confirmation(
    servers: Seq<ServerModel>,
    confirmations: Map<Seq<char>, Confirmation>,
    server_id: Seq<char>,
    nonce: Seq<char>,
    now: Instant,
    later: Instant,
)
    requires
        confirmed(servers, confirmations, server_id, nonce, now) is Ok,
        now.nanos <= later.nanos,
    ensures
        confirmations.dom().contains(nonce),
        confirmations[nonce].server_id == server_id,
        !confirmations[nonce].used,
        now.nanos < confirmations[nonce].expires_at,
        confirmed(
            servers,
            after_consume(confirmations, server_id, nonce, now),
            server_id,
            nonce,
            later,
        ) is Err,
{
}

// ---------------------------------------------------------------------------
// Messages
// ---------------------------------------------------------------------------

/// The client for the server's interface cannot be made.
pub fn client_failed(error: &str) -> (r: Reply)
    ensures
        r@ == plain("❌ 初始化失败: "@ + error@),
{
    let mut text = "❌ 初始化失败: ".to_owned();
    text.append(error);
    Reply::plain(text)
}

/// A change has begun.
pub fn change_started() -> (r: Reply)
    ensures
        r@ == plain("⏳ 开始换 IP，请稍候..."@),
{
    Reply::say("⏳ 开始换 IP，请稍候...")
}

/// A check has begun.
pub fn check_started(server: &ServerConfig) -> (r: Reply)
    ensures
        r@ == plain("🔍 检测中: "@ + escaped(server@.name)),
{
    let mut text = "🔍 检测中: ".to_owned();
    text.append(html_escape(server.name.as_str()).as_str());
    Reply::plain(text)
}

/// The address of a server that was to be checked is not known.
pub fn check_failed(error: &str) -> (r: Reply)
    ensures
        r@ == plain("❌ Token 查询失败: "@ + escaped(error@)),
{
    let mut text = "❌ Token 查询失败: ".to_owned();
    text.append(html_escape(error).as_str());
    Reply::plain(text)
}

pub open spec fn check_text(s: ServerModel, ip: Seq<char>, quality: Option<IpQuality>) -> Seq<
    char,
> {
    "📍 <b>"@ + escaped(s.name) + "</b>\nIP: <code>"@ + ip + "</code>\n"@ + (match quality {
        Some(q) => "地区: "@ + escaped(q.country@) + " | ISP: "@ + escaped(q.isp@) + "\n类型: "@ + (
        if q.is_proxy {
            "代理 ❌"@
        } else if q.is_hosting {
            "机房 ⚠️"@
        } else {
            "住宅 ✅"@
        }) + " | CF 风险: "@ + (if q.is_proxy || q.is_hosting {
            "高 ⚠️"@
        } else {
            "低 ✅"@
        }),
        None => "IP 质量检测失败"@,
    })
}

/// What a check found out.
pub fn check_result(server: &ServerConfig, ip: &IpAddress, quality: &Option<IpQuality>) -> (r:
    Reply)
    ensures
        r@ == html(check_text(server@, ip@, *quality)),
{
    let mut text = "📍 <b>".to_owned();
    text.append(html_escape(server.name.as_str()).as_str());
    text.append("</b>\nIP: <code>");
    text.append(ip.text.as_str());
    text.append("</code>\n");
    let found = match quality {
        Some(q) => {
            let mut t = "地区: ".to_owned();
            t.append(html_escape(q.country.as_str()).as_str());
            t.append(" | ISP: ");
            t.append(html_escape(q.isp.as_str()).as_str());
            t.append("\n类型: ");
            t.append(q.ip_type());
            t.append(" | CF 风险: ");
            t.append(q.cf_risk());
            t
        },
        None => "IP 质量检测失败".to_owned(),
    };
    text.append(found.as_str());
    Reply::html(text)
}

pub open spec fn status_name(status: ReconnectStatus) -> Seq<char> {
    match status {
        ReconnectStatus::Success => "Success"@,
        ReconnectStatus::Disabled => "Disabled"@,
        ReconnectStatus::PreflightFailed => "PreflightFailed"@,
        ReconnectStatus::RateLimited => "RateLimited"@,
        ReconnectStatus::ApiRejected => "ApiRejected"@,
        ReconnectStatus::ChangeAcceptedButUnconfirmed => "ChangeAcceptedButUnconfirmed"@,
        ReconnectStatus::InvalidResponse => "InvalidResponse"@,
    }
}

/// The name of a status.
pub fn name_of_status(status: ReconnectStatus) -> (r: &'static str)
    ensures
        r@ == status_name(status),
{
    match status {
        ReconnectStatus::Success => "Success",
        ReconnectStatus::Disabled => "Disabled",
        ReconnectStatus::PreflightFailed => "PreflightFailed",
        ReconnectStatus::RateLimited => "RateLimited",
        ReconnectStatus::ApiRejected => "ApiRejected",
        ReconnectStatus::ChangeAcceptedButUnconfirmed => "ChangeAcceptedButUnconfirmed",
        ReconnectStatus::InvalidResponse => "InvalidResponse",
    }
}

/// The lines of a result that follow its status.
pub open spec fn result_details(r: ResultModel) -> Seq<char> {
    opt_part("\n旧 IP: <code>"@, r.old_ip, "</code>"@) + opt_part(
        "\n新 IP: <code>"@,
        r.new_ip,
        "</code>"@,
    ) + opt_part("\n剩余次数: "@, uses_text(r.uses_left), ""@) + opt_part(
        "\n下次允许时间: "@,
        match r.next_allowed_at {
            Some(t) => Some(decimal_int(t as int)),
            None => None,
        },
        " (Unix)"@,
    ) + opt_part(
        "\n信息: "@,
        match r.message {
            Some(m) => Some(escaped(m)),
            None => None,
        },
        ""@,
    )
}

pub fn details_of_result(result: &ReconnectResult) -> (r: String)
    ensures
        r@ == result_details(result@),
{
    let mut r = String::new();
    let old_ip = match &result.old_ip {
        Some(ip) => Some(ip.text.as_str()),
        None => None,
    };
    append_part(&mut r, "\n旧 IP: <code>", old_ip, "</code>");
    assert(r@ =~= opt_part("\n旧 IP: <code>"@, result@.old_ip, "</code>"@));
    let new_ip = match &result.new_ip {
        Some(ip) => Some(ip.text.as_str()),
        None => None,
    };
    append_part(&mut r, "\n新 IP: <code>", new_ip, "</code>");
    match result.uses_left {
        Some(n) => {
            let d = decimal_text(n as u64);
            append_part(&mut r, "\n剩余次数: ", Some(d.as_str()), "");
        },
        None => {
            append_part(&mut r, "\n剩余次数: ", None, "");
        },
    }
    match result.next_allowed_at {
        Some(t) => {
            let d = decimal_int_text(t);
            append_part(&mut r, "\n下次允许时间: ", Some(d.as_str()), " (Unix)");
        },
        None => {
            append_part(&mut r, "\n下次允许时间: ", None, " (Unix)");
        },
    }
    match &result.message {
        Some(m) => {
            let e = html_escape(m.as_str());
            append_part(&mut r, "\n信息: ", Some(e.as_str()), "");
        },
        None => {
            append_part(&mut r, "\n信息: ", None, "");
        },
    }
    r
}

pub open spec fn reconnect_text(r: ResultModel) -> Seq<char> {
    "📡 <b>"@ + escaped(r.server_name) + "</b>\n状态: "@ + status_name(r.status) + result_details(r)
}

/// What came of a change.
pub fn reconnect_result(result: &ReconnectResult) -> (r: Reply)
    ensures
        r@ == html(reconnect_text(result@)),
{
    let mut text = "📡 <b>".to_owned();
    text.append(html_escape(result.server_name.as_str()).as_str());
    text.append("</b>\n状态: ");
    text.append(name_of_status(result.status));
    text.append(details_of_result(result).as_str());
    Reply::html(text)
}

} // verus!
