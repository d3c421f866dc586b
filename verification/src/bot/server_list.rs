//! The list of servers.

use vstd::prelude::*;
use crate::bot::formatting::{
    display_parts, failed, failure, format_server_display_parts, server_geo, server_geo_label,
};
use crate::bot::ui::{html, plain, Reply, ReplyModel};
use crate::config::{find_server, known_id, position_of, AppConfig, ServerConfig, ServerModel};
use crate::server_manage::{after_move, manage_error_text, move_server_down, move_server_up};

verus! {

pub fn find_configured_server<'a>(config: &'a AppConfig, server_id: &str) -> (r: Option<
    &'a ServerConfig,
>)
    ensures
        match r {
            Some(s) => known_id(config@.servers, server_id@) && s@
                == config@.servers[position_of(config@.servers, server_id@)],
            None => !known_id(config@.servers, server_id@),
        },
{
    let i = find_server(config.servers.as_slice(), server_id);
    if i < config.servers.len() {
        assert(config@.servers[i as int] == config.servers@[i as int]@);
        Some(&config.servers[i])
    } else {
        None
    }
}

/// What is shown of an address that was asked for.
pub open spec fn ip_or_failed(ip: Option<Seq<char>>) -> Seq<char> {
    match ip {
        Some(ip) => ip,
        None => "查询失败"@,
    }
}

/// What is shown of a server in the list: neither its id nor its token.
pub open spec fn listed_card(s: ServerModel, ip: Seq<char>) -> Seq<char> {
    display_parts(s.name, "当前 IP："@ + ip, server_geo(s))
}

pub fn format_server_card(server: &ServerConfig, current_ip: &str) -> (r: String)
    ensures
        r@ == listed_card(server@, current_ip@),
{
    let mut ip = "当前 IP：".to_owned();
    ip.append(current_ip);
    format_server_display_parts(server.name.as_str(), ip.as_str(), &server_geo_label(server))
}

/// A server of the list; its address is `None` where it could not be asked for.
pub fn list_entry(server: &ServerConfig, current_ip: Option<&str>) -> (r: Reply)
    ensures
        r@ == html(
            listed_card(
                server@,
                ip_or_failed(
                    match current_ip {
                        Some(ip) => Some(ip@),
                        None => None,
                    },
                ),
            ),
        ),
{
    let ip: &str = match current_ip {
        Some(ip) => ip,
        None => "查询失败",
    };
    Reply::html(format_server_card(server, ip))
}

/// The servers to show in the list, or what is answered where there are none.
pub fn show_servers(config: &AppConfig) -> (r: Result<Vec<ServerConfig>, Reply>)
    ensures
        match r {
            Ok(v) => config@.servers.len() > 0 && crate::config::server_models(v@)
                == config@.servers,
            Err(reply) => config@.servers.len() == 0 && reply@ == no_servers(),
        },
{
    if config.servers.len() == 0 {
        Err(Reply::say("尚未添加服务器，请点击“添加服务器”。"))
    } else {
        Ok(crate::config::clone_servers(&config.servers))
    }
}

pub open spec fn no_servers() -> ReplyModel {
    plain("尚未添加服务器，请点击“添加服务器”。"@)
}

/// The configuration with a server moved by one place, or why it cannot be moved.
pub fn move_server(config: &AppConfig, server_id: &str, up: bool) -> (r: Result<AppConfig, Reply>)
    ensures
        match after_move(config@, server_id@, up) {
            Ok(c) => r is Ok && r->Ok_0@ == c,
            Err(e) => r is Err && r->Err_0@ == failed(manage_error_text(e)),
        },
{
    let mut next = config.clone();
    let result = if up {
        move_server_up(&mut next, server_id)
    } else {
        move_server_down(&mut next, server_id)
    };
    match result {
        Ok(_) => Ok(next),
        Err(e) => Err(failure(e.message().as_str())),
    }
}

/// What is shown of a server in the list is the same whatever its token and its id are.
pub proof fn listed_card_hides_token_and_id(a: ServerModel, b: ServerModel, ip: Seq<char>)
    requires
        a == (ServerModel { token: a.token, id: a.id, ..b }),
    ensures
        listed_card(a, ip) == listed_card(b, ip),
{
}

} // verus!
