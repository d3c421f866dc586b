//! The command line: what its options mean and what it prints.

use vstd::prelude::*;
use crate::boil::{BoilApiError, GetIpResponse, IpAddress, api_error_text};
use crate::config::choice::{
    name_means_its_server, one_enabled_server_needs_no_name, selection_stands_for_servers,
};
use crate::config::debug::{alike, same_but_secrets};
use crate::config::{
    choose_server, chosen, enabled_models, enabled_of, fault_text, lemma_enabled_models,
    resolve_servers, server_models, AppConfig, ConfigError, ConfigFault, ConfigModel,
    ResolvedSelection, ServerConfig, ServerModel, ServerSelection,
};
use crate::ip_quality::IpQuality;
use crate::number::{decimal, decimal_int, decimal_int_text, decimal_text};
use crate::reconnect::{
    count_status, lemma_counts, result_models, BatchReconnectResult, ReconnectResult,
    ReconnectStatus, ResultModel,
};
use crate::server_manage::stands_first;
use crate::text::{append_part, contains_text, join, joined, opt_part, rest, starts_with, texts};
use crate::timer::{is_active, jobs_belong_to_timers, jobs_of, timers_have_their_jobs};
use crate::timer::message::failures;

verus! {

/// What the options `--server` and `--all` select; they cannot be used together.
pub fn selection_from_args<'a>(server: Option<&'a str>, all: bool) -> (r: Result<
    ServerSelection<'a>,
    String,
>)
    ensures
        match (server, all) {
            (Some(id), false) => r == Ok::<_, String>(ServerSelection::Id(id)),
            (None, true) => r == Ok::<_, String>(ServerSelection::All),
            (None, false) => r == Ok::<_, String>(ServerSelection::Unspecified),
            (Some(_), true) => r matches Err(m) && m@ == "--server 和 --all 不能同时使用"@,
        },
{
    match (server, all) {
        (Some(id), false) => Ok(ServerSelection::Id(id)),
        (None, true) => Ok(ServerSelection::All),
        (None, false) => Ok(ServerSelection::Unspecified),
        (Some(_), true) => Err("--server 和 --all 不能同时使用".to_owned()),
    }
}

/// What is said where no server is configured.
pub open spec fn not_ready_text(config: ConfigModel) -> Option<Seq<char>> {
    if config.servers.len() > 0 {
        None
    } else {
        match config.migration_notice {
            Some(notice) => Some(
                notice + "\n请从 Boil 面板获取新版 Token，并配置 BOIL_SERVERS。"@,
            ),
            None => Some("缺少 BOIL_SERVERS 配置，请从 Boil 面板获取新版 Token 后配置。"@),
        }
    }
}

pub fn ensure_new_config_ready(config: &AppConfig) -> (r: Result<(), String>)
    ensures
        match r {
            Ok(_) => not_ready_text(config@) is None,
            Err(m) => not_ready_text(config@) == Some(m@),
        },
{
    if config.servers.len() > 0 {
        return Ok(());
    }
    match &config.migration_notice {
        Some(notice) => {
            let mut m = notice.clone();
            m.append("\n请从 Boil 面板获取新版 Token，并配置 BOIL_SERVERS。");
            Err(m)
        },
        None => Err("缺少 BOIL_SERVERS 配置，请从 Boil 面板获取新版 Token 后配置。".to_owned()),
    }
}

/// A server by id and name.
pub open spec fn server_hint(s: ServerModel) -> Seq<char> {
    s.id + " ("@ + s.name + ")"@
}

/// The enabled servers with id and name.
pub open spec fn hints(servers: Seq<ServerModel>) -> Seq<Seq<char>>
    decreases servers.len(),
{
    if servers.len() == 0 {
        Seq::empty()
    } else if servers.last().enabled {
        hints(servers.drop_last()).push(server_hint(servers.last()))
    } else {
        hints(servers.drop_last())
    }
}

/// A message, and the servers that could have been named.
pub open spec fn hinted(config: ConfigModel, message: Seq<char>) -> Seq<char> {
    let h = joined(hints(config.servers), ", "@);
    if h.len() == 0 {
        message
    } else {
        message + "\n可用 server: "@ + h
    }
}

pub fn with_server_hint(config: &AppConfig, error: &ConfigError) -> (r: String)
    ensures
        r@ == hinted(config@, fault_text(error@)),
{
    let mut enabled: Vec<String> = Vec::new();
    let mut i: usize = 0;
    let ghost m = config@.servers;
    assert(texts(enabled@) =~= hints(m.subrange(0, 0)));
    while i < config.servers.len()
        invariant
            i <= config.servers@.len(),
            m == config@.servers,
            texts(enabled@) == hints(m.subrange(0, i as int)),
        decreases config.servers@.len() - i,
    {
        let server = &config.servers[i];
        let ghost t = m.subrange(0, i + 1);
        let ghost before = enabled@;
        assert(t.drop_last() =~= m.subrange(0, i as int));
        assert(t.last() == server@);
        if server.enabled {
            let mut s = server.id.clone();
            s.append(" (");
            s.append(server.name.as_str());
            s.append(")");
            enabled.push(s);
            assert(texts(enabled@) =~= texts(before).push(s@));
        }
        i += 1;
    }
    assert(m.subrange(0, m.len() as int) =~= m);
    let h = join(&enabled, ", ");
    let mut message = error.message();
    if !h.as_str().is_empty() {
        message.append("\n可用 server: ");
        message.append(h.as_str());
    }
    message
}

/// The servers of a selection, in order.
pub fn selected_servers<'a>(selected: ResolvedSelection<'a>) -> (r: Vec<&'a ServerConfig>)
    ensures
        match selected {
            ResolvedSelection::One(s) => r@ == seq![s],
            ResolvedSelection::All(v) => r@ == v@,
        },
{
    match selected {
        ResolvedSelection::One(server) => {
            let mut v: Vec<&'a ServerConfig> = Vec::new();
            v.push(server);
            assert(v@ =~= seq![server]);
            v
        },
        ResolvedSelection::All(servers) => servers,
    }
}

// ---------------------------------------------------------------------------
// Lists
// ---------------------------------------------------------------------------

pub open spec fn list_timer_text(s: ServerModel) -> Seq<char> {
    match s.timer {
        Some(t) => if t.enabled {
            match t.cron {
                Some(c) => c,
                None => "未设置 cron"@,
            }
        } else {
            "未启用"@
        },
        None => "未启用"@,
    }
}

pub open spec fn list_line(s: ServerModel) -> Seq<char> {
    "  "@ + s.id + " | "@ + s.name + " | "@ + (if s.enabled {
        "enabled"@
    } else {
        "disabled"@
    }) + " | timer: "@ + list_timer_text(s) + "\n"@
}

/// The lines about all servers, one after the other.
pub open spec fn concat(lines: Seq<Seq<char>>) -> Seq<char>
    decreases lines.len(),
{
    if lines.len() == 0 {
        Seq::empty()
    } else {
        concat(lines.drop_last()) + lines.last()
    }
}

pub open spec fn list_text(config: ConfigModel) -> Seq<char> {
    "VPS 列表\n\n"@ + concat(
        Seq::new(config.servers.len(), |i: int| list_line(config.servers[i])),
    )
}

fn server_list_line(server: &ServerConfig) -> (r: String)
    ensures
        r@ == list_line(server@),
{
    let timer: &str = match &server.timer {
        Some(t) => if t.enabled {
            match &t.cron {
                Some(c) => c.as_str(),
                None => "未设置 cron",
            }
        } else {
            "未启用"
        },
        None => "未启用",
    };
    let state: &str = if server.enabled {
        "enabled"
    } else {
        "disabled"
    };
    let mut r = "  ".to_owned();
    r.append(server.id.as_str());
    r.append(" | ");
    r.append(server.name.as_str());
    r.append(" | ");
    r.append(state);
    r.append(" | timer: ");
    r.append(timer);
    r.append("\n");
    r
}

/// The list of servers. It shows ids, names, states and timers, but no token.
pub fn cmd_servers_list(config: &AppConfig) -> (r: Result<String, String>)
    ensures
        match r {
            Ok(t) => not_ready_text(config@) is None && t@ == list_text(config@),
            Err(m) => not_ready_text(config@) == Some(m@),
        },
{
    match ensure_new_config_ready(config) {
        Ok(_) => {},
        Err(m) => return Err(m),
    }
    let mut r = "VPS 列表\n\n".to_owned();
    let ghost head = r@;
    let ghost ls = Seq::new(config@.servers.len(), |i: int| list_line(config@.servers[i]));
    let mut i: usize = 0;
    assert(head + concat(ls.subrange(0, 0)) =~= head);
    while i < config.servers.len()
        invariant
            i <= config.servers@.len(),
            ls == Seq::new(config@.servers.len(), |i: int| list_line(config@.servers[i])),
            r@ == head + concat(ls.subrange(0, i as int)),
        decreases config.servers@.len() - i,
    {
        let line = server_list_line(&config.servers[i]);
        let ghost t = ls.subrange(0, i + 1);
        assert(t.drop_last() =~= ls.subrange(0, i as int));
        assert(t.last() == line@);
        let ghost before = r@;
        r.append(line.as_str());
        assert(before + line@ =~= head + concat(t));
        i += 1;
    }
    assert(ls.subrange(0, ls.len() as int) =~= ls);
    Ok(r)
}

pub open spec fn timer_line(s: ServerModel) -> Seq<char> {
    "  "@ + s.name + " ("@ + s.id + ") | "@ + (match s.timer {
        Some(t) => if t.enabled {
            match t.cron {
                Some(c) => "enabled | "@ + c,
                None => "enabled | cron 未设置"@,
            }
        } else {
            "disabled"@
        },
        None => "disabled"@,
    }) + "\n"@
}

pub open spec fn timers_text(config: ConfigModel) -> Seq<char> {
    "定时换 IP 配置\n\n"@ + concat(
        Seq::new(config.servers.len(), |i: int| timer_line(config.servers[i])),
    ) + "\n请在 BOIL_SERVERS 中为每台 VPS 配置 timer.enabled 和 timer.cron。\n"@
}

fn server_timer_line(server: &ServerConfig) -> (r: String)
    ensures
        r@ == timer_line(server@),
{
    let summary = match &server.timer {
        Some(t) => if t.enabled {
            match &t.cron {
                Some(c) => {
                    let mut s = "enabled | ".to_owned();
                    s.append(c.as_str());
                    s
                },
                None => "enabled | cron 未设置".to_owned(),
            }
        } else {
            "disabled".to_owned()
        },
        None => "disabled".to_owned(),
    };
    let mut r = "  ".to_owned();
    r.append(server.name.as_str());
    r.append(" (");
    r.append(server.id.as_str());
    r.append(") | ");
    r.append(summary.as_str());
    r.append("\n");
    r
}

/// The list of timers.
pub fn cmd_timer(config: &AppConfig) -> (r: Result<String, String>)
    ensures
        match r {
            Ok(t) => not_ready_text(config@) is None && t@ == timers_text(config@),
            Err(m) => not_ready_text(config@) == Some(m@),
        },
{
    match ensure_new_config_ready(config) {
        Ok(_) => {},
        Err(m) => return Err(m),
    }
    let mut r = "定时换 IP 配置\n\n".to_owned();
    let ghost head = r@;
    let ghost ls = Seq::new(config@.servers.len(), |i: int| timer_line(config@.servers[i]));
    let mut i: usize = 0;
    assert(head + concat(ls.subrange(0, 0)) =~= head);
    while i < config.servers.len()
        invariant
            i <= config.servers@.len(),
            ls == Seq::new(config@.servers.len(), |i: int| timer_line(config@.servers[i])),
            r@ == head + concat(ls.subrange(0, i as int)),
        decreases config.servers@.len() - i,
    {
        let line = server_timer_line(&config.servers[i]);
        let ghost t = ls.subrange(0, i + 1);
        assert(t.drop_last() =~= ls.subrange(0, i as int));
        assert(t.last() == line@);
        let ghost before = r@;
        r.append(line.as_str());
        assert(before + line@ =~= head + concat(t));
        i += 1;
    }
    assert(ls.subrange(0, ls.len() as int) =~= ls);
    r.append("\n请在 BOIL_SERVERS 中为每台 VPS 配置 timer.enabled 和 timer.cron。\n");
    Ok(r)
}

// ---------------------------------------------------------------------------
// Status and quality
// ---------------------------------------------------------------------------

/// The lists show nothing of the secrets: they are the same whatever the secrets are.
pub proof fn lists_hide_secrets(a: ConfigModel, b: ConfigModel)
    requires
        same_but_secrets(a, b),
    ensures
        list_text(a) == list_text(b),
        timers_text(a) == timers_text(b),
{
    assert forall|i: int| 0 <= i < a.servers.len() implies list_line(a.servers[i]) == list_line(
        b.servers[i],
    ) && timer_line(a.servers[i]) == timer_line(b.servers[i]) by {
        assert(alike(a.servers[i], b.servers[i]));
    }
    assert(Seq::new(a.servers.len(), |i: int| list_line(a.servers[i])) =~= Seq::new(
        b.servers.len(),
        |i: int| list_line(b.servers[i]),
    ));
    assert(Seq::new(a.servers.len(), |i: int| timer_line(a.servers[i])) =~= Seq::new(
        b.servers.len(),
        |i: int| timer_line(b.servers[i]),
    ));
}

/// What is printed about the address of a server.
pub fn status_entry(server: &ServerConfig, reply: &Result<GetIpResponse, BoilApiError>) -> (r:
    String)
    ensures
        r@ == (match reply {
            Ok(g) => "  "@ + server@.name + " ("@ + server@.id + ")\n  IP: "@ + g.ip@ + "\n\n"@,
            Err(e) => "  "@ + server@.name + " ("@ + server@.id + ")\n  查询失败: "@
                + api_error_text(*e) + "\n\n"@,
        }),
{
    let mut r = "  ".to_owned();
    r.append(server.name.as_str());
    r.append(" (");
    r.append(server.id.as_str());
    match reply {
        Ok(g) => {
            r.append(")\n  IP: ");
            r.append(g.ip.text.as_str());
        },
        Err(e) => {
            r.append(")\n  查询失败: ");
            r.append(e.text().as_str());
        },
    }
    r.append("\n\n");
    r
}

/// What is printed about a server whose address is not known.
pub fn check_failed_entry(server: &ServerConfig, error: &BoilApiError) -> (r: String)
    ensures
        r@ == "📍 "@ + server@.name + " ("@ + server@.id + ")\n   API 查询失败: "@ + api_error_text(
            *error,
        ) + "\n\n"@,
{
    let mut r = "📍 ".to_owned();
    r.append(server.name.as_str());
    r.append(" (");
    r.append(server.id.as_str());
    r.append(")\n   API 查询失败: ");
    r.append(error.text().as_str());
    r.append("\n\n");
    r
}

pub open spec fn quality_text(q: Option<IpQuality>) -> Seq<char> {
    match q {
        Some(q) => "   地区: "@ + q.country@ + " | ISP: "@ + q.isp@ + "\n   类型: "@ + (
        if q.is_proxy {
            "代理 ❌"@
        } else if q.is_hosting {
            "机房 ⚠️"@
        } else {
            "住宅 ✅"@
        }) + " | CF 风险: "@ + (if q.is_proxy || q.is_hosting {
            "高 ⚠️"@
        } else {
            "低 ✅"@
        }) + "\n"@,
        None => "   IP 质量检测失败\n"@,
    }
}

/// What is printed about the quality of an address.
pub fn check_entry(server: &ServerConfig, ip: &IpAddress, reachable: bool, quality: &Option<
    IpQuality,
>) -> (r: String)
    ensures
        r@ == "📍 "@ + server@.name + " ("@ + server@.id + ")\n   IP: "@ + ip@ + "  "@ + (
        if reachable {
            "TCP 可达 ✅"@
        } else {
            "TCP 未通 ⚠️"@
        }) + "\n"@ + quality_text(*quality) + "\n"@,
{
    let mut r = "📍 ".to_owned();
    r.append(server.name.as_str());
    r.append(" (");
    r.append(server.id.as_str());
    r.append(")\n   IP: ");
    r.append(ip.text.as_str());
    r.append("  ");
    r.append(
        if reachable {
            "TCP 可达 ✅"
        } else {
            "TCP 未通 ⚠️"
        },
    );
    r.append("\n");
    let q = match quality {
        Some(q) => {
            let mut t = "   地区: ".to_owned();
            t.append(q.country.as_str());
            t.append(" | ISP: ");
            t.append(q.isp.as_str());
            t.append("\n   类型: ");
            t.append(q.ip_type());
            t.append(" | CF 风险: ");
            t.append(q.cf_risk());
            t.append("\n");
            t
        },
        None => "   IP 质量检测失败\n".to_owned(),
    };
    r.append(q.as_str());
    r.append("\n");
    r
}

/// Whether this machine has one of the addresses; `local` is its own, where it is known.
pub fn runs_on_boil_vps(local: &Option<IpAddress>, ips: &Vec<IpAddress>) -> (r: bool)
    ensures
        r == (local matches Some(l) && exists|i: int|
            0 <= i < ips@.len() && (#[trigger] ips@[i])@ == l@),
{
    match local {
        None => false,
        Some(l) => {
            let mut i: usize = 0;
            while i < ips.len()
                invariant
                    i <= ips@.len(),
                    *local == Some(*l),
                    forall|k: int| 0 <= k < i ==> (#[trigger] ips@[k])@ != l@,
                decreases ips@.len() - i,
            {
                if ips[i].same(l) {
                    return true;
                }
                i += 1;
            }
            false
        },
    }
}

/// The servers that a command is about, or what is said instead.
pub open spec fn asked_servers(config: ConfigModel, server: Option<Seq<char>>, all: bool) -> Result<
    Seq<ServerModel>,
    Seq<char>,
> {
    match not_ready_text(config) {
        Some(text) => Err(text),
        None => if server is Some && all {
            Err("--server 和 --all 不能同时使用"@)
        } else if all {
            if enabled_models(config.servers).len() == 0 {
                Err(hinted(config, fault_text(ConfigFault::NoEnabledServer)))
            } else {
                Ok(enabled_models(config.servers))
            }
        } else {
            match chosen(config.servers, server) {
                Ok(s) => Ok(seq![s]),
                Err(f) => Err(hinted(config, fault_text(f))),
            }
        },
    }
}

/// The servers whose state is shown, or that are checked.
pub fn servers_for_command<'a>(config: &'a AppConfig, server: Option<&str>, all: bool) -> (r: Result<
    Vec<&'a ServerConfig>,
    String,
>)
    ensures
        match asked_servers(
            config@,
            match server {
                Some(id) => Some(id@),
                None => None,
            },
            all,
        ) {
            Ok(servers) => r is Ok && r->Ok_0@.len() == servers.len() && forall|i: int|
                0 <= i < servers.len() ==> (#[trigger] r->Ok_0@[i])@ == servers[i],
            Err(text) => r is Err && r->Err_0@ == text,
        },
{
    match ensure_new_config_ready(config) {
        Ok(_) => {},
        Err(text) => return Err(text),
    }
    let selection = match selection_from_args(server, all) {
        Ok(selection) => selection,
        Err(text) => return Err(text),
    };
    if !all {
        return match choose_server(config, server) {
            Ok(s) => {
                let mut v: Vec<&ServerConfig> = Vec::new();
                v.push(s);
                Ok(v)
            },
            Err(e) => Err(with_server_hint(config, &e)),
        };
    }
    proof {
        lemma_enabled_models(config.servers@);
        let e = enabled_of(config.servers@);
        assert(server_models(e).len() == e.len());
        assert forall|i: int| 0 <= i < e.len() implies server_models(e)[i] == (#[trigger] e[i])@ by {}
    }
    match config.resolve_servers(selection) {
        Ok(selected) => Ok(selected_servers(selected)),
        Err(e) => Err(with_server_hint(config, &e)),
    }
}

proof fn lemma_contains_within(a: Seq<char>, b: Seq<char>, c: Seq<char>, p: Seq<char>)
    requires
        contains_text(b, p),
    ensures
        contains_text(a + b + c, p),
{
    let i = choose|i: int| 0 <= i <= b.len() && starts_with(#[trigger] rest(b, i), p);
    let whole = a + b + c;
    let j = a.len() + i;
    assert(rest(whole, j) =~= rest(b, i) + c);
    assert(rest(whole, j).subrange(0, p.len() as int) =~= rest(b, i).subrange(0, p.len() as int));
    assert(starts_with(rest(whole, j), p));
}

proof fn lemma_joined_contains(parts: Seq<Seq<char>>, sep: Seq<char>, i: int)
    requires
        0 <= i < parts.len(),
    ensures
        contains_text(joined(parts, sep), parts[i]),
    decreases parts.len(),
{
    let p = parts[i];
    assert(contains_text(p, p)) by {
        assert(rest(p, 0) =~= p);
        assert(starts_with(rest(p, 0), p));
    }
    if parts.len() > 1 {
        let before = joined(parts.drop_last(), sep);
        if i == parts.len() - 1 {
            lemma_contains_within(before + sep, p, Seq::empty(), p);
            assert(before + sep + p + Seq::<char>::empty() =~= joined(parts, sep));
        } else {
            lemma_joined_contains(parts.drop_last(), sep, i);
            lemma_contains_within(Seq::empty(), before, sep + parts.last(), p);
            assert(Seq::<char>::empty() + before + (sep + parts.last()) =~= joined(parts, sep));
        }
    }
}

proof fn lemma_hint(servers: Seq<ServerModel>, i: int) -> (k: int)
    requires
        0 <= i < servers.len(),
        servers[i].enabled,
    ensures
        0 <= k < hints(servers).len(),
        hints(servers)[k] == server_hint(servers[i]),
    decreases servers.len(),
{
    if i == servers.len() - 1 {
        hints(servers).len() - 1
    } else {
        lemma_hint(servers.drop_last(), i)
    }
}

proof fn lemma_more_hints(servers: Seq<ServerModel>)
    ensures
        enabled_models(servers).len() == hints(servers).len(),
        hints(servers).len() <= servers.len(),
    decreases servers.len(),
{
    if servers.len() > 0 {
        lemma_more_hints(servers.drop_last());
    }
}

/// Where several servers are enabled and none is named, a command chooses none of them:
/// it names every server that could be meant.
pub proof fn several_servers_need_a_choice(config: ConfigModel, i: int)
    requires
        enabled_models(config.servers).len() > 1,
        0 <= i < config.servers.len(),
        config.servers[i].enabled,
    ensures
        asked_servers(config, None, false) matches Err(text) && contains_text(
            text,
            server_hint(config.servers[i]),
        ),
{
    lemma_more_hints(config.servers);
    let hs = hints(config.servers);
    let k = lemma_hint(config.servers, i);
    lemma_joined_contains(hs, ", "@, k);
    let h = joined(hs, ", "@);
    reveal_strlit(", ");
    assert(h.len() > 0);
    let message = fault_text(ConfigFault::SelectionRequired);
    lemma_contains_within(
        message + "\n可用 server: "@,
        h,
        Seq::empty(),
        server_hint(config.servers[i]),
    );
    assert(message + "\n可用 server: "@ + h + Seq::<char>::empty() =~= message
        + "\n可用 server: "@ + h);
}

/// With one enabled server a command needs no name.
pub proof fn one_server_needs_no_name(config: ConfigModel)
    requires
        enabled_models(config.servers).len() == 1,
    ensures
        asked_servers(config, None, false) == Ok::<_, Seq<char>>(enabled_models(config.servers)),
{
    lemma_more_hints(config.servers);
    assert(seq![enabled_models(config.servers)[0]] =~= enabled_models(config.servers));
}

/// A command is about all enabled servers where `--all` is given, about the named one where a
/// name is given, else about the only enabled one. The two options exclude one another, and
/// without any server there is nothing to ask for.
pub proof fn options_name_their_servers(config: ConfigModel, id: Seq<char>, i: int)
    ensures
        config.servers.len() == 0 ==> asked_servers(config, None, false) is Err && asked_servers(
            config,
            Some(id),
            false,
        ) is Err && asked_servers(config, None, true) is Err,
        config.servers.len() > 0 ==> {
            let enabled = config.servers.filter(|s: ServerModel| s.enabled);
            &&& asked_servers(config, Some(id), true) == Err::<Seq<ServerModel>, _>(
                "--server 和 --all 不能同时使用"@,
            )
            &&& enabled.len() > 0 ==> asked_servers(config, None, true) == Ok::<_, Seq<char>>(
                enabled,
            )
            &&& enabled.len() == 0 ==> asked_servers(config, None, true) is Err
            &&& stands_first(config.servers, id, i) && config.servers[i].enabled ==> asked_servers(
                config,
                Some(id),
                false,
            ) == Ok::<_, Seq<char>>(seq![config.servers[i]])
            &&& stands_first(config.servers, id, i) && !config.servers[i].enabled
                ==> asked_servers(config, Some(id), false) is Err
            &&& (forall|j: int|
                0 <= j < config.servers.len() ==> (#[trigger] config.servers[j]).id != id)
                ==> asked_servers(config, Some(id), false) is Err
            &&& 0 <= i < config.servers.len() && config.servers[i].enabled && (forall|k: int|
                0 <= k < config.servers.len() && (#[trigger] config.servers[k]).enabled ==> k == i)
                ==> asked_servers(config, None, false) == Ok::<_, Seq<char>>(
                seq![config.servers[i]],
            )
        },
{
    selection_stands_for_servers(config.servers, ServerSelection::All);
    name_means_its_server(config.servers, id, i);
    one_enabled_server_needs_no_name(config.servers, i, i);
}

proof fn lemma_concat_contains(lines: Seq<Seq<char>>, i: int)
    requires
        0 <= i < lines.len(),
    ensures
        contains_text(concat(lines), lines[i]),
    decreases lines.len(),
{
    let p = lines[i];
    let before = concat(lines.drop_last());
    if i == lines.len() - 1 {
        assert(rest(p, 0) =~= p);
        assert(starts_with(rest(p, 0), p));
        lemma_contains_within(before, p, Seq::empty(), p);
        assert(before + p + Seq::<char>::empty() =~= concat(lines));
    } else {
        lemma_concat_contains(lines.drop_last(), i);
        lemma_contains_within(Seq::empty(), before, lines.last(), p);
        assert(Seq::<char>::empty() + before + lines.last() =~= concat(lines));
    }
}

/// The lists have a line for every server, with its id, its name, its state and its timer.
pub proof fn lists_have_every_server(config: ConfigModel, i: int)
    requires
        0 <= i < config.servers.len(),
    ensures
        ({
            let s = config.servers[i];
            let timer = match s.timer {
                Some(t) => if t.enabled {
                    t.cron
                } else {
                    None
                },
                None => None,
            };
            &&& not_ready_text(config) is None
            &&& timer matches Some(cron) ==> contains_text(
                list_text(config),
                "  "@ + s.id + " | "@ + s.name + " | "@ + (if s.enabled {
                    "enabled"@
                } else {
                    "disabled"@
                }) + " | timer: "@ + cron + "\n"@,
            )
            &&& timer matches Some(cron) ==> contains_text(
                timers_text(config),
                "  "@ + s.name + " ("@ + s.id + ") | "@ + ("enabled | "@ + cron) + "\n"@,
            )
            &&& !(s.timer matches Some(t) && t.enabled) ==> contains_text(
                list_text(config),
                "  "@ + s.id + " | "@ + s.name + " | "@ + (if s.enabled {
                    "enabled"@
                } else {
                    "disabled"@
                }) + " | timer: "@ + "未启用"@ + "\n"@,
            )
            &&& !(s.timer matches Some(t) && t.enabled) ==> contains_text(
                timers_text(config),
                "  "@ + s.name + " ("@ + s.id + ") | "@ + "disabled"@ + "\n"@,
            )
        }),
{
    let s = config.servers[i];
    let a = Seq::new(config.servers.len(), |i: int| list_line(config.servers[i]));
    let b = Seq::new(config.servers.len(), |i: int| timer_line(config.servers[i]));
    lemma_concat_contains(a, i);
    lemma_concat_contains(b, i);
    lemma_contains_within("VPS 列表\n\n"@, concat(a), Seq::empty(), a[i]);
    assert("VPS 列表\n\n"@ + concat(a) + Seq::<char>::empty() =~= list_text(config));
    let foot = "\n请在 BOIL_SERVERS 中为每台 VPS 配置 timer.enabled 和 timer.cron。\n"@;
    lemma_contains_within("定时换 IP 配置\n\n"@, concat(b), foot, b[i]);
    assert(a[i] == list_line(s));
    assert(b[i] == timer_line(s));
}

/// The list of results has the text of every result.
pub proof fn every_result_is_printed(results: Seq<ResultModel>, i: int)
    requires
        0 <= i < results.len(),
    ensures
        contains_text(batch_result_text(results), result_text(results[i])),
{
    let ls = Seq::new(results.len(), |i: int| result_text(results[i]));
    lemma_concat_contains(ls, i);
    assert(ls[i] == result_text(results[i]));
    let head = "换 IP 结果: success="@ + decimal(count_status(results, ReconnectStatus::Success))
        + " unconfirmed="@ + decimal(
        count_status(results, ReconnectStatus::ChangeAcceptedButUnconfirmed),
    ) + " failed="@ + decimal(failures(results)) + "\n\n"@;
    lemma_contains_within(head, concat(ls), Seq::empty(), ls[i]);
    assert(head + concat(ls) + Seq::<char>::empty() =~= batch_result_text(results));
}

// ---------------------------------------------------------------------------
// Results
// ---------------------------------------------------------------------------

pub open spec fn status_word(status: ReconnectStatus) -> Seq<char> {
    match status {
        ReconnectStatus::Success => "成功"@,
        ReconnectStatus::Disabled => "已禁用"@,
        ReconnectStatus::PreflightFailed => "预检查失败"@,
        ReconnectStatus::RateLimited => "频率限制"@,
        ReconnectStatus::ApiRejected => "API 拒绝"@,
        ReconnectStatus::ChangeAcceptedButUnconfirmed => "已接受但未确认"@,
        ReconnectStatus::InvalidResponse => "响应无效"@,
    }
}

pub fn status_text(status: &ReconnectStatus) -> (r: &'static str)
    ensures
        r@ == status_word(*status),
{
    match status {
        ReconnectStatus::Success => "成功",
        ReconnectStatus::Disabled => "已禁用",
        ReconnectStatus::PreflightFailed => "预检查失败",
        ReconnectStatus::RateLimited => "频率限制",
        ReconnectStatus::ApiRejected => "API 拒绝",
        ReconnectStatus::ChangeAcceptedButUnconfirmed => "已接受但未确认",
        ReconnectStatus::InvalidResponse => "响应无效",
    }
}

pub open spec fn result_text(r: ResultModel) -> Seq<char> {
    r.server_name + " ("@ + r.server_id + ")\n  状态: "@ + status_word(r.status) + "\n"@ + opt_part(
        "  旧 IP: "@,
        r.old_ip,
        "\n"@,
    ) + opt_part("  新 IP: "@, r.new_ip, "\n"@) + opt_part(
        "  剩余次数: "@,
        crate::timer::message::uses_text(r.uses_left),
        "\n"@,
    ) + opt_part(
        "  下次允许时间: "@,
        match r.next_allowed_at {
            Some(t) => Some(decimal_int(t as int)),
            None => None,
        },
        " (Unix)\n"@,
    ) + opt_part("  信息: "@, r.message, "\n"@) + "\n"@
}

/// What is printed about one result.
pub fn print_reconnect_result(result: &ReconnectResult) -> (r: String)
    ensures
        r@ == result_text(result@),
{
    let mut r = result.server_name.clone();
    r.append(" (");
    r.append(result.server_id.as_str());
    r.append(")\n  状态: ");
    r.append(status_text(&result.status));
    r.append("\n");
    let old_ip = match &result.old_ip {
        Some(ip) => Some(ip.text.as_str()),
        None => None,
    };
    append_part(&mut r, "  旧 IP: ", old_ip, "\n");
    let new_ip = match &result.new_ip {
        Some(ip) => Some(ip.text.as_str()),
        None => None,
    };
    append_part(&mut r, "  新 IP: ", new_ip, "\n");
    match result.uses_left {
        Some(n) => {
            let d = decimal_text(n as u64);
            append_part(&mut r, "  剩余次数: ", Some(d.as_str()), "\n");
        },
        None => {
            append_part(&mut r, "  剩余次数: ", None, "\n");
        },
    }
    match result.next_allowed_at {
        Some(t) => {
            let d = decimal_int_text(t);
            append_part(&mut r, "  下次允许时间: ", Some(d.as_str()), " (Unix)\n");
        },
        None => {
            append_part(&mut r, "  下次允许时间: ", None, " (Unix)\n");
        },
    }
    let message = match &result.message {
        Some(m) => Some(m.as_str()),
        None => None,
    };
    append_part(&mut r, "  信息: ", message, "\n");
    r.append("\n");
    r
}

pub open spec fn batch_result_text(results: Seq<ResultModel>) -> Seq<char> {
    "换 IP 结果: success="@ + decimal(count_status(results, ReconnectStatus::Success))
        + " unconfirmed="@ + decimal(
        count_status(results, ReconnectStatus::ChangeAcceptedButUnconfirmed),
    ) + " failed="@ + decimal(failures(results)) + "\n\n"@ + concat(
        Seq::new(results.len(), |i: int| result_text(results[i])),
    )
}

/// What is printed about several results.
pub fn print_batch_result(batch: &BatchReconnectResult) -> (r: String)
    ensures
        r@ == batch_result_text(result_models(batch.results@)),
{
    let ghost m = result_models(batch.results@);
    proof {
        lemma_counts(m);
    }
    let mut r = "换 IP 结果: success=".to_owned();
    r.append(decimal_text(batch.success_count() as u64).as_str());
    r.append(" unconfirmed=");
    r.append(decimal_text(batch.unconfirmed_count() as u64).as_str());
    r.append(" failed=");
    r.append(decimal_text(batch.failure_count() as u64).as_str());
    r.append("\n\n");
    let ghost head = r@;
    let ghost ls = Seq::new(m.len(), |i: int| result_text(m[i]));
    let mut i: usize = 0;
    assert(head + concat(ls.subrange(0, 0)) =~= head);
    while i < batch.results.len()
        invariant
            i <= batch.results@.len(),
            m == result_models(batch.results@),
            ls == Seq::new(m.len(), |i: int| result_text(m[i])),
            r@ == head + concat(ls.subrange(0, i as int)),
        decreases batch.results@.len() - i,
    {
        let line = print_reconnect_result(&batch.results[i]);
        let ghost t = ls.subrange(0, i + 1);
        assert(t.drop_last() =~= ls.subrange(0, i as int));
        assert(t.last() == line@);
        let ghost before = r@;
        r.append(line.as_str());
        assert(before + line@ =~= head + concat(t));
        i += 1;
    }
    assert(ls.subrange(0, ls.len() as int) =~= ls);
    r
}

// ---------------------------------------------------------------------------
// The daemon
// ---------------------------------------------------------------------------

/// What the daemon runs.
#[derive(Clone, Copy, Debug, PartialEq, Eq, Structural)]
pub enum DaemonMode {
    Bot,
    Timer,
}

/// Some enabled server has an active timer.
pub open spec fn has_server_timer(config: ConfigModel) -> bool {
    exists|i: int|
        0 <= i < config.servers.len() && (#[trigger] config.servers[i]).enabled && is_active(
            config.servers[i].timer,
        )
}

/// The daemon runs the bot where there is a bot token, and otherwise the timers: the
/// global one or those of the servers. Without any of them it has nothing to do.
pub fn daemon_mode(config: &AppConfig) -> (r: Result<DaemonMode, String>)
    ensures
        if config@.tg_token is Some {
            r == Ok::<_, String>(DaemonMode::Bot)
        } else if is_active(config@.global_timer) || has_server_timer(config@) {
            r == Ok::<_, String>(DaemonMode::Timer)
        } else {
            r matches Err(m) && m@
                == "守护进程无事可做：请配置 Telegram Bot 或 BOIL_SERVERS 中的 timer"@
        },
{
    if config.has_tg() {
        return Ok(DaemonMode::Bot);
    }
    match &config.global_timer {
        Some(t) => {
            if t.enabled && t.cron.is_some() {
                return Ok(DaemonMode::Timer);
            }
        },
        None => {},
    }
    let mut i: usize = 0;
    while i < config.servers.len()
        invariant
            i <= config.servers@.len(),
            config.tg_token is None,
            !is_active(config@.global_timer),
            forall|k: int|
                0 <= k < i ==> !((#[trigger] config@.servers[k]).enabled && is_active(
                    config@.servers[k].timer,
                )),
        decreases config.servers@.len() - i,
    {
        let server = &config.servers[i];
        assert(config@.servers[i as int] == server@);
        if server.enabled {
            match &server.timer {
                Some(t) => {
                    if t.enabled && t.cron.is_some() {
                        assert(config@.servers[i as int].enabled);
                        return Ok(DaemonMode::Timer);
                    }
                },
                None => {},
            }
        }
        i += 1;
    }
    Err("守护进程无事可做：请配置 Telegram Bot 或 BOIL_SERVERS 中的 timer".to_owned())
}

/// The daemon has a timer to run exactly where there is a job to schedule.
pub proof fn timers_to_run_have_jobs(config: ConfigModel)
    ensures
        is_active(config.global_timer) || has_server_timer(config) <==> jobs_of(config).len() > 0,
{
    if is_active(config.global_timer) {
        timers_have_their_jobs(config, config.global_timer->Some_0.cron->Some_0, 0);
    }
    if has_server_timer(config) {
        let i = choose|i: int|
            0 <= i < config.servers.len() && (#[trigger] config.servers[i]).enabled && is_active(
                config.servers[i].timer,
            );
        timers_have_their_jobs(config, config.servers[i].timer->Some_0.cron->Some_0, i);
    }
    if jobs_of(config).len() > 0 {
        jobs_belong_to_timers(config, 0);
    }
}

/// What the menu offers.
#[derive(Clone, Copy, Debug, PartialEq, Eq, Structural)]
pub enum MenuChoice {
    Status,
    Check,
    Change,
    Servers,
    Timer,
    /// The setup, after which the menu is left.
    Setup,
    Quit,
}

/// The lines of the menu.
pub fn menu_items() -> (r: Vec<&'static str>)
    ensures
        r@.len() == 7,
        r@[0]@ == "📡  status   查看当前 IP"@,
        r@[1]@ == "🔍  check    检查 IP 质量和流媒体解锁"@,
        r@[2]@ == "🔄  change   换 IP"@,
        r@[3]@ == "🖥️   servers  查看 VPS 列表"@,
        r@[4]@ == "⏰  timer    查看定时换 IP"@,
        r@[5]@ == "⚙️   setup    重新配置"@,
        r@[6]@ == "❌  退出"@,
{
    let mut r: Vec<&'static str> = Vec::new();
    r.push("📡  status   查看当前 IP");
    r.push("🔍  check    检查 IP 质量和流媒体解锁");
    r.push("🔄  change   换 IP");
    r.push("🖥️   servers  查看 VPS 列表");
    r.push("⏰  timer    查看定时换 IP");
    r.push("⚙️   setup    重新配置");
    r.push("❌  退出");
    r
}

/// What the line with this number stands for.
pub fn menu_choice(index: usize) -> (r: MenuChoice)
    ensures
        r == (if index == 0 {
            MenuChoice::Status
        } else if index == 1 {
            MenuChoice::Check
        } else if index == 2 {
            MenuChoice::Change
        } else if index == 3 {
            MenuChoice::Servers
        } else if index == 4 {
            MenuChoice::Timer
        } else if index == 5 {
            MenuChoice::Setup
        } else {
            MenuChoice::Quit
        }),
{
    match index {
        0 => MenuChoice::Status,
        1 => MenuChoice::Check,
        2 => MenuChoice::Change,
        3 => MenuChoice::Servers,
        4 => MenuChoice::Timer,
        5 => MenuChoice::Setup,
        _ => MenuChoice::Quit,
    }
}

} // verus!
