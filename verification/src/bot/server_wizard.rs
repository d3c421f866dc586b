//! Adding a server.

use vstd::prelude::*;
use crate::bot::formatting::{
    display_parts, escaped, format_server_display_parts, host_of, html_escape,
    normalize_server_address, AddressMetadata,
};
use crate::bot::server_edit::SaveOutcome;
use crate::bot::state::{
    later_by, pruned, taken, Instant, ServerWizardStep, ServerWizardStore, StepModel,
    SERVER_WIZARD_TTL_SECS,
};
use crate::bot::ui::{html, plain, Reply, ReplyModel};
use crate::config::{
    is_id_char, server_models, valid_id, valid_server, valid_servers, AppConfig, SecretToken,
    ServerConfig, ServerModel,
};
use crate::number::{
    decimal, decimal_reads_back, decimal_text, lemma_decimal_digits, parse_unsigned,
    parsed_unsigned,
};
use crate::server_manage::with_servers;
use crate::text::{
    contains_text, is_blank, is_digit, opt_text, rest, starts_with, strip_prefix, trim, trimmed,
};
use crate::timer::TimerManager;

verus! {

// ---------------------------------------------------------------------------
// Ids
// ---------------------------------------------------------------------------

/// The number in an id that was given to a server that was added; nought for other ids.
pub open spec fn id_number(id: Seq<char>) -> nat {
    if starts_with(id, "server-"@) {
        match parsed_unsigned(rest(id, "server-"@.len() as int), u32::MAX as nat) {
            Some(n) => n,
            None => 0,
        }
    } else {
        0
    }
}

/// The largest of these numbers.
pub open spec fn largest_number(servers: Seq<ServerModel>) -> nat
    decreases servers.len(),
{
    if servers.len() == 0 {
        0
    } else {
        let n = largest_number(servers.drop_last());
        let m = id_number(servers.last().id);
        if m > n {
            m
        } else {
            n
        }
    }
}

pub fn largest_server_number(config: &AppConfig) -> (r: u32)
    ensures
        r == largest_number(config@.servers),
{
    let mut n: u32 = 0;
    let mut i: usize = 0;
    let ghost m = config@.servers;
    while i < config.servers.len()
        invariant
            i <= config.servers@.len(),
            m == config@.servers,
            n == largest_number(m.subrange(0, i as int)),
        decreases config.servers@.len() - i,
    {
        let ghost t = m.subrange(0, i + 1);
        assert(t.drop_last() =~= m.subrange(0, i as int));
        assert(t.last() == config.servers@[i as int]@);
        match strip_prefix(config.servers[i].id.as_str(), "server-") {
            Some(number) => match parse_unsigned(number.as_str(), u32::MAX as u64) {
                Some(k) => if k > n as u64 {
                    n = k as u32;
                },
                None => {},
            },
            None => {},
        }
        i += 1;
    }
    assert(m.subrange(0, m.len() as int) =~= m);
    n
}

/// The id that the next server gets.
pub open spec fn next_id(servers: Seq<ServerModel>) -> Seq<char> {
    "server-"@ + decimal(largest_number(servers) + 1)
}

pub fn next_server_id(config: &AppConfig) -> (r: String)
    requires
        largest_number(config@.servers) < u32::MAX,
    ensures
        r@ == next_id(config@.servers),
{
    let n: u32 = largest_server_number(config);
    let mut r = "server-".to_owned();
    r.append(decimal_text(n as u64 + 1).as_str());
    r
}

proof fn lemma_largest(servers: Seq<ServerModel>, i: int)
    requires
        0 <= i < servers.len(),
    ensures
        id_number(servers[i].id) <= largest_number(servers),
    decreases servers.len(),
{
    if i < servers.len() - 1 {
        lemma_largest(servers.drop_last(), i);
        assert(servers.drop_last()[i] == servers[i]);
    }
}

proof fn lemma_next_number(n: nat)
    requires
        n <= u32::MAX,
    ensures
        id_number("server-"@ + decimal(n)) == n,
{
    let p = "server-"@;
    let id = p + decimal(n);
    assert(id.subrange(0, p.len() as int) =~= p);
    assert(rest(id, p.len() as int) =~= decimal(n));
    decimal_reads_back(n, u32::MAX as nat);
}

/// No server has the id that the next one gets.
pub proof fn next_id_is_new(servers: Seq<ServerModel>)
    requires
        largest_number(servers) < u32::MAX,
    ensures
        forall|i: int| 0 <= i < servers.len() ==> (#[trigger] servers[i]).id != next_id(servers),
{
    lemma_next_number(largest_number(servers) + 1);
    assert forall|i: int| 0 <= i < servers.len() implies (#[trigger] servers[i]).id != next_id(
        servers,
    ) by {
        lemma_largest(servers, i);
    }
}

/// The ids of added servers are counted on: the first one is `server-1`, and after one with the
/// largest number the next number comes.
pub proof fn ids_are_counted_on(servers: Seq<ServerModel>, n: nat, i: int)
    requires
        n < u32::MAX,
    ensures
        (forall|j: int| 0 <= j < servers.len() ==> !starts_with(
            (#[trigger] servers[j]).id,
            "server-"@,
        )) ==> next_id(servers) == "server-1"@,
        0 <= i < servers.len() && servers[i].id == "server-"@ + decimal(n) && (forall|j: int|
            0 <= j < servers.len() ==> (!starts_with((#[trigger] servers[j]).id, "server-"@)
                || exists|k: nat|
                k <= n && servers[j].id == "server-"@ + #[trigger] decimal(k))) ==> next_id(servers)
            == "server-"@ + decimal(n + 1),
{
    if forall|j: int| 0 <= j < servers.len() ==> !starts_with(
        (#[trigger] servers[j]).id,
        "server-"@,
    ) {
        assert forall|j: int| 0 <= j < servers.len() implies id_number(
            (#[trigger] servers[j]).id,
        ) <= 0 by {}
        lemma_largest_bound(servers, 0);
        reveal_strlit("server-");
        reveal_strlit("server-1");
        assert(next_id(servers) =~= "server-1"@);
    }
    if 0 <= i < servers.len() && servers[i].id == "server-"@ + decimal(n) && (forall|j: int|
        0 <= j < servers.len() ==> (!starts_with((#[trigger] servers[j]).id, "server-"@)
            || exists|k: nat| k <= n && servers[j].id == "server-"@ + #[trigger] decimal(k))) {
        assert forall|j: int| 0 <= j < servers.len() implies id_number(
            (#[trigger] servers[j]).id,
        ) <= n by {
            if starts_with(servers[j].id, "server-"@) {
                let k = choose|k: nat|
                    k <= n && servers[j].id == "server-"@ + #[trigger] decimal(k);
                lemma_next_number(k);
            }
        }
        lemma_largest_bound(servers, n);
        lemma_next_number(n);
        lemma_largest(servers, i);
    }
}

proof fn lemma_largest_bound(servers: Seq<ServerModel>, n: nat)
    requires
        forall|j: int| 0 <= j < servers.len() ==> id_number((#[trigger] servers[j]).id) <= n,
    ensures
        largest_number(servers) <= n,
    decreases servers.len(),
{
    if servers.len() > 0 {
        let before = servers.drop_last();
        assert forall|j: int| 0 <= j < before.len() implies id_number(
            (#[trigger] before[j]).id,
        ) <= n by {
            assert(before[j] == servers[j]);
        }
        lemma_largest_bound(before, n);
        assert(servers[servers.len() - 1] == servers.last());
    }
}

// ---------------------------------------------------------------------------
// The new server
// ---------------------------------------------------------------------------

/// The server that is added: at `address`, where it answered as `ip` last.
pub open spec fn new_server(
    id: Seq<char>,
    name: Seq<char>,
    address: Seq<char>,
    ip: Seq<char>,
    token: Seq<char>,
    metadata: AddressMetadata,
) -> ServerModel {
    ServerModel {
        id,
        name,
        token,
        enabled: true,
        address: Some(address),
        country: Some(metadata.geo@.country),
        flag: Some(metadata.geo@.flag),
        resolved_ip: match opt_text(metadata.resolved_ip) {
            Some(found) => Some(found),
            None => Some(ip),
        },
        timer: None,
    }
}

/// The configuration with one more server.
pub fn add_server(
    config: &AppConfig,
    name: &str,
    address: &str,
    current_ip: &str,
    token: &SecretToken,
    metadata: &AddressMetadata,
) -> (r: AppConfig)
    requires
        largest_number(config@.servers) < u32::MAX,
    ensures
        r@ == with_servers(
            config@,
            config@.servers.push(
                new_server(
                    next_id(config@.servers),
                    name@,
                    address@,
                    current_ip@,
                    token@,
                    *metadata,
                ),
            ),
        ),
{
    let id = next_server_id(config);
    let mut next = config.clone();
    let server = ServerConfig {
        id,
        name: name.to_owned(),
        token: token.clone(),
        enabled: true,
        address: Some(address.to_owned()),
        country: Some(metadata.geo.country.clone()),
        flag: Some(metadata.geo.flag.clone()),
        resolved_ip: match &metadata.resolved_ip {
            Some(ip) => Some(ip.clone()),
            None => Some(current_ip.to_owned()),
        },
        timer: None,
    };
    let ghost before = next.servers@;
    next.servers.push(server);
    assert(server_models(next.servers@) =~= server_models(before).push(server@));
    next
}

/// Adding a server leaves a valid configuration valid, where the name and the token are not
/// blank and the token is not a part of the id.
pub proof fn adding_keeps_servers_valid(
    servers: Seq<ServerModel>,
    name: Seq<char>,
    address: Seq<char>,
    ip: Seq<char>,
    token: Seq<char>,
    metadata: AddressMetadata,
)
    requires
        valid_servers(servers),
        largest_number(servers) < u32::MAX,
        !is_blank(name),
        !is_blank(token),
        !contains_text(next_id(servers), token),
    ensures
        valid_servers(
            servers.push(new_server(next_id(servers), name, address, ip, token, metadata)),
        ),
{
    let s = new_server(next_id(servers), name, address, ip, token, metadata);
    let t = servers.push(s);
    let n = largest_number(servers) + 1;
    assert(valid_id(s.id)) by {
        reveal_strlit("server-");
        lemma_decimal_digits(n);
        assert forall|i: int| 0 <= i < s.id.len() implies is_id_char(#[trigger] s.id[i]) by {
            if i >= 7 {
                assert(s.id[i] == decimal(n)[i - 7]);
                assert(is_digit(decimal(n)[i - 7]));
            }
        }
    }
    next_id_is_new(servers);
    assert forall|i: int| 0 <= i < t.len() implies valid_server(#[trigger] t[i]) by {
        if i < servers.len() {
            assert(t[i] == servers[i]);
        }
    }
    assert forall|i: int, j: int| 0 <= i < j < t.len() implies (#[trigger] t[i]).id != (
    #[trigger] t[j]).id by {
        assert(t[i] == servers[i]);
        if j < servers.len() {
            assert(t[j] == servers[j]);
        }
    }
}

// ---------------------------------------------------------------------------
// The questions
// ---------------------------------------------------------------------------

pub open spec fn name_question() -> ReplyModel {
    plain("请给这台服务器设置一个显示名称："@)
}

pub open spec fn address_question() -> ReplyModel {
    plain("请输入服务器地址（IP 或域名）："@)
}

pub open spec fn token_question() -> ReplyModel {
    plain("请发送这台 VPS 的新版 Boil Token："@)
}

pub open spec fn token_refused() -> ReplyModel {
    plain("❌ Token 验证失败\n\n请重新发送新版 Boil Token。"@)
}

/// Begins to add a server: its name is asked for, then its address, then its token.
pub fn start_add_server_wizard(wizards: &mut ServerWizardStore, chat_id: i64, now: Instant) -> (r:
    Reply)
    requires
        old(wizards).wf(),
    ensures
        final(wizards).wf(),
        final(wizards)@ == waiting_for(old(wizards)@, chat_id, StepModel::Name, now),
        r@ == name_question(),
{
    wizards.start(chat_id, now);
    Reply::say("请给这台服务器设置一个显示名称：")
}

/// The chats that add a server, one of them with a new question.
pub open spec fn waiting_for(
    m: Map<i64, (StepModel, nat)>,
    chat_id: i64,
    step: StepModel,
    now: Instant,
) -> Map<i64, (StepModel, nat)> {
    pruned(m, now).insert(chat_id, (step, later_by(now, SERVER_WIZARD_TTL_SECS)))
}

/// What a text comes to, while a server is being added.
pub enum WizardAction {
    Say(Reply),
    /// A token is to be tried; then the server is added.
    CheckToken { name: String, address: String, token: SecretToken },
}

pub enum WizardActionModel {
    Say(ReplyModel),
    CheckToken { name: Seq<char>, address: Seq<char>, token: Seq<char> },
}

impl View for WizardAction {
    type V = WizardActionModel;

    open spec fn view(&self) -> WizardActionModel {
        match self {
            WizardAction::Say(r) => WizardActionModel::Say(r@),
            WizardAction::CheckToken { name, address, token } => WizardActionModel::CheckToken {
                name: name@,
                address: address@,
                token: token@,
            },
        }
    }
}

/// No host can be read from the text.
pub open spec fn names_no_host(text: Seq<char>) -> bool {
    is_blank(text) || host_of(text).len() == 0
}

pub open spec fn wizard_action(step: StepModel, text: Seq<char>) -> WizardActionModel {
    match step {
        StepModel::Name => if trimmed(text).len() == 0 {
            WizardActionModel::Say(plain("❌ 名称不能为空，请重新输入。"@))
        } else {
            WizardActionModel::Say(address_question())
        },
        StepModel::Address { name } => if names_no_host(text) {
            WizardActionModel::Say(plain("❌ 服务器地址不能为空，请重新输入。"@))
        } else {
            WizardActionModel::Say(token_question())
        },
        StepModel::Token { name, address } => if is_blank(trimmed(text)) {
            WizardActionModel::Say(token_refused())
        } else {
            WizardActionModel::CheckToken { name, address, token: trimmed(text) }
        },
    }
}

/// What the text after this one is; `None` where all is known that the server needs.
pub open spec fn step_after(step: StepModel, text: Seq<char>) -> Option<StepModel> {
    match step {
        StepModel::Name => if trimmed(text).len() == 0 {
            Some(step)
        } else {
            Some(StepModel::Address { name: trimmed(text) })
        },
        StepModel::Address { name } => if names_no_host(text) {
            Some(step)
        } else {
            Some(StepModel::Token { name, address: host_of(text) })
        },
        StepModel::Token { name, address } => if is_blank(trimmed(text)) {
            Some(step)
        } else {
            None
        },
    }
}

/// A text may be what a new server needs; then it comes to an action. Where it is not accepted,
/// the same question waits again, else the next one does. A message that holds a token is to be
/// deleted.
pub fn handle_add_server_input(
    wizards: &mut ServerWizardStore,
    chat_id: i64,
    text: &str,
    now: Instant,
) -> (r: Option<(WizardAction, bool)>)
    requires
        old(wizards).wf(),
    ensures
        final(wizards).wf(),
        match taken(old(wizards)@, chat_id, now) {
            Some(step) => {
                &&& r is Some
                &&& r->Some_0.0@ == wizard_action(step, text@)
                &&& r->Some_0.1 == (step is Token)
                &&& final(wizards)@ == (match step_after(step, text@) {
                    Some(next) => waiting_for(old(wizards)@, chat_id, next, now),
                    None => pruned(old(wizards)@, now).remove(chat_id),
                })
            },
            None => r is None && final(wizards)@ == pruned(old(wizards)@, now).remove(chat_id),
        },
{
    let step = match wizards.take_step(chat_id, now) {
        Some(step) => step,
        None => return None,
    };
    proof {
        match step_after(step@, text@) {
            Some(next) => {
                lemma_waiting_again(old(wizards)@, chat_id, next, now);
            },
            None => {},
        }
    }
    match step {
        ServerWizardStep::Name => {
            let name = trim(text);
            if name.as_str().is_empty() {
                wizards.set_step(chat_id, ServerWizardStep::Name, now);
                Some((WizardAction::Say(Reply::say("❌ 名称不能为空，请重新输入。")), false))
            } else {
                wizards.set_step(chat_id, ServerWizardStep::Address { name }, now);
                Some((WizardAction::Say(Reply::say("请输入服务器地址（IP 或域名）：")), false))
            }
        },
        ServerWizardStep::Address { name } => match normalize_server_address(text) {
            None => {
                wizards.set_step(chat_id, ServerWizardStep::Address { name }, now);
                Some((WizardAction::Say(Reply::say("❌ 服务器地址不能为空，请重新输入。")), false))
            },
            Some(address) => {
                wizards.set_step(chat_id, ServerWizardStep::Token { name, address }, now);
                Some((WizardAction::Say(Reply::say("请发送这台 VPS 的新版 Boil Token：")), false))
            },
        },
        ServerWizardStep::Token { name, address } => match SecretToken::new(trim(text)) {
            Ok(token) => Some((WizardAction::CheckToken { name, address, token }, true)),
            Err(_) => {
                wizards.set_step(chat_id, ServerWizardStep::Token { name, address }, now);
                Some(
                    (
                        WizardAction::Say(
                            Reply::say("❌ Token 验证失败\n\n请重新发送新版 Boil Token。"),
                        ),
                        true,
                    ),
                )
            },
        },
    }
}

/// A server is added by its name, its address and its token, asked for one after the other.
pub proof fn questions_come_in_order(name: Seq<char>, address: Seq<char>, token: Seq<char>)
    requires
        trimmed(name).len() > 0,
        !names_no_host(address),
        !is_blank(trimmed(token)),
    ensures
        ({
            let second = StepModel::Address { name: trimmed(name) };
            let third = StepModel::Token { name: trimmed(name), address: host_of(address) };
            &&& wizard_action(StepModel::Name, name) == WizardActionModel::Say(address_question())
            &&& step_after(StepModel::Name, name) == Some(second)
            &&& wizard_action(second, address) == WizardActionModel::Say(token_question())
            &&& step_after(second, address) == Some(third)
            &&& wizard_action(third, token) == (WizardActionModel::CheckToken {
                name: trimmed(name),
                address: host_of(address),
                token: trimmed(token),
            })
            &&& step_after(third, token) is None
        }),
{
}

/// A question that was taken and is asked again waits as a new one.
proof fn lemma_waiting_again(
    m: Map<i64, (StepModel, nat)>,
    chat_id: i64,
    step: StepModel,
    now: Instant,
)
    ensures
        waiting_for(pruned(m, now).remove(chat_id), chat_id, step, now) == waiting_for(
            m,
            chat_id,
            step,
            now,
        ),
{
    assert(waiting_for(pruned(m, now).remove(chat_id), chat_id, step, now) =~= waiting_for(
        m,
        chat_id,
        step,
        now,
    ));
}

/// The two messages while a token is being tried.
pub fn token_being_checked() -> (r: (Reply, Reply))
    ensures
        r.0@ == plain("⚙️ 正在验证 Token，请稍候…"@),
        r.1@ == plain("⚙️ 正在查询当前 IP，请稍候…"@),
{
    (Reply::say("⚙️ 正在验证 Token，请稍候…"), Reply::say("⚙️ 正在查询当前 IP，请稍候…"))
}

/// The client for the token cannot be made: the token is asked for again.
pub fn token_not_checked(
    wizards: &mut ServerWizardStore,
    chat_id: i64,
    name: String,
    address: String,
    error: &str,
    now: Instant,
) -> (r: Reply)
    requires
        old(wizards).wf(),
    ensures
        final(wizards).wf(),
        final(wizards)@ == waiting_for(
            old(wizards)@,
            chat_id,
            StepModel::Token { name: name@, address: address@ },
            now,
        ),
        r@ == plain("❌ 初始化失败: "@ + error@),
{
    wizards.set_step(chat_id, ServerWizardStep::Token { name, address }, now);
    crate::bot::change::client_failed(error)
}

/// A token was tried; `current_ip` is what it gave, where it is good. Else the token is asked
/// for again.
pub fn new_token_checked(
    wizards: &mut ServerWizardStore,
    chat_id: i64,
    name: &str,
    address: &str,
    current_ip: Option<&str>,
    now: Instant,
) -> (r: Reply)
    requires
        old(wizards).wf(),
    ensures
        final(wizards).wf(),
        match current_ip {
            Some(ip) => {
                &&& final(wizards)@ == old(wizards)@
                &&& r@ == plain("✅ Token 验证成功\n\n当前 IP："@ + escaped(ip@))
            },
            None => {
                &&& final(wizards)@ == waiting_for(
                    old(wizards)@,
                    chat_id,
                    StepModel::Token { name: name@, address: address@ },
                    now,
                )
                &&& r@ == token_refused()
            },
        },
{
    match current_ip {
        Some(ip) => {
            let mut text = "✅ Token 验证成功\n\n当前 IP：".to_owned();
            text.append(html_escape(ip).as_str());
            Reply::plain(text)
        },
        None => {
            wizards.set_step(
                chat_id,
                ServerWizardStep::Token { name: name.to_owned(), address: address.to_owned() },
                now,
            );
            Reply::say("❌ Token 验证失败\n\n请重新发送新版 Boil Token。")
        },
    }
}

/// The message about a server that was to be added.
pub open spec fn added_reply(
    outcome: SaveOutcome,
    name: Seq<char>,
    address: Seq<char>,
    metadata: AddressMetadata,
) -> ReplyModel {
    match outcome {
        SaveOutcome::Saved => html("✅ 配置完成\n\n"@ + display_parts(name, address, metadata.geo@)),
        SaveOutcome::SaveFailed(e) => plain("❌ 保存失败: "@ + escaped(e@)),
        SaveOutcome::RescheduleFailed(e) => plain(
            "❌ 已保存服务器，但重新调度失败: "@ + escaped(e@),
        ),
    }
}

/// It was tried to save the configuration with the new server. Where that failed, the token is
/// waited for again.
pub fn server_added(
    config: &mut AppConfig,
    timer: &mut TimerManager,
    wizards: &mut ServerWizardStore,
    chat_id: i64,
    next: AppConfig,
    outcome: SaveOutcome,
    name: &str,
    address: &str,
    metadata: &AddressMetadata,
    now: Instant,
) -> (r: Reply)
    requires
        old(timer).wf(),
        old(wizards).wf(),
    ensures
        final(timer).wf(),
        final(wizards).wf(),
        r@ == added_reply(outcome, name@, address@, *metadata),
        outcome is SaveFailed ==> {
            &&& final(config)@ == old(config)@
            &&& final(timer).model() == old(timer).model()
            &&& final(wizards)@ == waiting_for(
                old(wizards)@,
                chat_id,
                StepModel::Token { name: name@, address: address@ },
                now,
            )
        },
        !(outcome is SaveFailed) ==> {
            &&& final(config)@ == next@
            &&& final(timer).model() == next@
            &&& final(wizards)@ == old(wizards)@
        },
{
    match outcome {
        SaveOutcome::SaveFailed(e) => {
            wizards.set_step(
                chat_id,
                ServerWizardStep::Token { name: name.to_owned(), address: address.to_owned() },
                now,
            );
            crate::bot::server_edit::save_failed(e.as_str())
        },
        SaveOutcome::RescheduleFailed(e) => {
            *config = next.clone();
            timer.replace_config(next);
            let mut text = "❌ 已保存服务器，但重新调度失败: ".to_owned();
            text.append(html_escape(e.as_str()).as_str());
            Reply::plain(text)
        },
        SaveOutcome::Saved => {
            *config = next.clone();
            timer.replace_config(next);
            let mut text = "✅ 配置完成\n\n".to_owned();
            text.append(
                format_server_display_parts(name, address, &metadata.geo).as_str(),
            );
            Reply::html(text)
        },
    }
}

} // verus!
