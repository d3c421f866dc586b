//! The timers.

use vstd::prelude::*;
use crate::bot::callbacks::{order, with_arg};
use crate::bot::formatting::{escaped, failed, failure, html_escape};
use crate::bot::server_edit::{save_failed, SaveOutcome};
use crate::bot::server_list::ip_or_failed;
use crate::bot::state::{pruned, taken, Instant, InputModel, TimerInputMode, TimerInputStore};
use crate::bot::ui::{
    button, button_of, html_with, plain, plain_with, Keyboard, KeyboardModel, Reply, ReplyModel,
};
use crate::config::{
    find_var, var_models, var_value, AppConfig, ConfigModel, ServerModel, VarModel,
};
use crate::text::opt_text;
use crate::timer::{
    parse_hhmm, parsed_hhmm, timer_fault_text, ServerStatusModel, StatusModel, TimerManager,
    TimerServerStatus, TimerStatus, TimerUpdate, UpdateModel,
};

verus! {

// ---------------------------------------------------------------------------
// The panel
// ---------------------------------------------------------------------------

pub open spec fn timer_state(enabled: bool, time: Option<Seq<char>>) -> Seq<char> {
    if enabled {
        "已开启 | 每天 "@ + escaped(
            match time {
                Some(t) => t,
                None => "时间未设置"@,
            },
        )
    } else {
        "未开启"@
    }
}

pub fn timer_state_text(enabled: bool, time: &Option<String>) -> (r: String)
    ensures
        r@ == timer_state(enabled, opt_text(*time)),
{
    if enabled {
        let t: &str = match time {
            Some(t) => t.as_str(),
            None => "时间未设置",
        };
        let mut r = "已开启 | 每天 ".to_owned();
        r.append(html_escape(t).as_str());
        r
    } else {
        "未开启".to_owned()
    }
}

pub open spec fn or_text(o: Option<Seq<char>>, d: Seq<char>) -> Seq<char> {
    match o {
        Some(s) => s,
        None => d,
    }
}

/// What the panel shows of one server: its name and place, its address, and its timer, but
/// neither its id nor a time that is not in force.
pub open spec fn panel_entry(s: ServerStatusModel, ip: Option<Seq<char>>) -> Seq<char> {
    "\n\n📡 <b>"@ + escaped(s.server_name) + "</b>\n\n"@ + escaped(or_text(s.flag, "🌐"@)) + " "@
        + escaped(or_text(s.country, "未知地区"@)) + "\n"@ + escaped(
        "当前 IP："@ + ip_or_failed(ip),
    ) + "\n"@ + (if s.server_enabled {
        timer_state(s.timer_enabled, s.time)
    } else {
        "VPS 已禁用"@
    })
}

pub open spec fn panel_entries(servers: Seq<ServerStatusModel>, ips: Seq<VarModel>) -> Seq<char>
    decreases servers.len(),
{
    if servers.len() == 0 {
        Seq::empty()
    } else {
        panel_entries(servers.drop_last(), ips) + panel_entry(
            servers.last(),
            var_value(ips, servers.last().server_id),
        )
    }
}

/// The panel: what the timers are set to. `ips` are the addresses of the servers, by their ids.
pub open spec fn panel(status: StatusModel, ips: Seq<VarModel>) -> Seq<char> {
    "⏰ <b>定时换 IP</b>\n当前时区: <code>"@ + escaped(status.timezone)
        + "</code>\n🌐 全部 Server: "@ + timer_state(
        status.global_timer_enabled,
        status.global_time,
    ) + "\nServer 定时状态:"@ + panel_entries(status.servers, ips)
}

fn text_or<'a>(o: &'a Option<String>, d: &'a str) -> (r: &'a str)
    ensures
        r@ == or_text(opt_text(*o), d@),
{
    match o {
        Some(s) => s.as_str(),
        None => d,
    }
}

fn entry_text(s: &TimerServerStatus, ip: Option<&str>) -> (r: String)
    ensures
        r@ == panel_entry(
            s@,
            match ip {
                Some(ip) => Some(ip@),
                None => None,
            },
        ),
{
    let mut r = "\n\n📡 <b>".to_owned();
    r.append(html_escape(s.server_name.as_str()).as_str());
    r.append("</b>\n\n");
    r.append(html_escape(text_or(&s.flag, "🌐")).as_str());
    r.append(" ");
    r.append(html_escape(text_or(&s.country, "未知地区")).as_str());
    r.append("\n");
    let mut address = "当前 IP：".to_owned();
    address.append(
        match ip {
            Some(ip) => ip,
            None => "查询失败",
        },
    );
    r.append(html_escape(address.as_str()).as_str());
    r.append("\n");
    if s.server_enabled {
        r.append(timer_state_text(s.timer_enabled, &s.time).as_str());
    } else {
        r.append("VPS 已禁用");
    }
    r
}

pub fn format_timer_panel(status: &TimerStatus, current_ips: &[(String, String)]) -> (r: String)
    ensures
        r@ == panel(status@, var_models(current_ips@)),
{
    let mut r = "⏰ <b>定时换 IP</b>\n当前时区: <code>".to_owned();
    r.append(html_escape(status.timezone).as_str());
    r.append("</code>\n🌐 全部 Server: ");
    r.append(timer_state_text(status.global_timer_enabled, &status.global_time).as_str());
    r.append("\nServer 定时状态:");
    let ghost head = r@;
    let ghost m = status@.servers;
    let ghost ips = var_models(current_ips@);
    let mut i: usize = 0;
    assert(r@ =~= head + panel_entries(m.subrange(0, 0), ips));
    while i < status.servers.len()
        invariant
            i <= status.servers@.len(),
            m == status@.servers,
            ips == var_models(current_ips@),
            r@ == head + panel_entries(m.subrange(0, i as int), ips),
        decreases status.servers@.len() - i,
    {
        let server = &status.servers[i];
        let ghost t = m.subrange(0, i + 1);
        assert(t.drop_last() =~= m.subrange(0, i as int));
        assert(t.last() == server@);
        let ghost before = r@;
        r.append(entry_text(server, find_var(current_ips, server.server_id.as_str())).as_str());
        assert(r@ =~= head + panel_entries(t, ips));
        i += 1;
    }
    assert(m.subrange(0, m.len() as int) =~= m);
    r
}

pub open spec fn panel_keyboard() -> KeyboardModel {
    seq![
        seq![button_of("➕ 新建"@, "timer_new"@), button_of("✏️ 编辑"@, "timer_edit"@)],
        seq![button_of("⏸ 关闭"@, "timer_close"@), button_of("🔄 刷新"@, "timer_refresh"@)],
    ]
}

/// The panel with its buttons.
pub fn show_timer_panel(status: &TimerStatus, current_ips: &[(String, String)]) -> (r: Reply)
    ensures
        r@ == html_with(panel(status@, var_models(current_ips@)), panel_keyboard()),
{
    let mut keyboard = Keyboard::new();
    keyboard.push_two(button("➕ 新建", "timer_new"), button("✏️ 编辑", "timer_edit"));
    keyboard.push_two(button("⏸ 关闭", "timer_close"), button("🔄 刷新", "timer_refresh"));
    assert(keyboard@ =~= panel_keyboard());
    Reply::html_with(format_timer_panel(status, current_ips), keyboard)
}

/// The panel shows no id: it is the same for statuses that differ in the ids alone, where the
/// addresses are the same.
pub proof fn panel_hides_ids(
    a: StatusModel,
    b: StatusModel,
    a_ips: Seq<VarModel>,
    b_ips: Seq<VarModel>,
)
    requires
        a == (StatusModel { servers: a.servers, ..b }),
        a.servers.len() == b.servers.len(),
        forall|i: int|
            0 <= i < a.servers.len() ==> {
                &&& #[trigger] a.servers[i] == (ServerStatusModel {
                    server_id: a.servers[i].server_id,
                    ..b.servers[i]
                })
                &&& var_value(a_ips, a.servers[i].server_id) == var_value(
                    b_ips,
                    b.servers[i].server_id,
                )
            },
    ensures
        panel(a, a_ips) == panel(b, b_ips),
{
    lemma_entries_hide_ids(a.servers, b.servers, a_ips, b_ips);
}

proof fn lemma_entries_hide_ids(
    a: Seq<ServerStatusModel>,
    b: Seq<ServerStatusModel>,
    a_ips: Seq<VarModel>,
    b_ips: Seq<VarModel>,
)
    requires
        a.len() == b.len(),
        forall|i: int|
            0 <= i < a.len() ==> {
                &&& #[trigger] a[i] == (ServerStatusModel { server_id: a[i].server_id, ..b[i] })
                &&& var_value(a_ips, a[i].server_id) == var_value(b_ips, b[i].server_id)
            },
    ensures
        panel_entries(a, a_ips) == panel_entries(b, b_ips),
    decreases a.len(),
{
    if a.len() > 0 {
        assert forall|i: int| 0 <= i < a.drop_last().len() implies {
            &&& #[trigger] a.drop_last()[i] == (ServerStatusModel {
                server_id: a.drop_last()[i].server_id,
                ..b.drop_last()[i]
            })
            &&& var_value(a_ips, a.drop_last()[i].server_id) == var_value(
                b_ips,
                b.drop_last()[i].server_id,
            )
        } by {
            assert(a.drop_last()[i] == a[i]);
            assert(b.drop_last()[i] == b[i]);
        }
        lemma_entries_hide_ids(a.drop_last(), b.drop_last(), a_ips, b_ips);
        assert(a[a.len() - 1] == a.last());
        assert(b[b.len() - 1] == b.last());
        assert(panel_entry(a.last(), var_value(a_ips, a.last().server_id)) == panel_entry(
            b.last(),
            var_value(b_ips, b.last().server_id),
        ));
    }
}

/// The panel shows every server, in their order, with the address that is known for its id.
pub proof fn panel_shows_every_server(
    servers: Seq<ServerStatusModel>,
    ips: Seq<VarModel>,
    i: int,
) -> (at: int)
    requires
        0 <= i < servers.len(),
    ensures
        ({
            let entry = panel_entry(servers[i], var_value(ips, servers[i].server_id));
            &&& 0 <= at <= at + entry.len() <= panel_entries(servers, ips).len()
            &&& panel_entries(servers, ips).subrange(at, at + entry.len()) == entry
        }),
    decreases servers.len(),
{
    let before = panel_entries(servers.drop_last(), ips);
    let all = panel_entries(servers, ips);
    let entry = panel_entry(servers[i], var_value(ips, servers[i].server_id));
    if i == servers.len() - 1 {
        let at = before.len() as int;
        assert(all.subrange(at, at + entry.len()) =~= entry);
        at
    } else {
        let at = panel_shows_every_server(servers.drop_last(), ips, i);
        assert(servers.drop_last()[i] == servers[i]);
        assert(all.subrange(at, at + entry.len()) =~= before.subrange(at, at + entry.len()));
        at
    }
}

/// The state of a timer that runs is shown with its time, and that of one that does not without
/// any.
pub proof fn shown_state_has_the_time_in_force(time: Seq<char>, other: Option<Seq<char>>)
    ensures
        timer_state(true, Some(time)) == "已开启 | 每天 "@ + escaped(time),
        timer_state(false, other) == "未开启"@,
{
}

// ---------------------------------------------------------------------------
// Choosing a target
// ---------------------------------------------------------------------------

/// A row for each enabled server: its name, and the order with its id, followed by `after`.
pub open spec fn server_rows(
    servers: Seq<ServerModel>,
    verb: Seq<char>,
    after: Option<Seq<char>>,
) -> KeyboardModel
    decreases servers.len(),
{
    if servers.len() == 0 {
        Seq::empty()
    } else {
        let rows = server_rows(servers.drop_last(), verb, after);
        let s = servers.last();
        if s.enabled {
            rows.push(
                seq![
                    button_of(
                        "🖥 "@ + s.name,
                        with_arg(
                            verb,
                            with_arg(
                                "server"@,
                                match after {
                                    Some(a) => with_arg(s.id, a),
                                    None => s.id,
                                },
                            ),
                        ),
                    ),
                ],
            )
        } else {
            rows
        }
    }
}

fn push_server_rows(keyboard: &mut Keyboard, config: &AppConfig, verb: &str, after: Option<&str>)
    ensures
        final(keyboard)@ == old(keyboard)@ + server_rows(
            config@.servers,
            verb@,
            match after {
                Some(a) => Some(a@),
                None => None,
            },
        ),
{
    let ghost head = keyboard@;
    let ghost m = config@.servers;
    let ghost a = match after {
        Some(a) => Some(a@),
        None => None,
    };
    let mut i: usize = 0;
    assert(keyboard@ =~= head + server_rows(m.subrange(0, 0), verb@, a));
    while i < config.servers.len()
        invariant
            i <= config.servers@.len(),
            m == config@.servers,
            a == (match after {
                Some(a) => Some(a@),
                None => None,
            }),
            keyboard@ == head + server_rows(m.subrange(0, i as int), verb@, a),
        decreases config.servers@.len() - i,
    {
        let server = &config.servers[i];
        let ghost t = m.subrange(0, i + 1);
        assert(t.drop_last() =~= m.subrange(0, i as int));
        assert(t.last() == server@);
        if server.enabled {
            let arg = match after {
                Some(a) => order(server.id.as_str(), a),
                None => server.id.clone(),
            };
            let data = order(verb, order("server", arg.as_str()).as_str());
            let mut label = "🖥 ".to_owned();
            label.append(server.name.as_str());
            keyboard.push_one(button(label.as_str(), data.as_str()));
        }
        assert(keyboard@ =~= head + server_rows(t, verb@, a));
        i += 1;
    }
    assert(m.subrange(0, m.len() as int) =~= m);
}

/// Buttons for all servers together, and for each enabled one.
pub open spec fn target_keyboard(servers: Seq<ServerModel>, verb: Seq<char>) -> KeyboardModel {
    seq![seq![button_of("🌐 全部 Server"@, with_arg(verb, "all"@))]] + server_rows(
        servers,
        verb,
        None,
    )
}

pub fn timer_target_keyboard(config: &AppConfig, prefix: &str) -> (r: Keyboard)
    ensures
        r@ == target_keyboard(config@.servers, prefix@),
{
    let mut keyboard = Keyboard::new();
    keyboard.push_one(button("🌐 全部 Server", order(prefix, "all").as_str()));
    assert(keyboard@ =~= seq![seq![button_of("🌐 全部 Server"@, with_arg(prefix@, "all"@))]]);
    push_server_rows(&mut keyboard, config, prefix, None);
    keyboard
}

/// Buttons to set a timer at a time.
pub open spec fn create_keyboard(servers: Seq<ServerModel>, hhmm: Seq<char>) -> KeyboardModel {
    seq![
        seq![button_of("🌐 全部 Server"@, with_arg("timer_create"@, with_arg("all"@, hhmm)))],
    ] + server_rows(servers, "timer_create"@, Some(hhmm))
}

pub fn timer_create_keyboard(config: &AppConfig, hhmm: &str) -> (r: Keyboard)
    ensures
        r@ == create_keyboard(config@.servers, hhmm@),
{
    let mut keyboard = Keyboard::new();
    let all = order("timer_create", order("all", hhmm).as_str());
    keyboard.push_one(button("🌐 全部 Server", all.as_str()));
    assert(keyboard@ =~= seq![
        seq![button_of("🌐 全部 Server"@, with_arg("timer_create"@, with_arg("all"@, hhmm@)))],
    ]);
    push_server_rows(&mut keyboard, config, "timer_create", Some(hhmm));
    keyboard
}

pub open spec fn edit_targets(servers: Seq<ServerModel>) -> ReplyModel {
    plain_with(
        "请选择要编辑定时时间的范围："@,
        target_keyboard(servers, "timer_edit_target"@),
    )
}

pub fn show_timer_edit_targets(config: &AppConfig) -> (r: Reply)
    ensures
        r@ == edit_targets(config@.servers),
{
    Reply::plain_with(
        "请选择要编辑定时时间的范围：".to_owned(),
        timer_target_keyboard(config, "timer_edit_target"),
    )
}

pub open spec fn close_targets(servers: Seq<ServerModel>) -> ReplyModel {
    plain_with("请选择要关闭定时换 IP 的范围："@, target_keyboard(servers, "timer_close"@))
}

pub fn show_timer_close_targets(config: &AppConfig) -> (r: Reply)
    ensures
        r@ == close_targets(config@.servers),
{
    Reply::plain_with(
        "请选择要关闭定时换 IP 的范围：".to_owned(),
        timer_target_keyboard(config, "timer_close"),
    )
}

pub open spec fn create_targets(servers: Seq<ServerModel>, hhmm: Seq<char>) -> ReplyModel {
    plain_with("请选择定时换 IP 目标："@, create_keyboard(servers, hhmm))
}

pub fn show_timer_create_targets(config: &AppConfig, hhmm: &str) -> (r: Reply)
    ensures
        r@ == create_targets(config@.servers, hhmm@),
{
    Reply::plain_with(
        "请选择定时换 IP 目标：".to_owned(),
        timer_create_keyboard(config, hhmm),
    )
}

// ---------------------------------------------------------------------------
// Setting a timer
// ---------------------------------------------------------------------------

/// What a time that was entered comes to.
pub enum TimerInputAction {
    Say(Reply),
    Apply(TimerUpdate),
}

pub enum InputActionModel {
    Say(ReplyModel),
    Apply(UpdateModel),
}

impl View for TimerInputAction {
    type V = InputActionModel;

    open spec fn view(&self) -> InputActionModel {
        match self {
            TimerInputAction::Say(r) => InputActionModel::Say(r@),
            TimerInputAction::Apply(u) => InputActionModel::Apply(u@),
        }
    }
}

pub open spec fn input_action(config: ConfigModel, mode: InputModel, text: Seq<char>) ->
    InputActionModel {
    match parsed_hhmm(text) {
        Err(f) => InputActionModel::Say(failed(timer_fault_text(f))),
        Ok(_) => match mode {
            InputModel::New => InputActionModel::Say(create_targets(config.servers, text)),
            InputModel::Edit(target) => InputActionModel::Apply(
                UpdateModel::Enable { target, hhmm: text },
            ),
        },
    }
}

/// A text may be a time that was asked for; then it comes to an action.
pub fn handle_timer_time_input(
    config: &AppConfig,
    inputs: &mut TimerInputStore,
    chat_id: i64,
    text: &str,
    now: Instant,
) -> (r: Option<TimerInputAction>)
    requires
        old(inputs).wf(),
    ensures
        final(inputs).wf(),
        final(inputs)@ == pruned(old(inputs)@, now).remove(chat_id),
        match taken(old(inputs)@, chat_id, now) {
            Some(mode) => r is Some && r->Some_0@ == input_action(config@, mode, text@),
            None => r is None,
        },
{
    let mode = match inputs.take(chat_id, now) {
        Some(mode) => mode,
        None => return None,
    };
    match parse_hhmm(text) {
        Err(e) => Some(TimerInputAction::Say(failure(e.message().as_str()))),
        Ok(_) => match mode {
            TimerInputMode::New => Some(
                TimerInputAction::Say(show_timer_create_targets(config, text)),
            ),
            TimerInputMode::Edit(target) => Some(
                TimerInputAction::Apply(TimerUpdate::Enable { target, hhmm: text.to_owned() }),
            ),
        },
    }
}

/// What is said where a timer cannot be set.
pub open spec fn update_refused(fault: crate::timer::TimerFault) -> ReplyModel {
    plain("❌ 保存失败: "@ + escaped(timer_fault_text(fault)))
}

/// The configuration with a timer set, which is to be saved, or what is answered.
pub fn apply_timer_change(timer: &TimerManager, update: TimerUpdate) -> (r: Result<
    AppConfig,
    Reply,
>)
    ensures
        match crate::timer::updated(timer.model(), update@) {
            Ok(c) => r is Ok && r->Ok_0@ == c,
            Err(f) => r is Err && r->Err_0@ == update_refused(f),
        },
{
    match timer.apply_update(update) {
        Ok(next) => Ok(next),
        Err(e) => Err(save_failed(e.message().as_str())),
    }
}

/// It was tried to save a configuration with a timer set. Where it was saved but its timers are
/// not scheduled, only the timers have it. The panel follows the message where all went well.
pub fn timer_change_saved(
    config: &mut AppConfig,
    timer: &mut TimerManager,
    next: AppConfig,
    outcome: SaveOutcome,
) -> (r: Reply)
    requires
        old(timer).wf(),
    ensures
        final(timer).wf(),
        match outcome {
            SaveOutcome::Saved => {
                &&& r@ == plain("✅ 定时配置已保存并重新调度"@)
                &&& final(config)@ == next@
                &&& final(timer).model() == next@
            },
            SaveOutcome::SaveFailed(e) => {
                &&& r@ == plain("❌ 保存失败: "@ + escaped(e@))
                &&& final(config)@ == old(config)@
                &&& final(timer).model() == old(timer).model()
            },
            SaveOutcome::RescheduleFailed(e) => {
                &&& r@ == plain("❌ 保存失败: "@ + escaped(e@))
                &&& final(config)@ == old(config)@
                &&& final(timer).model() == next@
            },
        },
{
    match outcome {
        SaveOutcome::Saved => {
            *config = next.clone();
            timer.replace_config(next);
            Reply::say("✅ 定时配置已保存并重新调度")
        },
        SaveOutcome::SaveFailed(e) => save_failed(e.as_str()),
        SaveOutcome::RescheduleFailed(e) => {
            timer.replace_config(next);
            save_failed(e.as_str())
        },
    }
}

} // verus!
