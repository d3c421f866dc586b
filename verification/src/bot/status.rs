//! The state of a server.

use vstd::prelude::*;
use crate::bot::flows::runs_daily;
use crate::bot::formatting::{escaped, geo_text, html_escape, server_geo, server_geo_label};
use crate::bot::server_list::ip_or_failed;
use crate::bot::ui::{html, Reply};
use crate::config::{opt_timer, AppConfig, ConfigModel, ServerConfig, ServerModel, ServerTimerConfig};
use crate::number::{decimal_reads_back, two_digit_text};
use crate::text::parts::lemma_parts_are_in_the_whole;
use crate::text::{contains_text, opt_text, trimmed};
use crate::timer::{
    cron_gives_time_back, cron_to_hhmm, entered_time_is_shown, hhmm_text, is_enabled, names_time,
    parse_hhmm, parsed_hhmm, time_of, time_text_reads_back,
    times_are_understood_as_written,
};

verus! {

/// What came of asking for the address of a server.
#[derive(Clone, Copy, Debug, PartialEq, Eq, Structural)]
pub enum StatusQueryState {
    Normal,
    VerificationFailed,
}

// ---------------------------------------------------------------------------
// The next change
// ---------------------------------------------------------------------------

/// The time of a timer that runs.
pub open spec fn running_time(timer: Option<crate::config::TimerModel>) -> Option<Seq<char>> {
    if is_enabled(timer) {
        time_of(timer)
    } else {
        None
    }
}

/// The time at which the address of a server is changed every day: that of its own timer, or
/// else that of the timer for all.
pub open spec fn effective_time(config: ConfigModel, s: ServerModel) -> Option<Seq<char>> {
    match running_time(s.timer) {
        Some(t) => Some(t),
        None => running_time(config.global_timer),
    }
}

fn running_hhmm(timer: &Option<ServerTimerConfig>) -> (r: Option<String>)
    ensures
        opt_text(r) == running_time(opt_timer(*timer)),
{
    match timer {
        Some(t) => if t.enabled {
            match &t.cron {
                Some(cron) => cron_to_hhmm(cron.as_str()),
                None => None,
            }
        } else {
            None
        },
        None => None,
    }
}

pub fn effective_timer_hhmm(config: &AppConfig, server: &ServerConfig) -> (r: Option<String>)
    ensures
        opt_text(r) == effective_time(config@, server@),
{
    match running_hhmm(&server.timer) {
        Some(t) => Some(t),
        None => running_hhmm(&config.global_timer),
    }
}

pub const SHANGHAI_OFFSET_SECONDS: u64 = 28800;

pub const SECONDS_PER_DAY: u64 = 86400;

/// The second of the day in Shanghai.
pub open spec fn second_of_day(now: u64) -> int {
    (now + SHANGHAI_OFFSET_SECONDS) % (SECONDS_PER_DAY as int)
}

/// The time of day comes again before the day in Shanghai ends.
pub open spec fn comes_today(hour: int, minute: int, now: u64) -> bool {
    hour * 3600 + minute * 60 > second_of_day(now)
}

/// When the time of day comes next, in seconds of Shanghai time.
pub open spec fn next_run(hour: int, minute: int, now: u64) -> int {
    now + SHANGHAI_OFFSET_SECONDS - second_of_day(now) + hour * 3600 + minute * 60 + (
    if comes_today(hour, minute, now) {
        0
    } else {
        SECONDS_PER_DAY as int
    })
}

/// What is called the next time comes after `now`, within a day, and is that time of day.
pub proof fn next_run_is_within_a_day(hour: int, minute: int, now: u64)
    requires
        0 <= hour < 24,
        0 <= minute < 60,
    ensures
        now + SHANGHAI_OFFSET_SECONDS < next_run(hour, minute, now) <= now
            + SHANGHAI_OFFSET_SECONDS + SECONDS_PER_DAY,
        next_run(hour, minute, now) % (SECONDS_PER_DAY as int) == hour * 3600 + minute * 60,
{
}

pub open spec fn daily_run_text(hhmm: Seq<char>, now: Option<u64>) -> Option<Seq<char>> {
    match (parsed_hhmm(hhmm), now) {
        (Ok((hour, minute)), Some(now)) => Some(
            (if comes_today(hour, minute, now) {
                "今天"@
            } else {
                "明天"@
            }) + " "@ + hhmm_text(hour as nat, minute as nat),
        ),
        _ => None,
    }
}

/// The next time of a daily run; `now` is in seconds since 1970, where the clock is not before.
pub fn next_daily_run_text(hhmm: &str, now: Option<u64>) -> (r: Option<String>)
    requires
        now matches Some(t) ==> t + SHANGHAI_OFFSET_SECONDS <= u64::MAX,
    ensures
        opt_text(r) == daily_run_text(hhmm@, now),
{
    let (hour, minute) = match parse_hhmm(hhmm) {
        Ok(t) => t,
        Err(_) => return None,
    };
    let now = match now {
        Some(t) => t,
        None => return None,
    };
    let seconds_today: u64 = (now + SHANGHAI_OFFSET_SECONDS) % SECONDS_PER_DAY;
    let target_today: u64 = hour as u64 * 3600 + minute as u64 * 60;
    let mut r = if target_today > seconds_today {
        "今天".to_owned()
    } else {
        "明天".to_owned()
    };
    let mut time = two_digit_text(hour as u64);
    time.append(":");
    time.append(two_digit_text(minute as u64).as_str());
    r.append(" ");
    r.append(time.as_str());
    Some(r)
}

pub open spec fn next_change(config: ConfigModel, s: ServerModel, now: Option<u64>) -> Seq<char> {
    match effective_time(config, s) {
        None => "未开启"@,
        Some(hhmm) => match daily_run_text(hhmm, now) {
            Some(t) => t,
            None => "未开启"@,
        },
    }
}

pub fn next_change_text(config: &AppConfig, server: &ServerConfig, now: Option<u64>) -> (r: String)
    requires
        now matches Some(t) ==> t + SHANGHAI_OFFSET_SECONDS <= u64::MAX,
    ensures
        r@ == next_change(config@, server@, now),
{
    match effective_timer_hhmm(config, server) {
        None => "未开启".to_owned(),
        Some(hhmm) => match next_daily_run_text(hhmm.as_str(), now) {
            Some(t) => t,
            None => "未开启".to_owned(),
        },
    }
}

/// A timer of the server goes before the one for all; one that is switched off does not.
pub proof fn own_timer_goes_first(config: ConfigModel, s: ServerModel)
    ensures
        running_time(s.timer) is Some ==> effective_time(config, s) == running_time(s.timer),
        !is_enabled(s.timer) ==> effective_time(config, s) == running_time(config.global_timer),
{
}

/// A daily run is told as one of today where its time is still to come in Shanghai, eight hours
/// ahead, and else as one of tomorrow, with its time.
pub proof fn daily_run_is_today_or_tomorrow(hhmm: Seq<char>, hour: nat, minute: nat, now: u64)
    requires
        names_time(hhmm, hour, minute),
    ensures
        ({
            let passed = (now + 8 * 3600) % 86400int;
            daily_run_text(hhmm, Some(now)) == Some(
                (if hour * 3600 + minute * 60 > passed {
                    "今天"@
                } else {
                    "明天"@
                }) + " "@ + trimmed(hhmm),
            )
        }),
        daily_run_text(hhmm, None) is None,
{
    times_are_understood_as_written(hhmm, hour, minute);
    entered_time_is_shown(hhmm);
    cron_gives_time_back(hour, minute);
}

/// The next change of a server is that of its own timer, where it runs at a time of every day,
/// and else that of the timer for all servers; where neither runs, there is none.
pub proof fn next_change_is_that_of_the_timer(
    config: ConfigModel,
    s: ServerModel,
    hour: nat,
    minute: nat,
    now: u64,
) -> (t: Seq<char>)
    requires
        hour < 24,
        minute < 60,
    ensures
        names_time(t, hour, minute),
        trimmed(t) == t,
        runs_daily(s.timer, hour, minute) || (!(s.timer matches Some(own) && own.enabled)
            && runs_daily(config.global_timer, hour, minute)) ==> Some(next_change(config, s, Some(now)))
            == daily_run_text(t, Some(now)) && effective_time(config, s) == Some(t),
        !(s.timer matches Some(own) && own.enabled) && !(config.global_timer matches Some(all)
            && all.enabled) ==> next_change(config, s, Some(now)) == "未开启"@ && effective_time(
            config,
            s,
        ) is None,
{
    decimal_reads_back(hour, 255);
    decimal_reads_back(minute, 255);
    let t = hhmm_text(hour, minute);
    time_text_reads_back(hour, minute);
    times_are_understood_as_written(t, hour, minute);
    entered_time_is_shown(t);
    cron_gives_time_back(hour, minute);
    t
}

// ---------------------------------------------------------------------------
// Messages
// ---------------------------------------------------------------------------

pub open spec fn status_line(status: StatusQueryState, detail: Option<Seq<char>>) -> Seq<char> {
    match (status, detail) {
        (StatusQueryState::Normal, _) => "正常"@,
        (StatusQueryState::VerificationFailed, Some(d)) => "验证失败（"@ + escaped(d) + "）"@,
        (StatusQueryState::VerificationFailed, None) => "验证失败"@,
    }
}

/// What is shown of the state of a server: neither its id nor its token.
pub open spec fn status_message(
    config: ConfigModel,
    s: ServerModel,
    status: StatusQueryState,
    ip: Option<Seq<char>>,
    detail: Option<Seq<char>>,
    now: Option<u64>,
) -> Seq<char> {
    "✅ 服务器状态\n\n📡 <b>"@ + escaped(s.name) + "</b>\n\n"@ + escaped(geo_text(server_geo(s)))
        + "\n当前 IP："@ + escaped(ip_or_failed(ip)) + "\n\n状态："@ + status_line(status, detail)
        + "\n下次换 IP："@ + escaped(next_change(config, s, now))
}

pub open spec fn opt_str(o: Option<&str>) -> Option<Seq<char>> {
    match o {
        Some(s) => Some(s@),
        None => None,
    }
}

pub fn status_text(
    config: &AppConfig,
    server: &ServerConfig,
    status: StatusQueryState,
    current_ip: Option<&str>,
    detail: Option<String>,
    now: Option<u64>,
) -> (r: String)
    requires
        now matches Some(t) ==> t + SHANGHAI_OFFSET_SECONDS <= u64::MAX,
    ensures
        r@ == status_message(
            config@,
            server@,
            status,
            opt_str(current_ip),
            opt_text(detail),
            now,
        ),
{
    let line = match status {
        StatusQueryState::Normal => "正常".to_owned(),
        StatusQueryState::VerificationFailed => match detail {
            Some(d) => {
                let mut t = "验证失败（".to_owned();
                t.append(html_escape(d.as_str()).as_str());
                t.append("）");
                t
            },
            None => "验证失败".to_owned(),
        },
    };
    let ip: &str = match current_ip {
        Some(ip) => ip,
        None => "查询失败",
    };
    let mut r = "✅ 服务器状态\n\n📡 <b>".to_owned();
    r.append(html_escape(server.name.as_str()).as_str());
    r.append("</b>\n\n");
    r.append(html_escape(server_geo_label(server).display().as_str()).as_str());
    r.append("\n当前 IP：");
    r.append(html_escape(ip).as_str());
    r.append("\n\n状态：");
    r.append(line.as_str());
    r.append("\n下次换 IP：");
    r.append(html_escape(next_change_text(config, server, now).as_str()).as_str());
    r
}

/// The message about a server that was asked for its address: the address, or what is said of
/// the error.
pub fn status_reply(
    config: &AppConfig,
    server: &ServerConfig,
    reply: Result<&str, &str>,
    now: Option<u64>,
) -> (r: Reply)
    requires
        now matches Some(t) ==> t + SHANGHAI_OFFSET_SECONDS <= u64::MAX,
    ensures
        r@ == html(
            match reply {
                Ok(ip) => status_message(
                    config@,
                    server@,
                    StatusQueryState::Normal,
                    Some(ip@),
                    None,
                    now,
                ),
                Err(e) => status_message(
                    config@,
                    server@,
                    StatusQueryState::VerificationFailed,
                    None,
                    Some(crate::bot::formatting::short_error(e@)),
                    now,
                ),
            },
        ),
{
    let text = match reply {
        Ok(ip) => status_text(config, server, StatusQueryState::Normal, Some(ip), None, now),
        Err(e) => status_text(
            config,
            server,
            StatusQueryState::VerificationFailed,
            None,
            Some(crate::bot::formatting::short_safe_error(e)),
            now,
        ),
    };
    Reply::html(text)
}

/// The message while an address is asked for.
pub fn status_started() -> (r: Reply)
    ensures
        r@ == crate::bot::ui::plain("⚙️ 正在查询当前 IP，请稍候…"@),
{
    Reply::say("⚙️ 正在查询当前 IP，请稍候…")
}

/// What is shown of the state of a server is the same whatever its token and its id are.
pub proof fn status_hides_token_and_id(
    config: ConfigModel,
    a: ServerModel,
    b: ServerModel,
    status: StatusQueryState,
    ip: Option<Seq<char>>,
    detail: Option<Seq<char>>,
    now: Option<u64>,
)
    requires
        a == (ServerModel { token: a.token, id: a.id, ..b }),
    ensures
        status_message(config, a, status, ip, detail, now) == status_message(
            config,
            b,
            status,
            ip,
            detail,
            now,
        ),
{
}

/// The message about a server shows its name, its place, the address that it answered with, or
/// that it did not, and its next change.
pub proof fn status_shows_what_is_known(
    config: ConfigModel,
    s: ServerModel,
    ip: Seq<char>,
    detail: Seq<char>,
    now: Option<u64>,
)
    ensures
        ({
            let good = status_message(config, s, StatusQueryState::Normal, Some(ip), None, now);
            let bad = status_message(
                config,
                s,
                StatusQueryState::VerificationFailed,
                None,
                Some(detail),
                now,
            );
            &&& contains_text(good, "📡 <b>"@ + escaped(s.name) + "</b>"@)
            &&& contains_text(good, "当前 IP："@ + escaped(ip))
            &&& contains_text(good, "状态："@ + "正常"@)
            &&& contains_text(good, "下次换 IP："@ + escaped(next_change(config, s, now)))
            &&& contains_text(bad, "📡 <b>"@ + escaped(s.name) + "</b>"@)
            &&& contains_text(bad, "当前 IP："@ + escaped("查询失败"@))
            &&& contains_text(bad, "验证失败（"@ + escaped(detail) + "）"@)
            &&& contains_text(bad, "下次换 IP："@ + escaped(next_change(config, s, now)))
        }),
{
    let place = escaped(geo_text(server_geo(s)));
    let next = escaped(next_change(config, s, now));
    reveal_strlit("✅ 服务器状态\n\n📡 <b>");
    reveal_strlit("✅ 服务器状态\n\n");
    reveal_strlit("📡 <b>");
    reveal_strlit("</b>\n\n");
    reveal_strlit("</b>");
    reveal_strlit("\n\n");
    reveal_strlit("\n当前 IP：");
    reveal_strlit("\n");
    reveal_strlit("当前 IP：");
    reveal_strlit("\n\n状态：");
    reveal_strlit("状态：");
    reveal_strlit("\n下次换 IP：");
    reveal_strlit("下次换 IP：");
    let good = status_message(config, s, StatusQueryState::Normal, Some(ip), None, now);
    let bad = status_message(
        config,
        s,
        StatusQueryState::VerificationFailed,
        None,
        Some(detail),
        now,
    );
    let name = "📡 <b>"@ + escaped(s.name) + "</b>"@;
    let told = "下次换 IP："@ + next;
    let why = "验证失败（"@ + escaped(detail) + "）"@;
    assert(good =~= "✅ 服务器状态\n\n"@ + name + "\n\n"@ + place + "\n"@ + ("当前 IP："@ + escaped(
        ip,
    )) + "\n\n"@ + ("状态："@ + "正常"@) + "\n"@ + told);
    assert(bad =~= "✅ 服务器状态\n\n"@ + name + "\n\n"@ + place + "\n"@ + ("当前 IP："@ + escaped(
        "查询失败"@,
    )) + "\n\n"@ + "状态："@ + why + "\n"@ + told);
    lemma_parts_are_in_the_whole();
}

} // verus!
