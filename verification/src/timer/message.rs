//! What is said about timed changes.

use vstd::prelude::*;
use crate::boil::{opt_ip, IpAddress};
use crate::config::{ServerConfig, ServerModel};
use crate::number::{decimal, decimal_text};
use crate::reconnect::cooldown::{format_wait_duration, wait_text};
use crate::reconnect::{
    count_status, lemma_counts, result_models, BatchReconnectResult, ReconnectResult,
    ReconnectStatus, ResultModel,
};
use crate::text::{join, joined, opt_text, texts};
use crate::time::Duration;
use crate::timer::retry::TimerRetryAttempt;

verus! {

pub open spec fn nl() -> Seq<char> {
    "\n"@
}

/// `prefix` and `value` together.
fn labelled(prefix: &str, value: &str) -> (r: String)
    ensures
        r@ == prefix@ + value@,
{
    let mut r = prefix.to_owned();
    r.append(value);
    r
}

// ---------------------------------------------------------------------------
// Before the change
// ---------------------------------------------------------------------------

/// The result of a change whose first query failed.
pub open spec fn preflight_failed_model(server: ServerModel) -> ResultModel {
    ResultModel {
        server_id: server.id,
        server_name: server.name,
        old_ip: None,
        new_ip: None,
        changed: false,
        uses_left: None,
        next_allowed_at: None,
        status: ReconnectStatus::PreflightFailed,
        message: Some("换 IP 前查询当前 IP 失败，未发送换 IP 请求"@),
        poll_attempts: 0,
    }
}

pub fn timer_preflight_failed_result(server: &ServerConfig) -> (r: ReconnectResult)
    ensures
        r@ == preflight_failed_model(server@),
{
    ReconnectResult {
        server_id: server.id.clone(),
        server_name: server.name.clone(),
        old_ip: None,
        new_ip: None,
        changed: false,
        uses_left: None,
        next_allowed_at: None,
        status: ReconnectStatus::PreflightFailed,
        message: Some("换 IP 前查询当前 IP 失败，未发送换 IP 请求".to_owned()),
        poll_attempts: 0,
    }
}

pub fn timer_preflight_failed_message() -> (r: String)
    ensures
        r@ == "❌ 换 IP失败\n\n原因：\n\n换 IP 前查询当前 IP 失败，\n\n未发送换 IP 请求。\n\n⏳ 将于 5 分钟后开始第一次重新获取 IP。"@,
{
    "❌ 换 IP失败\n\n原因：\n\n换 IP 前查询当前 IP 失败，\n\n未发送换 IP 请求。\n\n⏳ 将于 5 分钟后开始第一次重新获取 IP。".to_owned()
}

pub open spec fn processing_text(name: Seq<char>) -> Seq<char> {
    "🔄 现在处理："@ + name
}

pub fn timer_processing_message(server_name: &str) -> (r: String)
    ensures
        r@ == processing_text(server_name@),
{
    labelled("🔄 现在处理：", server_name)
}

pub open spec fn retry_start_text(attempt: TimerRetryAttempt, name: Seq<char>) -> Seq<char> {
    "🔄 现在开始"@ + attempt.name() + "重新获取 IP……\n\n📡 "@ + name
}

pub fn timer_retry_start_message(attempt: TimerRetryAttempt, server_name: &str) -> (r: String)
    ensures
        r@ == retry_start_text(attempt, server_name@),
{
    let mut r = "🔄 现在开始".to_owned();
    r.append(attempt.label());
    r.append("重新获取 IP……\n\n📡 ");
    r.append(server_name);
    r
}

pub open spec fn get_ip_failed_text(attempt: TimerRetryAttempt) -> Seq<char> {
    match attempt {
        TimerRetryAttempt::First => "⚠️ "@ + "第一次"@ + "重新获取 IP 失败。\n\n⏳ 将于 "@
            + "30 分钟"@ + "后开始"@ + "第二次"@ + "重新获取 IP。"@,
        TimerRetryAttempt::Second => "⚠️ "@ + "第二次"@ + "重新获取 IP 失败。\n\n⏳ 将于 "@
            + "1 小时"@ + "后开始"@ + "第三次"@ + "重新获取 IP。"@,
        TimerRetryAttempt::Third =>
            "❌ 第三次重新获取 IP 失败。\n\n流程结束，\n\n请管理员手动处理。"@,
    }
}

pub fn timer_retry_get_ip_failed_message(attempt: TimerRetryAttempt) -> (r: String)
    ensures
        r@ == get_ip_failed_text(attempt),
{
    match (attempt.next_delay_text(), attempt.next_attempt_label()) {
        (Some(delay), Some(next)) => {
            let mut r = "⚠️ ".to_owned();
            r.append(attempt.label());
            r.append("重新获取 IP 失败。\n\n⏳ 将于 ");
            r.append(delay);
            r.append("后开始");
            r.append(next);
            r.append("重新获取 IP。");
            r
        },
        _ => "❌ 第三次重新获取 IP 失败。\n\n流程结束，\n\n请管理员手动处理。".to_owned(),
    }
}

pub open spec fn cooldown_wait_text(name: Seq<char>, secs: nat) -> Seq<char> {
    "⏳ 换 IP 频率限制中\n\n📡 "@ + name + "\n\n预计 "@ + wait_text(secs) + "后继续换 IP"@
}

pub fn timer_cooldown_wait_message(server_name: &str, remaining: Duration) -> (r: String)
    ensures
        r@ == cooldown_wait_text(server_name@, remaining.secs as nat),
{
    let mut r = "⏳ 换 IP 频率限制中\n\n📡 ".to_owned();
    r.append(server_name);
    r.append("\n\n预计 ");
    r.append(format_wait_duration(remaining).as_str());
    r.append("后继续换 IP");
    r
}

// ---------------------------------------------------------------------------
// After the change
// ---------------------------------------------------------------------------

pub open spec fn ip_or_na(ip: Option<Seq<char>>) -> Seq<char> {
    match ip {
        Some(t) => t,
        None => "N/A"@,
    }
}

fn ip_text_or_na(ip: &Option<IpAddress>) -> (r: String)
    ensures
        r@ == ip_or_na(opt_ip(*ip)),
{
    match ip {
        Some(i) => i.text.clone(),
        None => "N/A".to_owned(),
    }
}

pub open spec fn retry_success_text(r: ResultModel) -> Seq<char> {
    "✅ 重试换 IP 成功\n\n📡 "@ + r.server_name + "\n\n旧 IP：\n\n"@ + ip_or_na(r.old_ip)
        + "\n\n新 IP：\n\n"@ + ip_or_na(r.new_ip)
}

pub fn format_timer_retry_success(result: &ReconnectResult) -> (r: String)
    ensures
        r@ == retry_success_text(result@),
{
    let mut r = "✅ 重试换 IP 成功\n\n📡 ".to_owned();
    r.append(result.server_name.as_str());
    r.append("\n\n旧 IP：\n\n");
    r.append(ip_text_or_na(&result.old_ip).as_str());
    r.append("\n\n新 IP：\n\n");
    r.append(ip_text_or_na(&result.new_ip).as_str());
    r
}

pub open spec fn status_line(status: ReconnectStatus) -> Seq<char> {
    match status {
        ReconnectStatus::Success => "✅ 换 IP 成功"@,
        ReconnectStatus::RateLimited => "⏳ 换 IP 频率限制中"@,
        ReconnectStatus::ChangeAcceptedButUnconfirmed => "⚠️ 换 IP 已提交，但暂时无法确认结果"@,
        _ => "❌ 换 IP 失败"@,
    }
}

pub fn timer_status_message(result: &ReconnectResult) -> (r: &'static str)
    ensures
        r@ == status_line(result.status),
{
    match result.status {
        ReconnectStatus::Success => "✅ 换 IP 成功",
        ReconnectStatus::RateLimited => "⏳ 换 IP 频率限制中",
        ReconnectStatus::ChangeAcceptedButUnconfirmed => "⚠️ 换 IP 已提交，但暂时无法确认结果",
        _ => "❌ 换 IP 失败",
    }
}

pub open spec fn text_or(o: Option<Seq<char>>, d: Seq<char>) -> Seq<char> {
    match o {
        Some(t) => t,
        None => d,
    }
}

pub open spec fn reason_text(r: ResultModel) -> Seq<char> {
    match r.status {
        ReconnectStatus::Success => "换 IP 已完成"@,
        ReconnectStatus::Disabled => "这台 VPS 已禁用"@,
        ReconnectStatus::PreflightFailed => "换 IP 前查询当前 IP 失败，未发送换 IP 请求"@,
        ReconnectStatus::RateLimited => text_or(r.message, "换 IP 频率限制中，请稍后再试"@),
        ReconnectStatus::ApiRejected => text_or(r.message, "Boil API 拒绝请求"@),
        ReconnectStatus::ChangeAcceptedButUnconfirmed =>
            "查询新 IP 超时或暂时失败，请稍后使用 /status 查看"@,
        ReconnectStatus::InvalidResponse => "Boil API 响应无效"@,
    }
}

fn message_or(o: &Option<String>, d: &str) -> (r: String)
    ensures
        r@ == text_or(opt_text(*o), d@),
{
    match o {
        Some(t) => t.clone(),
        None => d.to_owned(),
    }
}

pub fn timer_reason(result: &ReconnectResult) -> (r: String)
    ensures
        r@ == reason_text(result@),
{
    match result.status {
        ReconnectStatus::Success => "换 IP 已完成".to_owned(),
        ReconnectStatus::Disabled => "这台 VPS 已禁用".to_owned(),
        ReconnectStatus::PreflightFailed => "换 IP 前查询当前 IP 失败，未发送换 IP 请求".to_owned(),
        ReconnectStatus::RateLimited => message_or(&result.message, "换 IP 频率限制中，请稍后再试"),
        ReconnectStatus::ApiRejected => message_or(&result.message, "Boil API 拒绝请求"),
        ReconnectStatus::ChangeAcceptedButUnconfirmed =>
            "查询新 IP 超时或暂时失败，请稍后使用 /status 查看".to_owned(),
        ReconnectStatus::InvalidResponse => "Boil API 响应无效".to_owned(),
    }
}

/// One line, where there is something to say.
pub open spec fn opt_labelled(prefix: Seq<char>, o: Option<Seq<char>>) -> Seq<Seq<char>> {
    match o {
        Some(t) => seq![prefix + t],
        None => Seq::empty(),
    }
}

pub open spec fn uses_text(uses_left: Option<u32>) -> Option<Seq<char>> {
    match uses_left {
        Some(n) => Some(decimal(n as nat)),
        None => None,
    }
}

/// The lines about one result.
pub open spec fn result_lines(r: ResultModel) -> Seq<Seq<char>> {
    seq!["📡 "@ + r.server_name, status_line(r.status)] + opt_labelled("旧 IP："@, r.old_ip)
        + opt_labelled("新 IP："@, r.new_ip) + opt_labelled("剩余次数："@, uses_text(r.uses_left))
        + (if r.status == ReconnectStatus::Success {
        Seq::empty()
    } else {
        seq!["原因："@ + reason_text(r)]
    })
}

fn push_line(lines: &mut Vec<String>, line: String)
    ensures
        texts(final(lines)@) == texts(old(lines)@) + seq![line@],
{
    lines.push(line);
    assert(texts(lines@) =~= texts(old(lines)@) + seq![line@]);
}

fn push_opt(lines: &mut Vec<String>, prefix: &str, value: Option<&str>)
    ensures
        texts(final(lines)@) == texts(old(lines)@) + opt_labelled(
            prefix@,
            match value {
                Some(v) => Some(v@),
                None => None,
            },
        ),
{
    match value {
        Some(v) => {
            push_line(lines, labelled(prefix, v));
        },
        None => {
            assert(texts(lines@) =~= texts(old(lines)@) + Seq::<Seq<char>>::empty());
        },
    }
}

fn append_timer_result_lines(lines: &mut Vec<String>, result: &ReconnectResult)
    ensures
        texts(final(lines)@) == texts(old(lines)@) + result_lines(result@),
{
    let ghost start = texts(lines@);
    push_line(lines, labelled("📡 ", result.server_name.as_str()));
    push_line(lines, timer_status_message(result).to_owned());
    let old_ip = match &result.old_ip {
        Some(ip) => Some(ip.text.as_str()),
        None => None,
    };
    push_opt(lines, "旧 IP：", old_ip);
    let new_ip = match &result.new_ip {
        Some(ip) => Some(ip.text.as_str()),
        None => None,
    };
    push_opt(lines, "新 IP：", new_ip);
    match result.uses_left {
        Some(n) => {
            let d = decimal_text(n as u64);
            push_opt(lines, "剩余次数：", Some(d.as_str()));
        },
        None => {
            push_opt(lines, "剩余次数：", None);
        },
    }
    if result.status != ReconnectStatus::Success {
        push_line(lines, labelled("原因：", timer_reason(result).as_str()));
    }
    assert(texts(lines@) =~= start + result_lines(result@));
}

pub open spec fn timer_result_text(r: ResultModel) -> Seq<char> {
    joined(seq!["⏰ 定时换 IP 完成"@, Seq::empty()] + result_lines(r), nl())
}

pub fn format_timer_result(result: &ReconnectResult) -> (r: String)
    ensures
        r@ == timer_result_text(result@),
{
    let mut lines: Vec<String> = Vec::new();
    lines.push("⏰ 定时换 IP 完成".to_owned());
    lines.push(String::new());
    assert(texts(lines@) =~= seq!["⏰ 定时换 IP 完成"@, Seq::empty()]);
    append_timer_result_lines(&mut lines, result);
    join(&lines, "\n")
}

/// The lines about several results, each with an empty line before it.
pub open spec fn all_result_lines(results: Seq<ResultModel>) -> Seq<Seq<char>>
    decreases results.len(),
{
    if results.len() == 0 {
        Seq::empty()
    } else {
        all_result_lines(results.drop_last()) + seq![Seq::empty()] + result_lines(results.last())
    }
}

/// How many results are failures.
pub open spec fn failures(results: Seq<ResultModel>) -> nat {
    (results.len() - count_status(results, ReconnectStatus::Success) - count_status(
        results,
        ReconnectStatus::ChangeAcceptedButUnconfirmed,
    )) as nat
}

pub open spec fn batch_text(results: Seq<ResultModel>) -> Seq<char> {
    joined(
        seq![
            "⏰ 定时换 IP 完成"@,
            Seq::empty(),
            "✅ 成功："@ + decimal(count_status(results, ReconnectStatus::Success)),
            "⚠️ 待确认："@ + decimal(
                count_status(results, ReconnectStatus::ChangeAcceptedButUnconfirmed),
            ),
            "❌ 失败："@ + decimal(failures(results)),
        ] + all_result_lines(results),
        nl(),
    )
}

pub fn format_timer_batch_result(result: &BatchReconnectResult) -> (r: String)
    ensures
        r@ == batch_text(result_models(result.results@)),
{
    let ghost m = result_models(result.results@);
    proof {
        lemma_counts(m);
    }
    let mut lines: Vec<String> = Vec::new();
    lines.push("⏰ 定时换 IP 完成".to_owned());
    lines.push(String::new());
    lines.push(labelled("✅ 成功：", decimal_text(result.success_count() as u64).as_str()));
    lines.push(labelled("⚠️ 待确认：", decimal_text(result.unconfirmed_count() as u64).as_str()));
    lines.push(labelled("❌ 失败：", decimal_text(result.failure_count() as u64).as_str()));
    let ghost head = texts(lines@);
    assert(head =~= seq![
        "⏰ 定时换 IP 完成"@,
        Seq::empty(),
        "✅ 成功："@ + decimal(count_status(m, ReconnectStatus::Success)),
        "⚠️ 待确认："@ + decimal(count_status(m, ReconnectStatus::ChangeAcceptedButUnconfirmed)),
        "❌ 失败："@ + decimal(failures(m)),
    ]);
    let mut i: usize = 0;
    assert(head + all_result_lines(m.subrange(0, 0)) =~= head);
    while i < result.results.len()
        invariant
            m == result_models(result.results@),
            i <= result.results@.len(),
            texts(lines@) == head + all_result_lines(m.subrange(0, i as int)),
        decreases result.results@.len() - i,
    {
        let ghost t = m.subrange(0, i + 1);
        assert(t.drop_last() =~= m.subrange(0, i as int));
        assert(t.last() == result.results@[i as int]@);
        push_line(&mut lines, String::new());
        append_timer_result_lines(&mut lines, &result.results[i]);
        assert(texts(lines@) =~= head + all_result_lines(t));
        i += 1;
    }
    assert(m.subrange(0, m.len() as int) =~= m);
    join(&lines, "\n")
}

/// The results are counted as successes, as unconfirmed and as failures, each once.
pub proof fn results_are_counted_once(results: Seq<ResultModel>)
    ensures
        count_status(results, ReconnectStatus::Success) + count_status(
            results,
            ReconnectStatus::ChangeAcceptedButUnconfirmed,
        ) + failures(results) == results.len(),
        failures(results) == results.filter(
            |r: ResultModel|
                r.status != ReconnectStatus::Success && r.status
                    != ReconnectStatus::ChangeAcceptedButUnconfirmed,
        ).len(),
    decreases results.len(),
{
    reveal(Seq::filter);
    lemma_counts(results);
    if results.len() > 0 {
        results_are_counted_once(results.drop_last());
        lemma_counts(results.drop_last());
    }
}

/// The message about a result names the server, says how it went, and has the addresses and
/// the uses that are known; a reason is given exactly where it was no success.
pub proof fn result_tells_what_is_known(r: ResultModel)
    ensures
        result_lines(r).contains("📡 "@ + r.server_name),
        r.old_ip matches Some(ip) ==> result_lines(r).contains("旧 IP："@ + ip),
        r.new_ip matches Some(ip) ==> result_lines(r).contains("新 IP："@ + ip),
        r.uses_left matches Some(n) ==> result_lines(r).contains("剩余次数："@ + decimal(n as nat)),
        r.status == ReconnectStatus::Success ==> result_lines(r)[1] == "✅ 换 IP 成功"@,
        r.status == ReconnectStatus::RateLimited ==> result_lines(r)[1]
            == "⏳ 换 IP 频率限制中"@,
        r.status == ReconnectStatus::ChangeAcceptedButUnconfirmed ==> result_lines(r)[1]
            == "⚠️ 换 IP 已提交，但暂时无法确认结果"@,
        r.status == ReconnectStatus::Disabled || r.status == ReconnectStatus::PreflightFailed
            || r.status == ReconnectStatus::ApiRejected || r.status
            == ReconnectStatus::InvalidResponse ==> result_lines(r)[1] == "❌ 换 IP 失败"@,
        r.status == ReconnectStatus::ApiRejected || r.status == ReconnectStatus::RateLimited ==> (
        r.message matches Some(m) ==> result_lines(r).last() == "原因："@ + m),
        result_lines(r).len() == 2 + (if r.old_ip is Some {
            1int
        } else {
            0
        }) + (if r.new_ip is Some {
            1int
        } else {
            0
        }) + (if r.uses_left is Some {
            1int
        } else {
            0
        }) + (if r.status == ReconnectStatus::Success {
            0int
        } else {
            1
        }),
{
    let ls = result_lines(r);
    assert(ls[0] == "📡 "@ + r.server_name);
    let o = if r.old_ip is Some {
        1int
    } else {
        0
    };
    let n = if r.new_ip is Some {
        1int
    } else {
        0
    };
    if let Some(ip) = r.old_ip {
        assert(ls[2] == "旧 IP："@ + ip);
    }
    if let Some(ip) = r.new_ip {
        assert(ls[2 + o] == "新 IP："@ + ip);
    }
    if let Some(k) = r.uses_left {
        assert(ls[2 + o + n] == "剩余次数："@ + decimal(k as nat));
    }
}

/// The message about several results has the lines of every one of them, in their order.
pub proof fn every_result_is_told(results: Seq<ResultModel>, i: int) -> (at: int)
    requires
        0 <= i < results.len(),
    ensures
        0 <= at <= at + result_lines(results[i]).len() <= all_result_lines(results).len(),
        all_result_lines(results).subrange(at, at + result_lines(results[i]).len())
            == result_lines(results[i]),
    decreases results.len(),
{
    let before = all_result_lines(results.drop_last());
    let all = all_result_lines(results);
    if i == results.len() - 1 {
        let at = before.len() as int + 1;
        assert(all.subrange(at, all.len() as int) =~= result_lines(results[i]));
        at
    } else {
        let at = every_result_is_told(results.drop_last(), i);
        assert(results.drop_last()[i] == results[i]);
        let n = result_lines(results[i]).len();
        assert(all.subrange(at, at + n) =~= before.subrange(at, at + n));
        at
    }
}

} // verus!
