//! The steps of one change: ask for the old address, wait if a change came too
//! recently, request the change once, and ask until a new address is there.

use vstd::prelude::*;
use crate::boil::{
    api_error_text, BoilApiError, ChangeIpResponse, GetIpResponse, IpAddress,
};
use crate::config::{ServerConfig, ServerModel};
use crate::reconnect::cooldown::{
    after_rate_limit, after_success, cooldown_hit_or_zero, hit_at, hit_or_zero,
    manual_cooldown_message, manual_cooldown_text, parse_rate_limit_next_available_at,
    rate_limit_time, wait_text, ChangeIpCooldownState, ReconnectCooldown,
};
use crate::reconnect::{
    base_model, base_result, change_error_status, change_status, preflight_error_status,
    preflight_status, ChangeIpCooldownMode, ReconnectPolicy, ReconnectProgress, ReconnectResult,
    ReconnectStatus, ResultModel,
};
use crate::redact::{cannot_overlap, mark, redacted, redaction_hides_the_secret};
use crate::text::contains_text;
use crate::time::Duration;

verus! {

pub open spec fn success_message() -> Seq<char> {
    "换 IP 已完成"@
}

pub open spec fn unconfirmed_message() -> Seq<char> {
    "换 IP 请求已被接受，Boil 后端仍在切换，请稍后使用 boil status 或 Telegram /status 查看。"@
}

pub open spec fn change_response_unconfirmed_message() -> Seq<char> {
    "换 IP 请求已发出，但 Boil API 响应暂时无法确认，正在查询最终 IP。"@
}

/// What is done next.
pub enum ReconnectAction {
    /// Ask the API for the address; the reply is the next event.
    QueryIp,
    /// Read the clock while no other change is under way.
    ReadClock,
    /// Request the change while no other change is under way.
    RequestChange,
    /// Tell of the waiting time, and wait.
    WaitCooldown(ReconnectCooldown),
    /// Tell that the new address is waited for, and wait.
    Verify { progress: ReconnectProgress, delay: Duration },
    /// Wait before the next query.
    Pause(Duration),
    /// Nothing more is to be done.
    Finish(ReconnectResult),
}

pub enum ActionModel {
    QueryIp,
    ReadClock,
    RequestChange,
    WaitCooldown(ReconnectCooldown),
    Verify { old_ip: Seq<char>, delay: Duration },
    Pause(Duration),
    Finish(ResultModel),
}

impl View for ReconnectAction {
    type V = ActionModel;

    open spec fn view(&self) -> ActionModel {
        match self {
            ReconnectAction::QueryIp => ActionModel::QueryIp,
            ReconnectAction::ReadClock => ActionModel::ReadClock,
            ReconnectAction::RequestChange => ActionModel::RequestChange,
            ReconnectAction::WaitCooldown(c) => ActionModel::WaitCooldown(*c),
            ReconnectAction::Verify { progress, delay } => match progress {
                ReconnectProgress::VerifyingNewIp { old_ip } => ActionModel::Verify {
                    old_ip: old_ip@,
                    delay: *delay,
                },
            },
            ReconnectAction::Pause(d) => ActionModel::Pause(*d),
            ReconnectAction::Finish(r) => ActionModel::Finish(r@),
        }
    }
}

/// What came of the last action.
pub enum ReconnectEvent {
    /// The reply to a query.
    Ip(Result<GetIpResponse, BoilApiError>),
    /// The time in Unix seconds.
    Clock(i64),
    /// The reply to a change that was requested at `request_at` and came at `now`.
    Change { request_at: i64, reply: Result<ChangeIpResponse, BoilApiError>, now: i64 },
    /// The wait is over.
    Waited,
}

enum Stage {
    Preflight,
    Cooldown { old_ip: IpAddress },
    Waiting { old_ip: IpAddress },
    Changing { old_ip: IpAddress },
    Settling { old_ip: IpAddress, result: ReconnectResult },
    Polling { old_ip: IpAddress, result: ReconnectResult },
    Done,
}

/// How far a change has come.
pub enum StageModel {
    /// The old address has been asked for.
    Preflight,
    /// The time has been asked for.
    Cooldown { old_ip: Seq<char> },
    /// The change has to wait.
    Waiting { old_ip: Seq<char> },
    /// The change has been requested.
    Changing { old_ip: Seq<char> },
    /// The change is made, or may have been made; the next query is waited for.
    Settling { old_ip: Seq<char>, result: ResultModel },
    /// The new address has been asked for.
    Polling { old_ip: Seq<char>, result: ResultModel },
    Done,
}

spec fn stage_model(s: Stage) -> StageModel {
    match s {
        Stage::Preflight => StageModel::Preflight,
        Stage::Cooldown { old_ip } => StageModel::Cooldown { old_ip: old_ip@ },
        Stage::Waiting { old_ip } => StageModel::Waiting { old_ip: old_ip@ },
        Stage::Changing { old_ip } => StageModel::Changing { old_ip: old_ip@ },
        Stage::Settling { old_ip, result } => StageModel::Settling {
            old_ip: old_ip@,
            result: result@,
        },
        Stage::Polling { old_ip, result } => StageModel::Polling {
            old_ip: old_ip@,
            result: result@,
        },
        Stage::Done => StageModel::Done,
    }
}

/// What a change is about.
pub struct Order {
    pub server: ServerModel,
    pub policy: ReconnectPolicy,
    pub mode: ChangeIpCooldownMode,
}

/// The events that can come in a stage.
pub open spec fn accepts(stage: StageModel, event: ReconnectEvent) -> bool {
    match stage {
        StageModel::Preflight => event is Ip,
        StageModel::Cooldown { .. } => event is Clock,
        StageModel::Waiting { .. } => event is Waited,
        StageModel::Changing { .. } => event is Change,
        StageModel::Settling { .. } => event is Waited,
        StageModel::Polling { .. } => event is Ip,
        StageModel::Done => false,
    }
}

/// The result of a change that is given up because it would have to wait.
pub open spec fn limited_result(
    server: ServerModel,
    old_ip: Seq<char>,
    cooldown: ReconnectCooldown,
) -> ResultModel {
    ResultModel {
        old_ip: Some(old_ip),
        next_allowed_at: Some(cooldown.available_at),
        ..base_model(
            server,
            ReconnectStatus::RateLimited,
            Some(manual_cooldown_text(cooldown.remaining.secs as nat)),
        )
    }
}

/// The result of an accepted change whose new address has not been seen.
pub open spec fn accepted_result(
    server: ServerModel,
    old_ip: Seq<char>,
    response: ChangeIpResponse,
) -> ResultModel {
    ResultModel {
        old_ip: Some(old_ip),
        uses_left: response.uses_left,
        next_allowed_at: match response.next_allowed_at {
            Some(t) => if t >= 0 {
                Some(t)
            } else {
                None
            },
            None => None,
        },
        ..base_model(
            server,
            ReconnectStatus::ChangeAcceptedButUnconfirmed,
            Some(unconfirmed_message()),
        )
    }
}

/// The result after an error of the change.
pub open spec fn failed_result(server: ServerModel, old_ip: Seq<char>, error: BoilApiError) -> ResultModel {
    ResultModel {
        old_ip: Some(old_ip),
        ..base_model(
            server,
            change_status(error),
            Some(
                if change_status(error) == ReconnectStatus::ChangeAcceptedButUnconfirmed {
                    change_response_unconfirmed_message()
                } else {
                    api_error_text(error)
                },
            ),
        )
    }
}

/// The result once a new address has been seen.
pub open spec fn confirmed_result(result: ResultModel, new_ip: Seq<char>) -> ResultModel {
    ResultModel {
        new_ip: Some(new_ip),
        changed: true,
        status: ReconnectStatus::Success,
        message: Some(success_message()),
        ..result
    }
}

/// The stage, the learnt waiting time and the action that follow an event.
pub open spec fn next(
    order: Order,
    stage: StageModel,
    cooldown: ChangeIpCooldownState,
    event: ReconnectEvent,
) -> (StageModel, ChangeIpCooldownState, ActionModel) {
    let done = |r: ResultModel| (StageModel::Done, cooldown, ActionModel::Finish(r));
    match (stage, event) {
        (StageModel::Preflight, ReconnectEvent::Ip(reply)) => match reply {
            Ok(r) => (StageModel::Cooldown { old_ip: r.ip@ }, cooldown, ActionModel::ReadClock),
            Err(e) => done(base_model(order.server, preflight_status(e), Some(api_error_text(e)))),
        },
        (StageModel::Cooldown { old_ip }, ReconnectEvent::Clock(now)) => match hit_at(
            cooldown,
            now as int,
        ) {
            Some(hit) => match order.mode {
                ChangeIpCooldownMode::FailFast => done(limited_result(order.server, old_ip, hit)),
                ChangeIpCooldownMode::Wait => (
                    StageModel::Waiting { old_ip },
                    cooldown,
                    ActionModel::WaitCooldown(hit),
                ),
            },
            None => (StageModel::Changing { old_ip }, cooldown, ActionModel::RequestChange),
        },
        (StageModel::Waiting { old_ip }, ReconnectEvent::Waited) => (
            StageModel::Cooldown { old_ip },
            cooldown,
            ActionModel::ReadClock,
        ),
        (
            StageModel::Changing { old_ip },
            ReconnectEvent::Change { request_at, reply, now },
        ) => match reply {
            Ok(r) => (
                StageModel::Settling { old_ip, result: accepted_result(order.server, old_ip, r) },
                after_success(cooldown, request_at as int),
                ActionModel::Verify { old_ip, delay: order.policy.initial_delay },
            ),
            Err(e) => match rate_limit_time(e) {
                Some(t) => {
                    let learnt = after_rate_limit(cooldown, request_at as int, t);
                    let hit = hit_or_zero(now as int, t);
                    match order.mode {
                        ChangeIpCooldownMode::FailFast => (
                            StageModel::Done,
                            learnt,
                            ActionModel::Finish(limited_result(order.server, old_ip, hit)),
                        ),
                        ChangeIpCooldownMode::Wait => if hit.remaining.secs > 0 {
                            (
                                StageModel::Waiting { old_ip },
                                learnt,
                                ActionModel::WaitCooldown(hit),
                            )
                        } else {
                            (StageModel::Cooldown { old_ip }, learnt, ActionModel::ReadClock)
                        },
                    }
                },
                None => if change_status(e) == ReconnectStatus::ChangeAcceptedButUnconfirmed {
                    (
                        StageModel::Settling {
                            old_ip,
                            result: failed_result(order.server, old_ip, e),
                        },
                        cooldown,
                        ActionModel::Verify { old_ip, delay: order.policy.initial_delay },
                    )
                } else {
                    done(failed_result(order.server, old_ip, e))
                },
            },
        },
        (StageModel::Settling { old_ip, result }, ReconnectEvent::Waited) => if result.poll_attempts
            < order.policy.max_poll_attempts {
            (
                StageModel::Polling {
                    old_ip,
                    result: ResultModel { poll_attempts: result.poll_attempts + 1, ..result },
                },
                cooldown,
                ActionModel::QueryIp,
            )
        } else {
            done(result)
        },
        (StageModel::Polling { old_ip, result }, ReconnectEvent::Ip(reply)) => match reply {
            Ok(r) if r.ip@ != old_ip => done(confirmed_result(result, r.ip@)),
            _ => if result.poll_attempts < order.policy.max_poll_attempts {
                (
                    StageModel::Settling { old_ip, result },
                    cooldown,
                    ActionModel::Pause(order.policy.poll_interval),
                )
            } else {
                done(result)
            },
        },
        _ => (stage, cooldown, ActionModel::ReadClock),
    }
}

/// The change of one server, under way.
pub struct ReconnectRun {
    server: ServerConfig,
    policy: ReconnectPolicy,
    mode: ChangeIpCooldownMode,
    stage: Stage,
}

impl ReconnectRun {
    pub closed spec fn order(&self) -> Order {
        Order { server: self.server@, policy: self.policy, mode: self.mode }
    }

    pub closed spec fn stage(&self) -> StageModel {
        stage_model(self.stage)
    }

    /// Begins a change. A server that is disabled is left alone, and an address that is
    /// known is not asked for.
    pub fn start(
        server: &ServerConfig,
        policy: ReconnectPolicy,
        current_ip: Option<IpAddress>,
        mode: ChangeIpCooldownMode,
    ) -> (r: (ReconnectRun, ReconnectAction))
        ensures
            r.0.order() == (Order { server: server@, policy, mode }),
            (r.0.stage(), r.1@) == first(server@, current_ip),
    {
        let (stage, action) = if !server.enabled {
            (
                Stage::Done,
                ReconnectAction::Finish(
                    base_result(server, ReconnectStatus::Disabled, Some("server is disabled")),
                ),
            )
        } else {
            match current_ip {
                Some(ip) => (Stage::Cooldown { old_ip: ip }, ReconnectAction::ReadClock),
                None => (Stage::Preflight, ReconnectAction::QueryIp),
            }
        };
        (ReconnectRun { server: server.clone(), policy, mode, stage }, action)
    }

    /// Takes an event; gives the next action.
    pub fn step(self, cooldown: &mut ChangeIpCooldownState, event: ReconnectEvent) -> (r: (
        ReconnectRun,
        ReconnectAction,
    ))
        requires
            accepts(self.stage(), event),
        ensures
            r.0.order() == self.order(),
            (r.0.stage(), *final(cooldown), r.1@) == next(
                self.order(),
                self.stage(),
                *old(cooldown),
                event,
            ),
    {
        let server = self.server;
        let policy = self.policy;
        let mode = self.mode;
        let (stage, action) = match (self.stage, event) {
            (Stage::Preflight, ReconnectEvent::Ip(reply)) => after_preflight(&server, reply),
            (Stage::Cooldown { old_ip }, ReconnectEvent::Clock(now)) => {
                match cooldown.cooldown_hit_at(now) {
                    Some(hit) => match mode {
                        ChangeIpCooldownMode::FailFast => (
                            Stage::Done,
                            ReconnectAction::Finish(limited(&server, old_ip, hit)),
                        ),
                        ChangeIpCooldownMode::Wait => (
                            Stage::Waiting { old_ip },
                            ReconnectAction::WaitCooldown(hit),
                        ),
                    },
                    None => (Stage::Changing { old_ip }, ReconnectAction::RequestChange),
                }
            },
            (Stage::Waiting { old_ip }, ReconnectEvent::Waited) => (
                Stage::Cooldown { old_ip },
                ReconnectAction::ReadClock,
            ),
            (Stage::Changing { old_ip }, ReconnectEvent::Change { request_at, reply, now }) => {
                match reply {
                    Ok(response) => {
                        cooldown.record_success(request_at);
                        let result = accepted(&server, &old_ip, response);
                        let progress = ReconnectProgress::VerifyingNewIp { old_ip: old_ip.clone() };
                        (
                            Stage::Settling { old_ip, result },
                            ReconnectAction::Verify { progress, delay: policy.initial_delay },
                        )
                    },
                    Err(error) => match parse_rate_limit_next_available_at(&error) {
                        Some(t) => {
                            cooldown.record_rate_limit(request_at, t);
                            let hit = cooldown_hit_or_zero(now, t);
                            match mode {
                                ChangeIpCooldownMode::FailFast => (
                                    Stage::Done,
                                    ReconnectAction::Finish(limited(&server, old_ip, hit)),
                                ),
                                ChangeIpCooldownMode::Wait => {
                                    if hit.remaining.secs > 0 {
                                        (
                                            Stage::Waiting { old_ip },
                                            ReconnectAction::WaitCooldown(hit),
                                        )
                                    } else {
                                        (Stage::Cooldown { old_ip }, ReconnectAction::ReadClock)
                                    }
                                },
                            }
                        },
                        None => after_change_error(&server, policy, old_ip, error),
                    },
                }
            },
            (Stage::Settling { old_ip, mut result }, ReconnectEvent::Waited) => {
                if result.poll_attempts < policy.max_poll_attempts {
                    result.poll_attempts = result.poll_attempts + 1;
                    (Stage::Polling { old_ip, result }, ReconnectAction::QueryIp)
                } else {
                    (Stage::Done, ReconnectAction::Finish(result))
                }
            },
            (Stage::Polling { old_ip, result }, ReconnectEvent::Ip(reply)) => after_poll(
                policy,
                old_ip,
                result,
                reply,
            ),
            (stage, _) => (stage, ReconnectAction::ReadClock),
        };
        (ReconnectRun { server, policy, mode, stage }, action)
    }
}

/// The stage and the action that a change begins with.
pub open spec fn first(server: ServerModel, current_ip: Option<IpAddress>) -> (
    StageModel,
    ActionModel,
) {
    if !server.enabled {
        (
            StageModel::Done,
            ActionModel::Finish(
                base_model(server, ReconnectStatus::Disabled, Some("server is disabled"@)),
            ),
        )
    } else {
        match current_ip {
            Some(ip) => (StageModel::Cooldown { old_ip: ip@ }, ActionModel::ReadClock),
            None => (StageModel::Preflight, ActionModel::QueryIp),
        }
    }
}

fn after_preflight(server: &ServerConfig, reply: Result<GetIpResponse, BoilApiError>) -> (r: (
    Stage,
    ReconnectAction,
))
    ensures
        match reply {
            Ok(g) => stage_model(r.0) == (StageModel::Cooldown { old_ip: g.ip@ }) && r.1@
                == ActionModel::ReadClock,
            Err(e) => stage_model(r.0) == StageModel::Done && r.1@ == ActionModel::Finish(
                base_model(server@, preflight_status(e), Some(api_error_text(e))),
            ),
        },
{
    match reply {
        Ok(response) => (Stage::Cooldown { old_ip: response.ip }, ReconnectAction::ReadClock),
        Err(error) => {
            let status = preflight_error_status(&error);
            let text = error.text();
            (Stage::Done, ReconnectAction::Finish(base_result(server, status, Some(text.as_str()))))
        },
    }
}

fn limited(server: &ServerConfig, old_ip: IpAddress, cooldown: ReconnectCooldown) -> (r:
    ReconnectResult)
    ensures
        r@ == limited_result(server@, old_ip@, cooldown),
{
    let message = manual_cooldown_message(cooldown.remaining);
    let mut result = base_result(server, ReconnectStatus::RateLimited, Some(message.as_str()));
    result.old_ip = Some(old_ip);
    result.next_allowed_at = Some(cooldown.available_at);
    result
}

fn accepted(server: &ServerConfig, old_ip: &IpAddress, response: ChangeIpResponse) -> (r:
    ReconnectResult)
    ensures
        r@ == accepted_result(server@, old_ip@, response),
{
    let mut result = base_result(
        server,
        ReconnectStatus::ChangeAcceptedButUnconfirmed,
        Some(
            "换 IP 请求已被接受，Boil 后端仍在切换，请稍后使用 boil status 或 Telegram /status 查看。",
        ),
    );
    result.old_ip = Some(old_ip.clone());
    result.uses_left = response.uses_left;
    result.next_allowed_at =
    match response.next_allowed_at {
        Some(t) => if t >= 0 {
            Some(t)
        } else {
            None
        },
        None => None,
    };
    result
}

fn after_change_error(
    server: &ServerConfig,
    policy: ReconnectPolicy,
    old_ip: IpAddress,
    error: BoilApiError,
) -> (r: (Stage, ReconnectAction))
    ensures
        if change_status(error) == ReconnectStatus::ChangeAcceptedButUnconfirmed {
            stage_model(r.0) == (StageModel::Settling {
                old_ip: old_ip@,
                result: failed_result(server@, old_ip@, error),
            }) && r.1@ == (ActionModel::Verify { old_ip: old_ip@, delay: policy.initial_delay })
        } else {
            stage_model(r.0) == StageModel::Done && r.1@ == ActionModel::Finish(
                failed_result(server@, old_ip@, error),
            )
        },
{
    let status = change_error_status(&error);
    if status == ReconnectStatus::ChangeAcceptedButUnconfirmed {
        let mut result = base_result(
            server,
            status,
            Some("换 IP 请求已发出，但 Boil API 响应暂时无法确认，正在查询最终 IP。"),
        );
        result.old_ip = Some(old_ip.clone());
        let progress = ReconnectProgress::VerifyingNewIp { old_ip: old_ip.clone() };
        (
            Stage::Settling { old_ip, result },
            ReconnectAction::Verify { progress, delay: policy.initial_delay },
        )
    } else {
        let text = error.text();
        let mut result = base_result(server, status, Some(text.as_str()));
        result.old_ip = Some(old_ip);
        (Stage::Done, ReconnectAction::Finish(result))
    }
}

fn after_poll(
    policy: ReconnectPolicy,
    old_ip: IpAddress,
    result: ReconnectResult,
    reply: Result<GetIpResponse, BoilApiError>,
) -> (r: (Stage, ReconnectAction))
    ensures
        if reply matches Ok(g) && g.ip@ != old_ip@ {
            stage_model(r.0) == StageModel::Done && r.1@ == ActionModel::Finish(
                confirmed_result(result@, reply->Ok_0.ip@),
            )
        } else if result.poll_attempts < policy.max_poll_attempts {
            stage_model(r.0) == (StageModel::Settling { old_ip: old_ip@, result: result@ }) && r.1@
                == ActionModel::Pause(policy.poll_interval)
        } else {
            stage_model(r.0) == StageModel::Done && r.1@ == ActionModel::Finish(result@)
        },
{
    match reply {
        Ok(response) => {
            if !response.ip.same(&old_ip) {
                let mut result = result;
                result.new_ip = Some(response.ip);
                result.changed = true;
                result.status = ReconnectStatus::Success;
                result.message = Some("换 IP 已完成".to_owned());
                return (Stage::Done, ReconnectAction::Finish(result));
            }
        },
        Err(_) => {},
    }
    if result.poll_attempts < policy.max_poll_attempts {
        (Stage::Settling { old_ip, result }, ReconnectAction::Pause(policy.poll_interval))
    } else {
        (Stage::Done, ReconnectAction::Finish(result))
    }
}

// ---------------------------------------------------------------------------
// What holds of every change
// ---------------------------------------------------------------------------

/// An event, and the waiting time that was known when it came.
pub struct Tick {
    pub cooldown: ChangeIpCooldownState,
    pub event: ReconnectEvent,
}

pub open spec fn later(ticks: Seq<Tick>) -> Seq<Tick> {
    ticks.subrange(1, ticks.len() as int)
}

/// The ticks can follow one another, from this stage on.
pub open spec fn fits(order: Order, stage: StageModel, ticks: Seq<Tick>) -> bool
    decreases ticks.len(),
{
    ticks.len() > 0 ==> accepts(stage, ticks[0].event) && fits(
        order,
        next(order, stage, ticks[0].cooldown, ticks[0].event).0,
        later(ticks),
    )
}

/// How often the change is requested.
pub open spec fn requests(order: Order, stage: StageModel, ticks: Seq<Tick>) -> nat
    decreases ticks.len(),
{
    if ticks.len() == 0 {
        0
    } else {
        let (s, c, a) = next(order, stage, ticks[0].cooldown, ticks[0].event);
        (if a is RequestChange {
            1nat
        } else {
            0nat
        }) + requests(order, s, later(ticks))
    }
}

/// How often the address is asked for.
pub open spec fn queries(order: Order, stage: StageModel, ticks: Seq<Tick>) -> nat
    decreases ticks.len(),
{
    if ticks.len() == 0 {
        0
    } else {
        let (s, c, a) = next(order, stage, ticks[0].cooldown, ticks[0].event);
        (if a is QueryIp {
            1nat
        } else {
            0nat
        }) + queries(order, s, later(ticks))
    }
}

/// A change that was refused because it came too early.
pub open spec fn is_refusal(event: ReconnectEvent) -> bool {
    event matches ReconnectEvent::Change { reply: Err(e), .. } && rate_limit_time(e) is Some
}

pub open spec fn refusals(ticks: Seq<Tick>) -> nat
    decreases ticks.len(),
{
    if ticks.len() == 0 {
        0
    } else {
        (if is_refusal(ticks[0].event) {
            1nat
        } else {
            0nat
        }) + refusals(later(ticks))
    }
}

/// Whether the change can still be requested without a refusal.
spec fn open_request(stage: StageModel) -> nat {
    match stage {
        StageModel::Preflight => 1,
        StageModel::Cooldown { .. } => 1,
        StageModel::Waiting { .. } => 1,
        _ => 0,
    }
}

proof fn lemma_requests(order: Order, stage: StageModel, ticks: Seq<Tick>)
    requires
        fits(order, stage, ticks),
    ensures
        requests(order, stage, ticks) <= open_request(stage) + refusals(ticks),
        order.mode == ChangeIpCooldownMode::FailFast ==> requests(order, stage, ticks)
            <= open_request(stage),
    decreases ticks.len(),
{
    if ticks.len() > 0 {
        let (s, c, a) = next(order, stage, ticks[0].cooldown, ticks[0].event);
        lemma_requests(order, s, later(ticks));
    }
}

/// Nothing follows the end.
proof fn lemma_done(order: Order, ticks: Seq<Tick>)
    requires
        fits(order, StageModel::Done, ticks),
    ensures
        ticks.len() == 0,
        requests(order, StageModel::Done, ticks) == 0,
        queries(order, StageModel::Done, ticks) == 0,
{
}

/// One change is requested once: whatever the replies are, there is one request at most,
/// and in the waiting mode one more for each refusal. A disabled server is sent none.
pub proof fn change_is_requested_once(
    server: ServerModel,
    policy: ReconnectPolicy,
    mode: ChangeIpCooldownMode,
    current_ip: Option<IpAddress>,
    ticks: Seq<Tick>,
)
    requires
        fits(Order { server, policy, mode }, first(server, current_ip).0, ticks),
    ensures
        requests(Order { server, policy, mode }, first(server, current_ip).0, ticks) <= 1
            + refusals(ticks),
        mode == ChangeIpCooldownMode::FailFast ==> requests(
            Order { server, policy, mode },
            first(server, current_ip).0,
            ticks,
        ) <= 1,
        !server.enabled ==> ticks.len() == 0 && requests(
            Order { server, policy, mode },
            first(server, current_ip).0,
            ticks,
        ) == 0,
{
    lemma_requests(Order { server, policy, mode }, first(server, current_ip).0, ticks);
}

/// Once a change has been accepted, or may have been, no further one is requested and
/// the address is asked for `max_poll_attempts` times at most.
pub proof fn accepted_change_is_only_polled(order: Order, stage: StageModel, ticks: Seq<Tick>)
    requires
        fits(order, stage, ticks),
        stage is Settling || stage is Polling,
        stage matches StageModel::Settling { result, .. } ==> result.poll_attempts
            <= order.policy.max_poll_attempts,
        stage matches StageModel::Polling { result, .. } ==> result.poll_attempts
            <= order.policy.max_poll_attempts,
    ensures
        requests(order, stage, ticks) == 0,
        stage matches StageModel::Settling { result, .. } ==> queries(order, stage, ticks)
            + result.poll_attempts <= order.policy.max_poll_attempts,
        stage matches StageModel::Polling { result, .. } ==> queries(order, stage, ticks)
            + result.poll_attempts <= order.policy.max_poll_attempts,
    decreases ticks.len(),
{
    if ticks.len() > 0 {
        let (s, c, a) = next(order, stage, ticks[0].cooldown, ticks[0].event);
        if s is Settling || s is Polling {
            accepted_change_is_only_polled(order, s, later(ticks));
        } else {
            lemma_done(order, later(ticks));
        }
    }
}

/// A change whose first query failed is not requested.
pub proof fn failed_preflight_requests_nothing(order: Order, ticks: Seq<Tick>)
    requires
        fits(order, StageModel::Preflight, ticks),
        ticks.len() > 0,
        ticks[0].event matches ReconnectEvent::Ip(Err(_)),
    ensures
        requests(order, StageModel::Preflight, ticks) == 0,
{
    let (s, c, a) = next(order, StageModel::Preflight, ticks[0].cooldown, ticks[0].event);
    assert(s == StageModel::Done);
    lemma_done(order, later(ticks));
}

/// A change is never requested before its time. It is requested only on a reading of the
/// clock, and only where no allowed time that is known lies after that reading; the reply to
/// it is then waited for.
pub proof fn change_waits_for_its_time(
    order: Order,
    stage: StageModel,
    cooldown: ChangeIpCooldownState,
    event: ReconnectEvent,
)
    requires
        accepts(stage, event),
    ensures
        next(order, stage, cooldown, event).2 is RequestChange <==> {
            &&& stage is Cooldown
            &&& event matches ReconnectEvent::Clock(now) && (
            cooldown.next_changeip_available_at matches Some(at) ==> at <= now)
        },
        next(order, stage, cooldown, event).2 is RequestChange <==> next(
            order,
            stage,
            cooldown,
            event,
        ).0 is Changing,
        stage matches StageModel::Cooldown { old_ip } ==> (next(
            order,
            stage,
            cooldown,
            event,
        ).0 matches StageModel::Changing { old_ip: ip } ==> ip == old_ip),
{
}

/// A change that comes too early waits for exactly the time that is left, or is given up in
/// the mode that does not wait. Nothing is learnt from the clock.
pub proof fn early_change_is_held_back(
    order: Order,
    old_ip: Seq<char>,
    cooldown: ChangeIpCooldownState,
    at: i64,
    now: i64,
)
    requires
        cooldown.next_changeip_available_at == Some(at),
        now < at,
    ensures
        ({
            let (s, c, a) = next(
                order,
                StageModel::Cooldown { old_ip },
                cooldown,
                ReconnectEvent::Clock(now),
            );
            &&& c == cooldown
            &&& order.mode == ChangeIpCooldownMode::Wait ==> {
                &&& s == StageModel::Waiting { old_ip }
                &&& a matches ActionModel::WaitCooldown(h) && h.available_at == at
                    && h.remaining.nanos == 0 && h.remaining.secs == (if at - now <= i64::MAX {
                    at - now
                } else {
                    i64::MAX as int
                })
            }
            &&& order.mode == ChangeIpCooldownMode::FailFast ==> {
                &&& s == StageModel::Done
                &&& a matches ActionModel::Finish(r) && r.status == ReconnectStatus::RateLimited
                    && r.next_allowed_at == Some(at) && r.old_ip == Some(old_ip) && r.new_ip is None
                    && !r.changed && r.poll_attempts == 0 && r.uses_left is None && (at - now
                    <= i64::MAX ==> r.message == Some(
                    redacted(
                        "⏳ 换 IP 频率限制中\n\n预计 "@ + wait_text((at - now) as nat)
                            + "后可再次换 IP"@,
                        order.server.token,
                    ),
                ))
            }
        }),
{
}

/// A change whose time has come is requested, in either mode; and after every wait for it
/// the clock is read again.
pub proof fn due_change_is_requested(
    order: Order,
    old_ip: Seq<char>,
    cooldown: ChangeIpCooldownState,
    now: i64,
)
    ensures
        (cooldown.next_changeip_available_at matches Some(at) ==> at <= now) ==> next(
            order,
            StageModel::Cooldown { old_ip },
            cooldown,
            ReconnectEvent::Clock(now),
        ) == (StageModel::Changing { old_ip }, cooldown, ActionModel::RequestChange),
        next(order, StageModel::Waiting { old_ip }, cooldown, ReconnectEvent::Waited) == (
            StageModel::Cooldown { old_ip },
            cooldown,
            ActionModel::ReadClock,
        ),
{
}

/// Over any run: no change is requested while an allowed time that is known then lies ahead.
pub open spec fn requests_in_time(order: Order, stage: StageModel, ticks: Seq<Tick>) -> bool
    decreases ticks.len(),
{
    ticks.len() > 0 ==> {
        let (s, c, a) = next(order, stage, ticks[0].cooldown, ticks[0].event);
        &&& a is RequestChange ==> (ticks[0].event matches ReconnectEvent::Clock(now) && (
        ticks[0].cooldown.next_changeip_available_at matches Some(at) ==> at <= now))
        &&& requests_in_time(order, s, later(ticks))
    }
}

pub proof fn no_run_requests_too_early(order: Order, stage: StageModel, ticks: Seq<Tick>)
    requires
        fits(order, stage, ticks),
    ensures
        requests_in_time(order, stage, ticks),
    decreases ticks.len(),
{
    if ticks.len() > 0 {
        let (s, c, a) = next(order, stage, ticks[0].cooldown, ticks[0].event);
        change_waits_for_its_time(order, stage, ticks[0].cooldown, ticks[0].event);
        no_run_requests_too_early(order, s, later(ticks));
    }
}

/// A change begins with the address that is known, or asks for it. A server that is disabled
/// is left alone.
pub proof fn change_begins_with_the_address(server: ServerModel, current_ip: Option<IpAddress>)
    ensures
        !server.enabled ==> {
            &&& first(server, current_ip).0 == StageModel::Done
            &&& first(server, current_ip).1 matches ActionModel::Finish(r) && r.status
                == ReconnectStatus::Disabled && !r.changed && r.old_ip is None && r.new_ip is None
        },
        server.enabled && current_ip is None ==> first(server, current_ip) == (
            StageModel::Preflight,
            ActionModel::QueryIp,
        ),
        server.enabled ==> (current_ip matches Some(ip) ==> first(server, current_ip) == (
            StageModel::Cooldown { old_ip: ip@ },
            ActionModel::ReadClock,
        )),
{
}

/// The address that the API gives first is the old one. Without it the change is given up,
/// for a reason that tells a refusal, an answer that makes no sense and a failure apart.
pub proof fn first_query_gives_the_old_address(
    order: Order,
    cooldown: ChangeIpCooldownState,
    reply: Result<GetIpResponse, BoilApiError>,
)
    ensures
        ({
            let (s, c, a) = next(
                order,
                StageModel::Preflight,
                cooldown,
                ReconnectEvent::Ip(reply),
            );
            &&& c == cooldown
            &&& reply matches Ok(g) ==> s == (StageModel::Cooldown { old_ip: g.ip@ }) && a
                == ActionModel::ReadClock
            &&& reply matches Err(e) ==> {
                &&& s == StageModel::Done
                &&& a matches ActionModel::Finish(r) && !r.changed && r.old_ip is None && r.new_ip
                    is None && r.message == Some(redacted(api_error_text(e), order.server.token))
                    && r.status == (if e is ApiRejected {
                    ReconnectStatus::ApiRejected
                } else if e is Transport || e is HttpStatus {
                    ReconnectStatus::PreflightFailed
                } else {
                    ReconnectStatus::InvalidResponse
                })
            }
        }),
{
}

/// An accepted change is remembered with its time, and the new address is waited for. What
/// the API told of it is in the result, which counts no query yet.
pub proof fn accepted_change_is_remembered(
    order: Order,
    old_ip: Seq<char>,
    cooldown: ChangeIpCooldownState,
    request_at: i64,
    response: ChangeIpResponse,
    now: i64,
)
    ensures
        ({
            let (s, c, a) = next(
                order,
                StageModel::Changing { old_ip },
                cooldown,
                ReconnectEvent::Change { request_at, reply: Ok(response), now },
            );
            &&& a == (ActionModel::Verify { old_ip, delay: order.policy.initial_delay })
            &&& c.last_changeip_at == Some(request_at)
            &&& c.cooldown == cooldown.cooldown
            &&& cooldown.cooldown matches Some(d) ==> (d.secs <= i64::MAX && request_at + d.secs
                <= i64::MAX ==> c.next_changeip_available_at == Some((request_at + d.secs) as i64))
            &&& cooldown.cooldown is None ==> c.next_changeip_available_at
                == cooldown.next_changeip_available_at
            &&& s matches StageModel::Settling { old_ip: ip, result } && ip == old_ip
                && result.old_ip == Some(old_ip) && result.new_ip is None && !result.changed
                && result.status == ReconnectStatus::ChangeAcceptedButUnconfirmed
                && result.poll_attempts == 0 && result.uses_left == response.uses_left && (
            result.message == Some(
                redacted(
                    "换 IP 请求已被接受，Boil 后端仍在切换，请稍后使用 boil status 或 Telegram /status 查看。"@,
                    order.server.token,
                ),
            )) && (response.next_allowed_at matches Some(t) ==> result.next_allowed_at == (if t >= 0 {
                Some(t)
            } else {
                None
            })) && (response.next_allowed_at is None ==> result.next_allowed_at is None)
        }),
{
}

/// A change that the API refused as too early teaches when it is allowed: three seconds
/// after the time that was named. In the waiting mode it waits until then, in the other it is
/// given up.
pub proof fn refused_change_waits(
    order: Order,
    old_ip: Seq<char>,
    cooldown: ChangeIpCooldownState,
    request_at: i64,
    e: BoilApiError,
    t: i64,
    now: i64,
)
    requires
        rate_limit_time(e) == Some(t as int),
        t + 3 <= i64::MAX,
        t + 3 - now <= i64::MAX,
    ensures
        ({
            let (s, c, a) = next(
                order,
                StageModel::Changing { old_ip },
                cooldown,
                ReconnectEvent::Change { request_at, reply: Err(e), now },
            );
            &&& c.next_changeip_available_at == Some((t + 3) as i64)
            &&& c.last_changeip_at == cooldown.last_changeip_at
            &&& c.cooldown is Some
            &&& cooldown.cooldown matches Some(d) ==> (c.cooldown matches Some(k) && k.secs
                >= d.secs)
            &&& order.mode == ChangeIpCooldownMode::Wait && now < t + 3 ==> {
                &&& s == StageModel::Waiting { old_ip }
                &&& a matches ActionModel::WaitCooldown(h) && h.available_at == t + 3
                    && h.remaining.secs == t + 3 - now && h.remaining.nanos == 0
            }
            &&& order.mode == ChangeIpCooldownMode::Wait && now >= t + 3 ==> s == (
            StageModel::Cooldown { old_ip }) && a == ActionModel::ReadClock
            &&& order.mode == ChangeIpCooldownMode::FailFast ==> {
                &&& s == StageModel::Done
                &&& a matches ActionModel::Finish(r) && r.status == ReconnectStatus::RateLimited
                    && r.next_allowed_at == Some((t + 3) as i64) && r.old_ip == Some(old_ip)
                    && r.new_ip is None && !r.changed
            }
        }),
{
}

/// Where the reply to a change got lost, the change may have been made: the new address is
/// waited for. Where the API said no, or nothing that makes sense, the change is over. Nothing
/// is learnt of the cooldown in either case.
pub proof fn failed_change_is_looked_after(
    order: Order,
    old_ip: Seq<char>,
    cooldown: ChangeIpCooldownState,
    request_at: i64,
    e: BoilApiError,
    now: i64,
)
    requires
        rate_limit_time(e) is None,
    ensures
        ({
            let (s, c, a) = next(
                order,
                StageModel::Changing { old_ip },
                cooldown,
                ReconnectEvent::Change { request_at, reply: Err(e), now },
            );
            &&& c == cooldown
            &&& e is Transport || e is HttpStatus ==> {
                &&& a == (ActionModel::Verify { old_ip, delay: order.policy.initial_delay })
                &&& s matches StageModel::Settling { old_ip: ip, result } && ip == old_ip
                    && result.old_ip == Some(old_ip) && result.new_ip is None && !result.changed
                    && result.status == ReconnectStatus::ChangeAcceptedButUnconfirmed
                    && result.poll_attempts == 0 && result.uses_left is None
                    && result.next_allowed_at is None && result.message == Some(
                    redacted(
                        "换 IP 请求已发出，但 Boil API 响应暂时无法确认，正在查询最终 IP。"@,
                        order.server.token,
                    ),
                )
            }
            &&& !(e is Transport || e is HttpStatus) ==> {
                &&& s == StageModel::Done
                &&& a matches ActionModel::Finish(r) && !r.changed && r.old_ip == Some(old_ip)
                    && r.new_ip is None && r.message == Some(
                    redacted(api_error_text(e), order.server.token),
                ) && r.status == (if e is ApiRejected {
                    ReconnectStatus::ApiRejected
                } else {
                    ReconnectStatus::InvalidResponse
                })
            }
        }),
{
}

/// The new address is asked for as long as queries are left, each counted once. The first
/// address that is not the old one is the new one, and the change is a success then; else it
/// stays unconfirmed, and all else that the result says stays.
pub proof fn new_address_is_polled_for(
    order: Order,
    old_ip: Seq<char>,
    result: ResultModel,
    cooldown: ChangeIpCooldownState,
    reply: Result<GetIpResponse, BoilApiError>,
)
    ensures
        result.poll_attempts < order.policy.max_poll_attempts ==> next(
            order,
            StageModel::Settling { old_ip, result },
            cooldown,
            ReconnectEvent::Waited,
        ) == (
            StageModel::Polling {
                old_ip,
                result: ResultModel { poll_attempts: result.poll_attempts + 1, ..result },
            },
            cooldown,
            ActionModel::QueryIp,
        ),
        result.poll_attempts >= order.policy.max_poll_attempts ==> next(
            order,
            StageModel::Settling { old_ip, result },
            cooldown,
            ReconnectEvent::Waited,
        ) == (StageModel::Done, cooldown, ActionModel::Finish(result)),
        ({
            let (s, c, a) = next(
                order,
                StageModel::Polling { old_ip, result },
                cooldown,
                ReconnectEvent::Ip(reply),
            );
            let seen = reply matches Ok(g) && g.ip@ != old_ip;
            &&& c == cooldown
            &&& seen ==> {
                &&& s == StageModel::Done
                &&& a matches ActionModel::Finish(r) && r.changed && r.status
                    == ReconnectStatus::Success && r.new_ip == Some(reply->Ok_0.ip@) && r.old_ip
                    == result.old_ip && r.uses_left == result.uses_left && r.next_allowed_at
                    == result.next_allowed_at && r.poll_attempts == result.poll_attempts
                    && r.server_id == result.server_id && r.server_name == result.server_name
                    && r.message == Some("换 IP 已完成"@)
            }
            &&& !seen && result.poll_attempts < order.policy.max_poll_attempts ==> s == (
            StageModel::Settling { old_ip, result }) && a == ActionModel::Pause(
                order.policy.poll_interval,
            )
            &&& !seen && result.poll_attempts >= order.policy.max_poll_attempts ==> s
                == StageModel::Done && a == ActionModel::Finish(result)
        }),
{
}

/// A new address that does not come: the ticks of a wait and a query that gives the old one.
pub open spec fn old_address_again(ticks: Seq<Tick>, old_ip: Seq<char>) -> bool {
    forall|i: int|
        0 <= i < ticks.len() ==> match #[trigger] ticks[i].event {
            ReconnectEvent::Waited => i % 2 == 0,
            ReconnectEvent::Ip(Ok(g)) => i % 2 == 1 && g.ip@ == old_ip,
            ReconnectEvent::Ip(Err(_)) => i % 2 == 1,
            _ => false,
        }
}

/// An accepted change whose new address does not come is asked about exactly as often as
/// the policy says.
pub proof fn unconfirmed_change_is_polled_to_the_end(
    order: Order,
    old_ip: Seq<char>,
    result: ResultModel,
    ticks: Seq<Tick>,
)
    requires
        result.poll_attempts <= order.policy.max_poll_attempts,
        ticks.len() == 2 * (order.policy.max_poll_attempts - result.poll_attempts),
        old_address_again(ticks, old_ip),
    ensures
        fits(order, StageModel::Settling { old_ip, result }, ticks),
        queries(order, StageModel::Settling { old_ip, result }, ticks)
            == order.policy.max_poll_attempts - result.poll_attempts,
    decreases ticks.len(),
{
    if ticks.len() > 0 {
        let stage = StageModel::Settling { old_ip, result };
        let counted = ResultModel { poll_attempts: result.poll_attempts + 1, ..result };
        let polling = StageModel::Polling { old_ip, result: counted };
        let t1 = later(ticks);
        let t2 = later(t1);
        assert(ticks[0].event is Waited);
        assert(t1[0] == ticks[1]);
        assert(ticks[1].event is Ip);
        assert(next(order, stage, ticks[0].cooldown, ticks[0].event).0 == polling);
        assert forall|i: int| 0 <= i < t2.len() implies match #[trigger] t2[i].event {
            ReconnectEvent::Waited => i % 2 == 0,
            ReconnectEvent::Ip(Ok(g)) => i % 2 == 1 && g.ip@ == old_ip,
            ReconnectEvent::Ip(Err(_)) => i % 2 == 1,
            _ => false,
        } by {
            assert(t2[i] == ticks[i + 2]);
        }
        if counted.poll_attempts < order.policy.max_poll_attempts {
            unconfirmed_change_is_polled_to_the_end(order, old_ip, counted, t2);
        } else {
            assert(t2.len() == 0);
        }
        reveal_with_fuel(fits, 3);
        reveal_with_fuel(queries, 3);
    }
}

/// What holds of a result: it is a success exactly where another address than the old
/// one was seen, the times are not negative, and id and name are without the token.
pub open spec fn result_ok(order: Order, r: ResultModel) -> bool {
    &&& r.server_id == redacted(order.server.id, order.server.token)
    &&& r.server_name == redacted(order.server.name, order.server.token)
    &&& r.changed == (r.status == ReconnectStatus::Success)
    &&& r.changed ==> r.old_ip is Some && r.new_ip is Some && r.new_ip != r.old_ip
    &&& !r.changed ==> r.new_ip is None
    &&& r.status != ReconnectStatus::RateLimited ==> (r.next_allowed_at matches Some(t) ==> t >= 0)
    &&& r.poll_attempts <= order.policy.max_poll_attempts
}

/// What holds in a stage.
pub open spec fn stage_ok(order: Order, stage: StageModel) -> bool {
    match stage {
        StageModel::Settling { old_ip, result } => result_ok(order, result) && !result.changed
            && result.old_ip == Some(old_ip) && result.status
            == ReconnectStatus::ChangeAcceptedButUnconfirmed,
        StageModel::Polling { old_ip, result } => result_ok(order, result) && !result.changed
            && result.old_ip == Some(old_ip) && result.status
            == ReconnectStatus::ChangeAcceptedButUnconfirmed,
        _ => true,
    }
}

/// Whatever comes, what holds of results holds when a change is finished.
pub proof fn results_are_sound(
    order: Order,
    stage: StageModel,
    cooldown: ChangeIpCooldownState,
    event: ReconnectEvent,
)
    requires
        accepts(stage, event),
        stage_ok(order, stage),
    ensures
        stage_ok(order, next(order, stage, cooldown, event).0),
        next(order, stage, cooldown, event).2 matches ActionModel::Finish(r) ==> result_ok(
            order,
            r,
        ) && next(order, stage, cooldown, event).0 == StageModel::Done,
{
}

/// A change begins in a stage in which that holds.
pub proof fn first_stage_is_sound(order: Order, current_ip: Option<IpAddress>)
    ensures
        stage_ok(order, first(order.server, current_ip).0),
        first(order.server, current_ip).1 matches ActionModel::Finish(r) ==> result_ok(order, r),
{
}

/// No text of a result holds the token.
pub open spec fn hides(token: Seq<char>, r: ResultModel) -> bool {
    &&& !contains_text(r.server_id, token)
    &&& !contains_text(r.server_name, token)
    &&& r.message matches Some(m) ==> !contains_text(m, token)
}

pub open spec fn stage_hides(token: Seq<char>, stage: StageModel) -> bool {
    match stage {
        StageModel::Settling { result, .. } => hides(token, result),
        StageModel::Polling { result, .. } => hides(token, result),
        _ => true,
    }
}

/// A token that does not overlap with its mark, and is no part of the message of success.
pub open spec fn can_be_hidden(token: Seq<char>) -> bool {
    token.len() > 0 && cannot_overlap(token, mark()) && !contains_text(success_message(), token)
}

proof fn lemma_base_hides(server: ServerModel, status: ReconnectStatus, message: Option<Seq<char>>)
    requires
        can_be_hidden(server.token),
    ensures
        hides(server.token, base_model(server, status, message)),
{
    redaction_hides_the_secret(server.id, server.token);
    redaction_hides_the_secret(server.name, server.token);
    match message {
        Some(m) => {
            redaction_hides_the_secret(m, server.token);
        },
        None => {},
    }
}

/// Whatever the API replies, no result holds the token.
pub proof fn results_hide_the_token(
    order: Order,
    stage: StageModel,
    cooldown: ChangeIpCooldownState,
    event: ReconnectEvent,
)
    requires
        accepts(stage, event),
        can_be_hidden(order.server.token),
        stage_hides(order.server.token, stage),
    ensures
        stage_hides(order.server.token, next(order, stage, cooldown, event).0),
        next(order, stage, cooldown, event).2 matches ActionModel::Finish(r) ==> hides(
            order.server.token,
            r,
        ),
{
    assert forall|status: ReconnectStatus, message: Option<Seq<char>>| hides(
        order.server.token,
        #[trigger] base_model(order.server, status, message),
    ) by {
        lemma_base_hides(order.server, status, message);
    }
}

/// The first result, of a server that is disabled, does not hold the token either.
pub proof fn first_result_hides_the_token(server: ServerModel, current_ip: Option<IpAddress>)
    requires
        can_be_hidden(server.token),
    ensures
        stage_hides(server.token, first(server, current_ip).0),
        first(server, current_ip).1 matches ActionModel::Finish(r) ==> hides(server.token, r),
{
    lemma_base_hides(server, ReconnectStatus::Disabled, Some("server is disabled"@));
}

} // verus!
