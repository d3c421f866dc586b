//! What is done after the first query of a timed change failed: the change is tried
//! again after five minutes, after half an hour and after an hour.

use vstd::prelude::*;
use crate::config::{AppConfig, ConfigModel, SecretToken, ServerConfig, ServerModel};
use crate::reconnect::{ReconnectResult, ReconnectStatus};
use crate::text::same_text;
use crate::time::Duration;
use crate::timer::message::{
    format_timer_result, format_timer_retry_success, get_ip_failed_text, retry_start_text,
    retry_success_text, timer_result_text, timer_retry_get_ip_failed_message,
    timer_retry_start_message,
};
use crate::timer::is_active;

verus! {

/// The timer that a change belongs to.
#[derive(Clone, Copy, Debug, PartialEq, Eq, Structural)]
pub enum TimerRetrySource {
    SingleServer,
    GlobalTimer,
}

impl TimerRetrySource {
    pub open spec fn name(self) -> Seq<char> {
        match self {
            TimerRetrySource::SingleServer => "single"@,
            TimerRetrySource::GlobalTimer => "global"@,
        }
    }

    pub fn label(self) -> (r: &'static str)
        ensures
            r@ == self.name(),
    {
        match self {
            TimerRetrySource::SingleServer => "single",
            TimerRetrySource::GlobalTimer => "global",
        }
    }
}

#[derive(Clone, Copy, Debug, PartialEq, Eq, Structural)]
pub enum TimerRetryAttempt {
    First,
    Second,
    Third,
}

impl TimerRetryAttempt {
    pub open spec fn at(index: int) -> TimerRetryAttempt {
        if index == 0 {
            TimerRetryAttempt::First
        } else if index == 1 {
            TimerRetryAttempt::Second
        } else {
            TimerRetryAttempt::Third
        }
    }

    pub open spec fn name(self) -> Seq<char> {
        match self {
            TimerRetryAttempt::First => "第一次"@,
            TimerRetryAttempt::Second => "第二次"@,
            TimerRetryAttempt::Third => "第三次"@,
        }
    }

    pub fn from_index(index: usize) -> (r: Self)
        ensures
            r == TimerRetryAttempt::at(index as int),
    {
        if index == 0 {
            TimerRetryAttempt::First
        } else if index == 1 {
            TimerRetryAttempt::Second
        } else {
            TimerRetryAttempt::Third
        }
    }

    pub fn label(self) -> (r: &'static str)
        ensures
            r@ == self.name(),
    {
        match self {
            TimerRetryAttempt::First => "第一次",
            TimerRetryAttempt::Second => "第二次",
            TimerRetryAttempt::Third => "第三次",
        }
    }

    pub fn next_delay_text(self) -> (r: Option<&'static str>)
        ensures
            match self {
                TimerRetryAttempt::First => r matches Some(s) && s@ == "30 分钟"@,
                TimerRetryAttempt::Second => r matches Some(s) && s@ == "1 小时"@,
                TimerRetryAttempt::Third => r is None,
            },
    {
        match self {
            TimerRetryAttempt::First => Some("30 分钟"),
            TimerRetryAttempt::Second => Some("1 小时"),
            TimerRetryAttempt::Third => None,
        }
    }

    pub fn next_attempt_label(self) -> (r: Option<&'static str>)
        ensures
            match self {
                TimerRetryAttempt::First => r matches Some(s) && s@ == "第二次"@,
                TimerRetryAttempt::Second => r matches Some(s) && s@ == "第三次"@,
                TimerRetryAttempt::Third => r is None,
            },
    {
        match self {
            TimerRetryAttempt::First => Some("第二次"),
            TimerRetryAttempt::Second => Some("第三次"),
            TimerRetryAttempt::Third => None,
        }
    }

    pub fn is_final(self) -> (r: bool)
        ensures
            r == (self == TimerRetryAttempt::Third),
    {
        self == TimerRetryAttempt::Third
    }
}

/// The seconds before an attempt.
pub open spec fn delay_secs(attempt: TimerRetryAttempt) -> u64 {
    match attempt {
        TimerRetryAttempt::First => 300,
        TimerRetryAttempt::Second => 1800,
        TimerRetryAttempt::Third => 3600,
    }
}

fn delay_before(attempt: TimerRetryAttempt) -> (r: Duration)
    ensures
        r == (Duration { secs: delay_secs(attempt), nanos: 0 }),
{
    match attempt {
        TimerRetryAttempt::First => Duration::from_secs(300),
        TimerRetryAttempt::Second => Duration::from_secs(1800),
        TimerRetryAttempt::Third => Duration::from_secs(3600),
    }
}

// ---------------------------------------------------------------------------
// One row of attempts for a server and a timer
// ---------------------------------------------------------------------------

/// By this text a row of attempts is known.
pub open spec fn retry_key(id: Seq<char>, source: TimerRetrySource) -> Seq<char> {
    source.name() + ":"@ + id
}

pub fn timer_retry_key(server_id: &str, source: TimerRetrySource) -> (r: String)
    ensures
        r@ == retry_key(server_id@, source),
{
    let mut r = source.label().to_owned();
    r.append(":");
    r.append(server_id);
    r
}

/// Different servers and different timers have different keys.
pub proof fn retry_keys_differ(
    id1: Seq<char>,
    source1: TimerRetrySource,
    id2: Seq<char>,
    source2: TimerRetrySource,
)
    requires
        retry_key(id1, source1) == retry_key(id2, source2),
    ensures
        id1 == id2 && source1 == source2,
{
    reveal_strlit("single");
    reveal_strlit("global");
    reveal_strlit(":");
    let k1 = retry_key(id1, source1);
    let k2 = retry_key(id2, source2);
    assert(k1[0] == source1.name()[0]);
    assert(k2[0] == source2.name()[0]);
    assert(source1 == source2);
    assert(k1.subrange(7, k1.len() as int) =~= id1);
    assert(k2.subrange(7, k2.len() as int) =~= id2);
}

/// The rows of attempts that are under way.
pub struct TimerRetryRegistry {
    keys: Vec<String>,
}

impl View for TimerRetryRegistry {
    type V = Set<Seq<char>>;

    closed spec fn view(&self) -> Set<Seq<char>> {
        Set::new(|k: Seq<char>| exists|i: int| 0 <= i < self.keys@.len() && (#[trigger] self.keys@[i])@ == k)
    }
}

impl TimerRetryRegistry {
    /// No key is held twice.
    pub closed spec fn wf(&self) -> bool {
        forall|i: int, j: int|
            0 <= i < j < self.keys@.len() ==> (#[trigger] self.keys@[i])@ != (
            #[trigger] self.keys@[j])@
    }

    pub fn new() -> (r: Self)
        ensures
            r.wf(),
            r@ == Set::<Seq<char>>::empty(),
    {
        let r = TimerRetryRegistry { keys: Vec::new() };
        assert(r@ =~= Set::<Seq<char>>::empty());
        r
    }

    fn position(&self, key: &str) -> (r: usize)
        ensures
            r <= self.keys@.len(),
            r < self.keys@.len() ==> self.keys@[r as int]@ == key@ && self@.contains(key@),
            r == self.keys@.len() ==> !self@.contains(key@),
    {
        let mut i: usize = 0;
        while i < self.keys.len()
            invariant
                i <= self.keys@.len(),
                forall|k: int| 0 <= k < i ==> (#[trigger] self.keys@[k])@ != key@,
            decreases self.keys@.len() - i,
        {
            if same_text(self.keys[i].as_str(), key) {
                return i;
            }
            i += 1;
        }
        i
    }

    /// Enters a row of attempts; says whether it was not there.
    pub fn mark_timer_retry_pending(&mut self, key: &str) -> (r: bool)
        requires
            old(self).wf(),
        ensures
            final(self).wf(),
            r == !old(self)@.contains(key@),
            final(self)@ == old(self)@.insert(key@),
    {
        let i = self.position(key);
        if i < self.keys.len() {
            assert(self@ =~= old(self)@.insert(key@));
            return false;
        }
        let k = key.to_owned();
        let ghost before = self.keys@;
        self.keys.push(k);
        proof {
            assert forall|x: Seq<char>| self@.contains(x) == old(self)@.insert(key@).contains(x) by {
                if self@.contains(x) {
                    let j = choose|j: int|
                        0 <= j < self.keys@.len() && (#[trigger] self.keys@[j])@ == x;
                    if j < before.len() {
                        assert(before[j]@ == x);
                    }
                }
                if old(self)@.contains(x) {
                    let j = choose|j: int| 0 <= j < before.len() && (#[trigger] before[j])@ == x;
                    assert(self.keys@[j]@ == x);
                }
                if x == key@ {
                    assert(self.keys@[before.len() as int]@ == x);
                }
            }
            assert(self@ =~= old(self)@.insert(key@));
            assert forall|a: int, b: int| 0 <= a < b < self.keys@.len() implies (
            #[trigger] self.keys@[a])@ != (#[trigger] self.keys@[b])@ by {
                assert(self.keys@[a] == before[a]);
                if b < before.len() {
                    assert(self.keys@[b] == before[b]);
                }
            }
        }
        true
    }

    /// Takes a row of attempts out.
    pub fn clear_timer_retry_pending(&mut self, key: &str)
        requires
            old(self).wf(),
        ensures
            final(self).wf(),
            final(self)@ == old(self)@.remove(key@),
    {
        let i = self.position(key);
        let ghost before = self.keys@;
        if i < self.keys.len() {
            self.keys.remove(i);
            proof {
                assert(self.keys@ =~= before.remove(i as int));
                assert forall|x: Seq<char>|
                    self@.contains(x) == old(self)@.remove(key@).contains(x) by {
                    if self@.contains(x) {
                        let j = choose|j: int|
                            0 <= j < self.keys@.len() && (#[trigger] self.keys@[j])@ == x;
                        if j < i {
                            assert(before[j]@ == x);
                        } else {
                            assert(before[j + 1]@ == x);
                        }
                    }
                    if old(self)@.remove(key@).contains(x) {
                        let j = choose|j: int|
                            0 <= j < before.len() && (#[trigger] before[j])@ == x;
                        if j < i {
                            assert(self.keys@[j]@ == x);
                        } else {
                            assert(j != i);
                            assert(self.keys@[j - 1]@ == x);
                        }
                    }
                }
                assert forall|a: int, b: int| 0 <= a < b < self.keys@.len() implies (
                #[trigger] self.keys@[a])@ != (#[trigger] self.keys@[b])@ by {
                    let a0 = if a < i {
                        a
                    } else {
                        a + 1
                    };
                    let b0 = if b < i {
                        b
                    } else {
                        b + 1
                    };
                    assert(self.keys@[a] == before[a0]);
                    assert(self.keys@[b] == before[b0]);
                }
            }
        }
        assert(self@ =~= old(self)@.remove(key@));
    }
}

// ---------------------------------------------------------------------------
// Whether another attempt is still wanted
// ---------------------------------------------------------------------------

/// The first enabled server with this id, or the number of servers.
pub open spec fn enabled_with_id(servers: Seq<ServerModel>, id: Seq<char>) -> int
    decreases servers.len(),
{
    if servers.len() == 0 {
        0
    } else if servers[0].id == id && servers[0].enabled {
        0
    } else {
        1 + enabled_with_id(servers.subrange(1, servers.len() as int), id)
    }
}

/// The timer that the attempts belong to still runs.
pub open spec fn source_active(
    config: ConfigModel,
    server: ServerModel,
    source: TimerRetrySource,
) -> bool {
    match source {
        TimerRetrySource::SingleServer => is_active(server.timer),
        TimerRetrySource::GlobalTimer => is_active(config.global_timer),
    }
}

/// The server to try again: it is still there and enabled, has the token that it had,
/// and its timer still runs.
pub open spec fn retry_server(
    config: ConfigModel,
    id: Seq<char>,
    token: Seq<char>,
    source: TimerRetrySource,
) -> Option<int> {
    let i = enabled_with_id(config.servers, id);
    if 0 <= i < config.servers.len() && config.servers[i].token == token && source_active(
        config,
        config.servers[i],
        source,
    ) {
        Some(i)
    } else {
        None
    }
}

fn timer_active(timer: &Option<crate::config::ServerTimerConfig>) -> (r: bool)
    ensures
        r == is_active(crate::config::opt_timer(*timer)),
{
    match timer {
        Some(t) => t.enabled && t.cron.is_some(),
        None => false,
    }
}

pub fn retry_server_if_still_valid<'a>(
    config: &'a AppConfig,
    server_id: &str,
    original_token: &SecretToken,
    source: TimerRetrySource,
) -> (r: Option<&'a ServerConfig>)
    ensures
        match r {
            Some(s) => retry_server(config@, server_id@, original_token@, source) matches Some(i)
                && s@ == config@.servers[i],
            None => retry_server(config@, server_id@, original_token@, source) is None,
        },
{
    let mut i: usize = 0;
    let ghost m = config@.servers;
    assert(m.subrange(0, m.len() as int) =~= m);
    while i < config.servers.len() && !(same_text(config.servers[i].id.as_str(), server_id)
        && config.servers[i].enabled)
        invariant
            i <= config.servers@.len(),
            m == config@.servers,
            enabled_with_id(m, server_id@) == i + enabled_with_id(
                m.subrange(i as int, m.len() as int),
                server_id@,
            ),
        decreases config.servers@.len() - i,
    {
        proof {
            let t = m.subrange(i as int, m.len() as int);
            assert(t[0] == config.servers@[i as int]@);
            assert(t.subrange(1, t.len() as int) =~= m.subrange(i + 1, m.len() as int));
        }
        i += 1;
    }
    proof {
        let t = m.subrange(i as int, m.len() as int);
        if i < config.servers@.len() {
            assert(t[0] == config.servers@[i as int]@);
        }
    }
    if i == config.servers.len() {
        return None;
    }
    let server = &config.servers[i];
    assert(m[i as int] == server@);
    if !same_text(server.token.expose_secret(), original_token.expose_secret()) {
        return None;
    }
    let active = match source {
        TimerRetrySource::SingleServer => timer_active(&server.timer),
        TimerRetrySource::GlobalTimer => timer_active(&config.global_timer),
    };
    if active {
        Some(server)
    } else {
        None
    }
}

proof fn lemma_enabled_with_id(servers: Seq<ServerModel>, id: Seq<char>)
    ensures
        0 <= enabled_with_id(servers, id) <= servers.len(),
        enabled_with_id(servers, id) < servers.len() ==> {
            let i = enabled_with_id(servers, id);
            servers[i].id == id && servers[i].enabled
        },
        forall|j: int|
            0 <= j < enabled_with_id(servers, id) ==> !((#[trigger] servers[j]).id == id
                && servers[j].enabled),
    decreases servers.len(),
{
    if servers.len() > 0 && !(servers[0].id == id && servers[0].enabled) {
        let t = servers.subrange(1, servers.len() as int);
        lemma_enabled_with_id(t, id);
        let n = enabled_with_id(t, id);
        if n < t.len() {
            assert(t[n] == servers[n + 1]);
        }
        assert forall|j: int| 0 <= j < n + 1 implies !((#[trigger] servers[j]).id == id
            && servers[j].enabled) by {
            if j > 0 {
                assert(t[j - 1] == servers[j]);
            }
        }
    }
}

/// A server is tried again exactly where the first enabled one with its id still has the token
/// that it had and the timer that asked for the change, its own or that for all servers, is
/// still switched on and has a cron expression.
pub proof fn retry_needs_the_same_server(
    config: ConfigModel,
    id: Seq<char>,
    token: Seq<char>,
    source: TimerRetrySource,
    i: int,
)
    ensures
        0 <= i < config.servers.len() && config.servers[i].id == id && config.servers[i].enabled
            && (forall|j: int|
            0 <= j < i ==> !((#[trigger] config.servers[j]).id == id && config.servers[j].enabled))
            ==> {
            let timer = match source {
                TimerRetrySource::SingleServer => config.servers[i].timer,
                TimerRetrySource::GlobalTimer => config.global_timer,
            };
            let wanted = config.servers[i].token == token && (timer matches Some(t) && t.enabled
                && t.cron is Some);
            retry_server(config, id, token, source) == (if wanted {
                Some(i)
            } else {
                None
            })
        },
        (forall|j: int|
            0 <= j < config.servers.len() ==> !((#[trigger] config.servers[j]).id == id
                && config.servers[j].enabled)) ==> retry_server(config, id, token, source) is None,
{
    lemma_enabled_with_id(config.servers, id);
    let n = enabled_with_id(config.servers, id);
    if 0 <= i < config.servers.len() && config.servers[i].id == id && config.servers[i].enabled {
        assert(n <= i);
        if n < i && n < config.servers.len() {
            assert(config.servers[n].id == id && config.servers[n].enabled);
        }
    }
}

// ---------------------------------------------------------------------------
// The attempts
// ---------------------------------------------------------------------------

/// A row of attempts under way.
pub struct RetryRun {
    server_id: String,
    token: SecretToken,
    source: TimerRetrySource,
    index: usize,
}

pub struct RetryModel {
    pub server_id: Seq<char>,
    pub token: Seq<char>,
    pub source: TimerRetrySource,
    pub index: int,
}

impl View for RetryRun {
    type V = RetryModel;

    closed spec fn view(&self) -> RetryModel {
        RetryModel {
            server_id: self.server_id@,
            token: self.token@,
            source: self.source,
            index: self.index as int,
        }
    }
}

/// The row of attempts after a failed query; `None` after the last attempt.
pub open spec fn after_failure(m: RetryModel) -> Option<RetryModel> {
    if m.index < 2 {
        Some(RetryModel { index: m.index + 1, ..m })
    } else {
        None
    }
}

/// There are three attempts and no more.
pub proof fn attempts_are_three(m: RetryModel)
    requires
        m.index == 0,
    ensures
        after_failure(m) matches Some(second) && after_failure(second) matches Some(third)
            && after_failure(third) is None && TimerRetryAttempt::at(m.index)
            == TimerRetryAttempt::First && TimerRetryAttempt::at(second.index)
            == TimerRetryAttempt::Second && TimerRetryAttempt::at(third.index)
            == TimerRetryAttempt::Third,
{
}

/// A failed attempt is followed by the next one for the same server, the same token and the
/// same timer: the first one comes after five minutes, the second half an hour after the first,
/// the third an hour after the second, and none after it.
pub proof fn attempts_wait_longer(m: RetryModel)
    requires
        0 <= m.index <= 2,
    ensures
        delay_secs(TimerRetryAttempt::at(0)) == 5 * 60,
        m.index == 2 <==> after_failure(m) is None,
        after_failure(m) matches Some(next) ==> {
            &&& next.server_id == m.server_id
            &&& next.token == m.token
            &&& next.source == m.source
            &&& next.index == m.index + 1
            &&& next.index == 1 ==> delay_secs(TimerRetryAttempt::at(next.index)) == 30 * 60
            &&& next.index == 2 ==> delay_secs(TimerRetryAttempt::at(next.index)) == 60 * 60
        },
{
}

/// What is done with the configuration as it is now.
pub enum RetryStart {
    /// The attempts are no longer wanted.
    Cancel,
    /// Send the message, and ask for the address of the server.
    Query { server: ServerConfig, message: String },
}

/// What is done after a query failed.
pub struct RetryFailure {
    /// The message to send.
    pub message: String,
    /// The wait before the next attempt; `None` after the last one.
    pub wait: Option<Duration>,
}

impl RetryRun {
    pub open spec fn wf(&self) -> bool {
        0 <= self@.index <= 2
    }

    pub open spec fn attempt(&self) -> TimerRetryAttempt {
        TimerRetryAttempt::at(self@.index)
    }

    /// Begins the attempts for a server; gives the wait before the first one.
    pub fn start(server: &ServerConfig, source: TimerRetrySource) -> (r: (RetryRun, Duration))
        ensures
            r.0.wf(),
            r.0@ == (RetryModel {
                server_id: server@.id,
                token: server@.token,
                source,
                index: 0,
            }),
            r.1 == (Duration { secs: 300, nanos: 0 }),
    {
        (
            RetryRun {
                server_id: server.id.clone(),
                token: server.token.clone(),
                source,
                index: 0,
            },
            delay_before(TimerRetryAttempt::First),
        )
    }

    /// By this key the attempts are entered in the registry.
    pub fn key(&self) -> (r: String)
        ensures
            r@ == retry_key(self@.server_id, self@.source),
    {
        timer_retry_key(self.server_id.as_str(), self.source)
    }

    /// The wait is over: the attempt is made where the configuration still wants it.
    pub fn begin_attempt(&self, config: &AppConfig) -> (r: RetryStart)
        ensures
            match retry_server(config@, self@.server_id, self@.token, self@.source) {
                None => r is Cancel,
                Some(i) => r matches RetryStart::Query { server, message } && server@
                    == config@.servers[i] && message@ == retry_start_text(
                    self.attempt(),
                    config@.servers[i].name,
                ),
            },
    {
        match retry_server_if_still_valid(
            config,
            self.server_id.as_str(),
            &self.token,
            self.source,
        ) {
            None => RetryStart::Cancel,
            Some(server) => {
                let message = timer_retry_start_message(
                    TimerRetryAttempt::from_index(self.index),
                    server.name.as_str(),
                );
                RetryStart::Query { server: server.clone(), message }
            },
        }
    }

    /// The query failed.
    pub fn query_failed(&mut self) -> (r: RetryFailure)
        requires
            old(self).wf(),
        ensures
            final(self).wf(),
            r.message@ == get_ip_failed_text(old(self).attempt()),
            match r.wait {
                Some(d) => after_failure(old(self)@) == Some(final(self)@) && d == (Duration {
                    secs: delay_secs(final(self).attempt()),
                    nanos: 0,
                }),
                None => after_failure(old(self)@) is None && final(self)@ == old(self)@,
            },
    {
        let attempt = TimerRetryAttempt::from_index(self.index);
        let message = timer_retry_get_ip_failed_message(attempt);
        if attempt.is_final() {
            RetryFailure { message, wait: None }
        } else {
            self.index = self.index + 1;
            let wait = delay_before(TimerRetryAttempt::from_index(self.index));
            RetryFailure { message, wait: Some(wait) }
        }
    }

    /// The message once the change has been made or has failed.
    pub fn result_message(result: &ReconnectResult) -> (r: String)
        ensures
            r@ == (if result.status == ReconnectStatus::Success {
                retry_success_text(result@)
            } else {
                timer_result_text(result@)
            }),
    {
        if result.status == ReconnectStatus::Success {
            format_timer_retry_success(result)
        } else {
            format_timer_result(result)
        }
    }
}

} // verus!
