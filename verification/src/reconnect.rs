//! Changing the address of a server: the request, and the wait until a new address
//! is there.

use vstd::prelude::*;
use crate::boil::{opt_ip, BoilApiError, IpAddress};
use crate::config::{
    enabled_of, lemma_enabled_models, lemma_position_of, resolve_servers, selected, server_models,
    AppConfig, ConfigError, ConfigFault,
    ResolvedSelection, ServerConfig, ServerModel, ServerSelection,
};
use crate::redact::{redact, redacted, redaction_leaves_the_rest};
use crate::text::{contains_text, opt_text};
use crate::time::Duration;

pub mod cooldown;
pub mod run;

verus! {

/// How a new address is waited for.
#[derive(Clone, Copy, Debug, PartialEq, Eq)]
pub struct ReconnectPolicy {
    pub initial_delay: Duration,
    pub poll_interval: Duration,
    pub max_poll_attempts: usize,
}

impl Default for ReconnectPolicy {
    fn default() -> (r: Self)
        ensures
            r == (ReconnectPolicy {
                initial_delay: Duration { secs: 2, nanos: 0 },
                poll_interval: Duration { secs: 2, nanos: 0 },
                max_poll_attempts: 3,
            }),
    {
        ReconnectPolicy {
            initial_delay: Duration::from_secs(2),
            poll_interval: Duration::from_secs(2),
            max_poll_attempts: 3,
        }
    }
}

#[derive(Clone, Copy, Debug, PartialEq, Eq, Structural)]
pub enum ReconnectStatus {
    Success,
    Disabled,
    PreflightFailed,
    RateLimited,
    ApiRejected,
    ChangeAcceptedButUnconfirmed,
    InvalidResponse,
}

#[derive(Clone, Copy, Debug, PartialEq, Eq, Structural)]
pub enum ChangeIpCooldownMode {
    /// A change that has to wait is given up.
    FailFast,
    /// A change that has to wait is made later.
    Wait,
}

#[derive(Debug, PartialEq, Eq)]
pub enum ReconnectProgress {
    VerifyingNewIp { old_ip: IpAddress },
}

#[derive(Debug, PartialEq, Eq)]
pub struct ReconnectResult {
    pub server_id: String,
    pub server_name: String,
    pub old_ip: Option<IpAddress>,
    pub new_ip: Option<IpAddress>,
    pub changed: bool,
    pub uses_left: Option<u32>,
    pub next_allowed_at: Option<i64>,
    pub status: ReconnectStatus,
    pub message: Option<String>,
    pub poll_attempts: usize,
}

#[verifier::ext_equal]
pub struct ResultModel {
    pub server_id: Seq<char>,
    pub server_name: Seq<char>,
    pub old_ip: Option<Seq<char>>,
    pub new_ip: Option<Seq<char>>,
    pub changed: bool,
    pub uses_left: Option<u32>,
    pub next_allowed_at: Option<i64>,
    pub status: ReconnectStatus,
    pub message: Option<Seq<char>>,
    pub poll_attempts: nat,
}

impl View for ReconnectResult {
    type V = ResultModel;

    open spec fn view(&self) -> ResultModel {
        ResultModel {
            server_id: self.server_id@,
            server_name: self.server_name@,
            old_ip: opt_ip(self.old_ip),
            new_ip: opt_ip(self.new_ip),
            changed: self.changed,
            uses_left: self.uses_left,
            next_allowed_at: self.next_allowed_at,
            status: self.status,
            message: opt_text(self.message),
            poll_attempts: self.poll_attempts as nat,
        }
    }
}

fn clone_ip(o: &Option<IpAddress>) -> (r: Option<IpAddress>)
    ensures
        r == *o,
{
    match o {
        Some(ip) => Some(ip.clone()),
        None => None,
    }
}

impl Clone for ReconnectResult {
    fn clone(&self) -> (r: Self)
        ensures
            r@ == self@,
    {
        ReconnectResult {
            server_id: self.server_id.clone(),
            server_name: self.server_name.clone(),
            old_ip: clone_ip(&self.old_ip),
            new_ip: clone_ip(&self.new_ip),
            changed: self.changed,
            uses_left: self.uses_left,
            next_allowed_at: self.next_allowed_at,
            status: self.status,
            message: crate::text::clone_opt(&self.message),
            poll_attempts: self.poll_attempts,
        }
    }
}

/// The result of a change that has not gone further than this, without the token.
pub open spec fn base_model(
    server: ServerModel,
    status: ReconnectStatus,
    message: Option<Seq<char>>,
) -> ResultModel {
    ResultModel {
        server_id: redacted(server.id, server.token),
        server_name: redacted(server.name, server.token),
        old_ip: None,
        new_ip: None,
        changed: false,
        uses_left: None,
        next_allowed_at: None,
        status,
        message: match message {
            Some(m) => Some(redacted(m, server.token)),
            None => None,
        },
        poll_attempts: 0,
    }
}

pub fn redact_for_result(value: &str, server: &ServerConfig) -> (r: String)
    ensures
        r@ == redacted(value@, server@.token),
{
    redact(value, server.token.expose_secret())
}

pub fn base_result(server: &ServerConfig, status: ReconnectStatus, message: Option<&str>) -> (r:
    ReconnectResult)
    ensures
        r@ == base_model(
            server@,
            status,
            match message {
                Some(m) => Some(m@),
                None => None,
            },
        ),
{
    ReconnectResult {
        server_id: redact_for_result(server.id.as_str(), server),
        server_name: redact_for_result(server.name.as_str(), server),
        old_ip: None,
        new_ip: None,
        changed: false,
        uses_left: None,
        next_allowed_at: None,
        status,
        message: match message {
            Some(m) => Some(redact_for_result(m, server)),
            None => None,
        },
        poll_attempts: 0,
    }
}

/// What an error before the change means.
pub open spec fn preflight_status(error: BoilApiError) -> ReconnectStatus {
    match error {
        BoilApiError::InvalidJson { .. } => ReconnectStatus::InvalidResponse,
        BoilApiError::InvalidResponse(_) => ReconnectStatus::InvalidResponse,
        BoilApiError::Transport(_) => ReconnectStatus::PreflightFailed,
        BoilApiError::HttpStatus { .. } => ReconnectStatus::PreflightFailed,
        BoilApiError::ApiRejected { .. } => ReconnectStatus::ApiRejected,
    }
}

pub fn preflight_error_status(error: &BoilApiError) -> (r: ReconnectStatus)
    ensures
        r == preflight_status(*error),
{
    match error {
        BoilApiError::InvalidJson { .. } => ReconnectStatus::InvalidResponse,
        BoilApiError::InvalidResponse(_) => ReconnectStatus::InvalidResponse,
        BoilApiError::Transport(_) => ReconnectStatus::PreflightFailed,
        BoilApiError::HttpStatus { .. } => ReconnectStatus::PreflightFailed,
        BoilApiError::ApiRejected { .. } => ReconnectStatus::ApiRejected,
    }
}

/// What an error of the change means: where the reply got lost, the change may have
/// been made.
pub open spec fn change_status(error: BoilApiError) -> ReconnectStatus {
    match error {
        BoilApiError::ApiRejected { .. } => ReconnectStatus::ApiRejected,
        BoilApiError::InvalidJson { .. } => ReconnectStatus::InvalidResponse,
        BoilApiError::InvalidResponse(_) => ReconnectStatus::InvalidResponse,
        BoilApiError::Transport(_) => ReconnectStatus::ChangeAcceptedButUnconfirmed,
        BoilApiError::HttpStatus { .. } => ReconnectStatus::ChangeAcceptedButUnconfirmed,
    }
}

pub fn change_error_status(error: &BoilApiError) -> (r: ReconnectStatus)
    ensures
        r == change_status(*error),
{
    match error {
        BoilApiError::ApiRejected { .. } => ReconnectStatus::ApiRejected,
        BoilApiError::InvalidJson { .. } => ReconnectStatus::InvalidResponse,
        BoilApiError::InvalidResponse(_) => ReconnectStatus::InvalidResponse,
        BoilApiError::Transport(_) => ReconnectStatus::ChangeAcceptedButUnconfirmed,
        BoilApiError::HttpStatus { .. } => ReconnectStatus::ChangeAcceptedButUnconfirmed,
    }
}

/// An error before the change is told as one: rejected where the interface rejected it, an
/// invalid response where the reply could not be read, else a failure. Of the change itself, it
/// is told that it may have been made exactly where its reply got lost.
pub proof fn errors_are_told_apart(error: BoilApiError)
    ensures
        preflight_status(error) == ReconnectStatus::ApiRejected <==> error is ApiRejected,
        preflight_status(error) == ReconnectStatus::InvalidResponse <==> error is InvalidJson
            || error is InvalidResponse,
        preflight_status(error) == ReconnectStatus::PreflightFailed <==> error is Transport
            || error is HttpStatus,
        change_status(error) == ReconnectStatus::ApiRejected <==> error is ApiRejected,
        change_status(error) == ReconnectStatus::InvalidResponse <==> error is InvalidJson
            || error is InvalidResponse,
        change_status(error) == ReconnectStatus::ChangeAcceptedButUnconfirmed <==> error
            is Transport || error is HttpStatus,
{
}

/// A result that has not gone further claims nothing: no address, no change, no poll. Where
/// the token is not part of them, it has the id, the name and the message as they are.
pub proof fn base_result_claims_nothing(
    server: ServerModel,
    status: ReconnectStatus,
    message: Seq<char>,
)
    ensures
        ({
            let r = base_model(server, status, Some(message));
            &&& r.status == status
            &&& r.old_ip is None && r.new_ip is None && !r.changed
            &&& r.uses_left is None && r.next_allowed_at is None && r.poll_attempts == 0
            &&& !contains_text(server.id, server.token) ==> r.server_id == server.id
            &&& !contains_text(server.name, server.token) ==> r.server_name == server.name
            &&& !contains_text(message, server.token) ==> r.message == Some(message)
            &&& base_model(server, status, None).message is None
        }),
{
    if !contains_text(server.id, server.token) {
        redaction_leaves_the_rest(server.id, server.token);
    }
    if !contains_text(server.name, server.token) {
        redaction_leaves_the_rest(server.name, server.token);
    }
    if !contains_text(message, server.token) {
        redaction_leaves_the_rest(message, server.token);
    }
}

// ---------------------------------------------------------------------------
// Several servers
// ---------------------------------------------------------------------------

#[derive(Debug, PartialEq, Eq)]
pub struct BatchReconnectResult {
    pub results: Vec<ReconnectResult>,
}

pub open spec fn result_models(v: Seq<ReconnectResult>) -> Seq<ResultModel> {
    Seq::new(v.len(), |i: int| v[i]@)
}

/// How many results have this status.
pub open spec fn count_status(results: Seq<ResultModel>, status: ReconnectStatus) -> nat
    decreases results.len(),
{
    if results.len() == 0 {
        0
    } else {
        count_status(results.drop_last(), status) + (if results.last().status == status {
            1nat
        } else {
            0nat
        })
    }
}

/// A result is counted once at most.
pub proof fn lemma_counts(results: Seq<ResultModel>)
    ensures
        count_status(results, ReconnectStatus::Success) + count_status(
            results,
            ReconnectStatus::ChangeAcceptedButUnconfirmed,
        ) <= results.len(),
    decreases results.len(),
{
    if results.len() > 0 {
        lemma_counts(results.drop_last());
    }
}

/// The results with a status are counted, all of them and no other.
pub proof fn counts_are_of_the_status(results: Seq<ResultModel>, status: ReconnectStatus)
    ensures
        count_status(results, status) == results.filter(
            |r: ResultModel| r.status == status,
        ).len(),
    decreases results.len(),
{
    reveal(Seq::filter);
    if results.len() > 0 {
        counts_are_of_the_status(results.drop_last(), status);
    }
}

impl Default for BatchReconnectResult {
    fn default() -> (r: Self)
        ensures
            r.results@.len() == 0,
    {
        BatchReconnectResult { results: Vec::new() }
    }
}

impl BatchReconnectResult {
    fn count(&self, status: ReconnectStatus) -> (r: usize)
        ensures
            r == count_status(result_models(self.results@), status),
    {
        let mut n: usize = 0;
        let mut i: usize = 0;
        let ghost m = result_models(self.results@);
        while i < self.results.len()
            invariant
                m == result_models(self.results@),
                i <= self.results@.len(),
                n <= i,
                n == count_status(m.subrange(0, i as int), status),
            decreases self.results@.len() - i,
        {
            let ghost t = m.subrange(0, i + 1);
            assert(t.drop_last() =~= m.subrange(0, i as int));
            assert(t.last() == self.results@[i as int]@);
            if self.results[i].status == status {
                n += 1;
            }
            i += 1;
        }
        assert(m.subrange(0, m.len() as int) =~= m);
        n
    }

    pub fn success_count(&self) -> (r: usize)
        ensures
            r == count_status(result_models(self.results@), ReconnectStatus::Success),
    {
        self.count(ReconnectStatus::Success)
    }

    pub fn unconfirmed_count(&self) -> (r: usize)
        ensures
            r == count_status(
                result_models(self.results@),
                ReconnectStatus::ChangeAcceptedButUnconfirmed,
            ),
    {
        self.count(ReconnectStatus::ChangeAcceptedButUnconfirmed)
    }

    /// Every result is a success, unconfirmed or a failure.
    pub fn failure_count(&self) -> (r: usize)
        ensures
            r + count_status(result_models(self.results@), ReconnectStatus::Success)
                + count_status(
                result_models(self.results@),
                ReconnectStatus::ChangeAcceptedButUnconfirmed,
            ) == self.results@.len(),
    {
        proof {
            lemma_counts(result_models(self.results@));
        }
        self.results.len() - self.success_count() - self.unconfirmed_count()
    }
}

/// The servers that are changed, one after the other.
pub struct BatchRun {
    servers: Vec<ServerConfig>,
    results: Vec<ReconnectResult>,
}

impl BatchRun {
    /// The servers of the run, in the order in which they are changed.
    pub closed spec fn servers(&self) -> Seq<ServerModel> {
        server_models(self.servers@)
    }

    pub closed spec fn results(&self) -> Seq<ResultModel> {
        result_models(self.results@)
    }

    /// Chooses the servers: one, or all enabled ones in the order of the configuration.
    pub fn select(config: &AppConfig, selection: ServerSelection<'_>) -> (r: Result<
        BatchRun,
        ConfigError,
    >)
        ensures
            match r {
                Ok(run) => run.results().len() == 0 && selected(config@.servers, selection) == Ok::<
                    _,
                    ConfigFault,
                >(run.servers()),
                Err(e) => selected(config@.servers, selection) == Err::<Seq<ServerModel>, _>(e@),
            },
    {
        proof {
            lemma_enabled_models(config.servers@);
            let e = enabled_of(config.servers@);
            assert(server_models(e).len() == e.len());
            if e.len() == 1 {
                assert(server_models(e)[0] == e[0]@);
            }
            if let ServerSelection::Id(id) = selection {
                lemma_position_of(config@.servers, id@);
            }
        }
        let resolved = match resolve_servers(config.servers.as_slice(), selection) {
            Ok(s) => s,
            Err(e) => return Err(e),
        };
        let mut servers: Vec<ServerConfig> = Vec::new();
        match resolved {
            ResolvedSelection::One(s) => {
                servers.push(s.clone());
                assert(server_models(servers@) =~= seq![s@]);
            },
            ResolvedSelection::All(v) => {
                let mut i: usize = 0;
                while i < v.len()
                    invariant
                        i <= v@.len(),
                        servers@.len() == i,
                        forall|k: int| 0 <= k < i ==> (#[trigger] servers@[k])@ == v@[k]@,
                    decreases v@.len() - i,
                {
                    servers.push(v[i].clone());
                    i += 1;
                }
                assert(server_models(servers@) =~= server_models(enabled_of(config.servers@)));
            },
        }
        Ok(BatchRun { servers, results: Vec::new() })
    }

    pub fn server_count(&self) -> (r: usize)
        ensures
            r == self.servers().len(),
    {
        self.servers.len()
    }

    /// The next server to change, if there is one left.
    pub fn next(&self) -> (r: Option<&ServerConfig>)
        ensures
            match r {
                Some(s) => self.results().len() < self.servers().len() && s@
                    == self.servers()[self.results().len() as int],
                None => self.results().len() >= self.servers().len(),
            },
    {
        let n: usize = self.results.len();
        if n < self.servers.len() {
            Some(&self.servers[n])
        } else {
            None
        }
    }

    /// Takes the result for the server that was next. A failure does not end the run.
    pub fn record(&mut self, result: ReconnectResult)
        ensures
            final(self).servers() == old(self).servers(),
            final(self).results() == old(self).results().push(result@),
    {
        self.results.push(result);
        assert(result_models(self.results@) =~= result_models(old(self).results@).push(result@));
    }

    pub fn finish(self) -> (r: BatchReconnectResult)
        ensures
            result_models(r.results@) == self.results(),
    {
        BatchReconnectResult { results: self.results }
    }
}

} // verus!
