//! A timed change: of one server, or of all enabled servers one after the other.

use vstd::prelude::*;
use crate::config::{
    chosen, enabled_models, AppConfig, ConfigError, ConfigFault, ConfigModel, ServerConfig,
    ServerModel, ServerSelection,
};
use crate::config::choice::{name_means_its_server, selection_stands_for_servers};
use crate::number::{
    decimal, decimal_int, decimal_int_reads_back, decimal_text, parse_i64, parsed_i64,
};
use crate::reconnect::{
    result_models, BatchRun, ReconnectResult, ResultModel,
};
use crate::server_manage::stands_first;
use crate::timer::message::{
    batch_text, format_timer_batch_result, format_timer_result, preflight_failed_model,
    processing_text, timer_preflight_failed_result, timer_processing_message, timer_result_text,
};
use crate::timer::retry::TimerRetrySource;
use crate::timer::{TargetModel, TimerTarget};

verus! {

/// A timed change under way.
pub struct AutoRun {
    batch: BatchRun,
    source: TimerRetrySource,
    retrying: bool,
}

pub struct AutoModel {
    /// The servers, in the order in which they are changed.
    pub servers: Seq<ServerModel>,
    /// The results so far; for one server that is tried again later there is none.
    pub results: Seq<ResultModel>,
    /// Which timer it is.
    pub source: TimerRetrySource,
    /// The one server of the run is tried again later.
    pub retrying: bool,
}

impl View for AutoRun {
    type V = AutoModel;

    closed spec fn view(&self) -> AutoModel {
        AutoModel {
            servers: self.batch.servers(),
            results: self.batch.results(),
            source: self.source,
            retrying: self.retrying,
        }
    }
}

/// The servers that a timer changes: all that are enabled, or the one that it belongs to.
pub open spec fn timed_servers(servers: Seq<ServerModel>, target: TargetModel) -> Result<
    Seq<ServerModel>,
    ConfigFault,
> {
    match target {
        TargetModel::AllEnabled => if enabled_models(servers).len() == 0 {
            Err(ConfigFault::NoEnabledServer)
        } else {
            Ok(enabled_models(servers))
        },
        TargetModel::Server(id) => match chosen(servers, Some(id)) {
            Ok(s) => Ok(seq![s]),
            Err(f) => Err(f),
        },
    }
}

/// The timer for all servers changes the enabled ones, in their order, and where there is none
/// it says so. The timer of a server changes the first server with that id, where it is
/// enabled, and else says whether it is unknown or disabled.
pub proof fn timer_changes_its_servers(servers: Seq<ServerModel>, id: Seq<char>, i: int)
    ensures
        ({
            let enabled = servers.filter(|s: ServerModel| s.enabled);
            timed_servers(servers, TargetModel::AllEnabled) == (if enabled.len() == 0 {
                Err::<Seq<ServerModel>, _>(ConfigFault::NoEnabledServer)
            } else {
                Ok(enabled)
            })
        }),
        stands_first(servers, id, i) ==> timed_servers(servers, TargetModel::Server(id)) == (
        if servers[i].enabled {
            Ok(seq![servers[i]])
        } else {
            Err::<Seq<ServerModel>, _>(ConfigFault::DisabledServer(id))
        }),
        (forall|j: int| 0 <= j < servers.len() ==> (#[trigger] servers[j]).id != id)
            ==> timed_servers(servers, TargetModel::Server(id)) == Err::<Seq<ServerModel>, _>(
            ConfigFault::UnknownServer(id),
        ),
{
    selection_stands_for_servers(servers, ServerSelection::All);
    name_means_its_server(servers, id, i);
}

/// The first message of a run.
pub open spec fn start_text(source: TimerRetrySource, n: nat) -> Seq<char> {
    match source {
        TimerRetrySource::SingleServer => "⏰ 定时换 IP 开始\n\n共 1 台 VPS，开始处理..."@,
        TimerRetrySource::GlobalTimer => "⏰ 定时换 IP 开始\n\n共 "@ + decimal(n)
            + " 台 VPS，开始逐台处理..."@,
    }
}

impl AutoRun {
    /// Chooses the servers of a timer. Where there is none, or the one is unknown or
    /// disabled, nothing is changed.
    pub fn begin(config: &AppConfig, target: &TimerTarget) -> (r: Result<AutoRun, ConfigError>)
        ensures
            match r {
                Ok(run) => run@.results.len() == 0 && !run@.retrying && run@.source == (
                match target {
                    TimerTarget::AllEnabled => TimerRetrySource::GlobalTimer,
                    TimerTarget::Server(_) => TimerRetrySource::SingleServer,
                }) && timed_servers(config@.servers, target@) == Ok::<_, ConfigFault>(
                    run@.servers,
                ),
                Err(e) => timed_servers(config@.servers, target@) == Err::<Seq<ServerModel>, _>(
                    e@,
                ),
            },
    {
        match target {
            TimerTarget::AllEnabled => match BatchRun::select(config, ServerSelection::All) {
                Ok(batch) => Ok(
                    AutoRun { batch, source: TimerRetrySource::GlobalTimer, retrying: false },
                ),
                Err(e) => Err(e),
            },
            TimerTarget::Server(id) => match BatchRun::select(
                config,
                ServerSelection::Id(id.as_str()),
            ) {
                Ok(batch) => Ok(
                    AutoRun { batch, source: TimerRetrySource::SingleServer, retrying: false },
                ),
                Err(e) => Err(e),
            },
        }
    }

    /// Which timer it is.
    pub fn source(&self) -> (r: TimerRetrySource)
        ensures
            r == self@.source,
    {
        self.source
    }

    pub fn start_message(&self) -> (r: String)
        ensures
            r@ == start_text(self@.source, self@.servers.len()),
    {
        match self.source {
            TimerRetrySource::SingleServer =>
                "⏰ 定时换 IP 开始\n\n共 1 台 VPS，开始处理...".to_owned(),
            TimerRetrySource::GlobalTimer => {
                let mut r = "⏰ 定时换 IP 开始\n\n共 ".to_owned();
                r.append(decimal_text(self.batch.server_count() as u64).as_str());
                r.append(" 台 VPS，开始逐台处理...");
                r
            },
        }
    }

    /// The next server: the message about it is sent, and its address is asked for.
    pub fn next(&self) -> (r: Option<(&ServerConfig, String)>)
        ensures
            match r {
                Some((s, message)) => !self@.retrying && self@.results.len() < self@.servers.len()
                    && s@ == self@.servers[self@.results.len() as int] && message@
                    == processing_text(s@.name),
                None => self@.retrying || self@.results.len() >= self@.servers.len(),
            },
    {
        if self.retrying {
            return None;
        }
        match self.batch.next() {
            Some(s) => {
                let message = timer_processing_message(s.name.as_str());
                Some((s, message))
            },
            None => None,
        }
    }

    /// The address of the next server is not known: no change is requested, and the
    /// server is to be tried again later. The others are gone on with.
    pub fn query_failed(&mut self)
        requires
            !old(self)@.retrying,
            old(self)@.results.len() < old(self)@.servers.len(),
        ensures
            final(self)@ == (match old(self)@.source {
                TimerRetrySource::SingleServer => AutoModel { retrying: true, ..old(self)@ },
                TimerRetrySource::GlobalTimer => AutoModel {
                    results: old(self)@.results.push(
                        preflight_failed_model(
                            old(self)@.servers[old(self)@.results.len() as int],
                        ),
                    ),
                    ..old(self)@
                },
            }),
    {
        match self.source {
            TimerRetrySource::SingleServer => {
                self.retrying = true;
            },
            TimerRetrySource::GlobalTimer => {
                let result = match self.batch.next() {
                    Some(s) => Some(timer_preflight_failed_result(s)),
                    None => None,
                };
                match result {
                    Some(r) => {
                        self.batch.record(r);
                    },
                    None => {},
                }
            },
        }
    }

    /// The next server has been changed, or has failed.
    pub fn record(&mut self, result: ReconnectResult)
        ensures
            final(self)@ == (AutoModel {
                results: old(self)@.results.push(result@),
                ..old(self)@
            }),
    {
        self.batch.record(result);
    }

    /// The last message: about the one result, or about all results. There is none for
    /// a server that is tried again later.
    pub fn final_message(self) -> (r: Option<String>)
        ensures
            match self@.source {
                TimerRetrySource::GlobalTimer => r matches Some(m) && m@ == batch_text(
                    self@.results,
                ),
                TimerRetrySource::SingleServer => if self@.results.len() > 0 {
                    r matches Some(m) && m@ == timer_result_text(self@.results[0])
                } else {
                    r is None
                },
            },
    {
        let source = self.source;
        let result = self.batch.finish();
        match source {
            TimerRetrySource::GlobalTimer => Some(format_timer_batch_result(&result)),
            TimerRetrySource::SingleServer => {
                assert(result_models(result.results@).len() == result.results@.len());
                if result.results.len() > 0 {
                    assert(result_models(result.results@)[0] == result.results@[0]@);
                    Some(format_timer_result(&result.results[0]))
                } else {
                    None
                }
            },
        }
    }
}

/// The chat that is told of timed changes: there is one where a bot token and a chat
/// are configured, and the chat is a number.
pub open spec fn notified_chat(config: ConfigModel) -> Option<int> {
    match (config.tg_token, config.tg_chat_id) {
        (Some(_), Some(chat)) => parsed_i64(chat),
        _ => None,
    }
}

/// The chat that the bot is bound to is told, where there is a bot, and no other.
pub proof fn bound_chat_is_told(config: ConfigModel, chat: i64)
    ensures
        config.tg_token is Some && config.tg_chat_id == Some(decimal_int(chat as int))
            ==> notified_chat(config) == Some(chat as int),
        config.tg_token is None || config.tg_chat_id is None ==> notified_chat(config) is None,
{
    decimal_int_reads_back(chat as int);
}

pub fn notification_chat(config: &AppConfig) -> (r: Option<i64>)
    ensures
        match r {
            Some(c) => notified_chat(config@) == Some(c as int),
            None => notified_chat(config@) is None,
        },
{
    match (&config.tg_token, &config.tg_chat_id) {
        (Some(_), Some(chat)) => parse_i64(chat.as_str()),
        _ => None,
    }
}

} // verus!
