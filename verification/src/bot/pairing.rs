//! Binding the bot to the one chat that may give it orders.

use vstd::prelude::*;
use crate::config::{AppConfig, ConfigModel};
use crate::number::{decimal_int, decimal_int_text};
use crate::text::{same_text, to_upper_ascii, trim, trimmed, upper_ascii};

verus! {

/// What a pairing code that was sent comes to.
#[derive(PartialEq, Eq)]
pub enum PairingDecision {
    /// The chat is bound, with this configuration.
    Paired(AppConfig),
    /// It is not; where the code ran out, it is forgotten, with this configuration.
    InvalidOrExpired(Option<AppConfig>),
    AlreadyBound,
}

pub enum DecisionModel {
    Paired(ConfigModel),
    InvalidOrExpired(Option<ConfigModel>),
    AlreadyBound,
}

impl View for PairingDecision {
    type V = DecisionModel;

    open spec fn view(&self) -> DecisionModel {
        match self {
            PairingDecision::Paired(c) => DecisionModel::Paired(c@),
            PairingDecision::InvalidOrExpired(Some(c)) => DecisionModel::InvalidOrExpired(
                Some(c@),
            ),
            PairingDecision::InvalidOrExpired(None) => DecisionModel::InvalidOrExpired(None),
            PairingDecision::AlreadyBound => DecisionModel::AlreadyBound,
        }
    }
}

#[derive(Clone, Debug, PartialEq, Eq)]
pub enum PairingApplyResult {
    Paired,
    InvalidOrExpired,
    AlreadyBound,
    SaveFailed(String),
}

/// A configuration without a pairing code.
pub open spec fn without_code(config: ConfigModel) -> ConfigModel {
    ConfigModel { tg_pair_code: None, tg_pair_expires_at: None, ..config }
}

/// A configuration that is bound to a chat.
pub open spec fn bound_to(config: ConfigModel, chat_id: Seq<char>) -> ConfigModel {
    ConfigModel { tg_chat_id: Some(chat_id), ..without_code(config) }
}

/// Whether a code that is sent at `now` binds the chat that sent it.
pub open spec fn pairs(config: ConfigModel, code: Seq<char>, now: u64) -> bool {
    &&& config.tg_chat_id is None
    &&& config.tg_pair_code == Some(upper_ascii(trimmed(code)))
    &&& config.tg_pair_expires_at is Some
    &&& config.tg_pair_expires_at->Some_0 > now
}

pub open spec fn pairing(
    config: ConfigModel,
    chat_id: Seq<char>,
    code: Seq<char>,
    now: u64,
) -> DecisionModel {
    if config.tg_chat_id is Some {
        DecisionModel::AlreadyBound
    } else if pairs(config, code, now) {
        DecisionModel::Paired(bound_to(config, chat_id))
    } else if config.tg_pair_code is Some && config.tg_pair_expires_at is Some
        && config.tg_pair_expires_at->Some_0 <= now {
        DecisionModel::InvalidOrExpired(Some(without_code(config)))
    } else {
        DecisionModel::InvalidOrExpired(None)
    }
}

pub fn resolve_pairing(current: &AppConfig, chat_id: &str, code: &str, now: u64) -> (r:
    PairingDecision)
    ensures
        r@ == pairing(current@, chat_id@, code@, now),
{
    if current.tg_chat_id.is_some() {
        return PairingDecision::AlreadyBound;
    }
    match (&current.tg_pair_code, current.tg_pair_expires_at) {
        (Some(stored_code), Some(expires_at)) => {
            if expires_at <= now {
                let mut next = current.clone();
                next.tg_pair_code = None;
                next.tg_pair_expires_at = None;
                return PairingDecision::InvalidOrExpired(Some(next));
            }
            let sent = to_upper_ascii(trim(code).as_str());
            if !same_text(stored_code.expose_secret(), sent.as_str()) {
                return PairingDecision::InvalidOrExpired(None);
            }
            let mut next = current.clone();
            next.tg_chat_id = Some(chat_id.to_owned());
            next.tg_pair_code = None;
            next.tg_pair_expires_at = None;
            PairingDecision::Paired(next)
        },
        _ => PairingDecision::InvalidOrExpired(None),
    }
}

/// The configuration that is to be saved, where there is one.
pub open spec fn to_save(d: DecisionModel) -> Option<ConfigModel> {
    match d {
        DecisionModel::Paired(c) => Some(c),
        DecisionModel::InvalidOrExpired(c) => c,
        DecisionModel::AlreadyBound => None,
    }
}

/// Carries a decision out, once it is known whether its configuration was saved. What could
/// not be saved does not come into force.
pub fn finish_pairing(
    current: &mut AppConfig,
    decision: PairingDecision,
    saved: Result<(), String>,
) -> (r: PairingApplyResult)
    ensures
        final(current)@ == (match to_save(decision@) {
            Some(next) => if saved is Ok {
                next
            } else {
                old(current)@
            },
            None => old(current)@,
        }),
        match decision {
            PairingDecision::Paired(_) => match saved {
                Ok(_) => r == PairingApplyResult::Paired,
                Err(e) => r == PairingApplyResult::SaveFailed(e),
            },
            PairingDecision::InvalidOrExpired(_) => r == PairingApplyResult::InvalidOrExpired,
            PairingDecision::AlreadyBound => r == PairingApplyResult::AlreadyBound,
        },
{
    match decision {
        PairingDecision::Paired(next) => match saved {
            Ok(_) => {
                *current = next;
                PairingApplyResult::Paired
            },
            Err(error) => PairingApplyResult::SaveFailed(error),
        },
        PairingDecision::InvalidOrExpired(Some(next)) => {
            if saved.is_ok() {
                *current = next;
            }
            PairingApplyResult::InvalidOrExpired
        },
        PairingDecision::InvalidOrExpired(None) => PairingApplyResult::InvalidOrExpired,
        PairingDecision::AlreadyBound => PairingApplyResult::AlreadyBound,
    }
}

/// What a code that was sent does to the configuration. `save` is called for a configuration
/// that is to come into force.
pub fn apply_pairing<F: FnOnce(&AppConfig) -> Result<(), String>>(
    current: &mut AppConfig,
    chat_id: &str,
    code: &str,
    now: u64,
    save: F,
) -> (r: PairingApplyResult)
    requires
        forall|c: AppConfig|
            Some(c@) == to_save(pairing(old(current)@, chat_id@, code@, now)) ==> #[trigger]
            call_requires(save, (&c,)),
    ensures
        match pairing(old(current)@, chat_id@, code@, now) {
            DecisionModel::Paired(next) => exists|c: AppConfig, saved: Result<(), String>|
                {
                    &&& c@ == next
                    &&& #[trigger] call_ensures(save, (&c,), saved)
                    &&& match saved {
                        Ok(_) => r == PairingApplyResult::Paired && final(current)@ == next,
                        Err(e) => r == PairingApplyResult::SaveFailed(e) && final(current)@ == old(
                            current,
                        )@,
                    }
                },
            DecisionModel::InvalidOrExpired(Some(next)) => r
                == PairingApplyResult::InvalidOrExpired && exists|
                c: AppConfig,
                saved: Result<(), String>,
            |
                {
                    &&& c@ == next
                    &&& #[trigger] call_ensures(save, (&c,), saved)
                    &&& final(current)@ == (if saved is Ok {
                        next
                    } else {
                        old(current)@
                    })
                },
            DecisionModel::InvalidOrExpired(None) => r == PairingApplyResult::InvalidOrExpired
                && final(current)@ == old(current)@,
            DecisionModel::AlreadyBound => r == PairingApplyResult::AlreadyBound
                && final(current)@ == old(current)@,
        },
{
    let decision = resolve_pairing(current, chat_id, code, now);
    let saved = match &decision {
        PairingDecision::Paired(next) => save(next),
        PairingDecision::InvalidOrExpired(Some(next)) => save(next),
        _ => Ok(()),
    };
    proof {
        match &decision {
            PairingDecision::Paired(next) => {
                assert(call_ensures(save, (next,), saved));
            },
            PairingDecision::InvalidOrExpired(Some(next)) => {
                assert(call_ensures(save, (next,), saved));
            },
            _ => {},
        }
    }
    finish_pairing(current, decision, saved)
}

/// A code binds at most one chat: once it has, nothing that is sent changes the configuration.
pub proof fn pairing_binds_one_chat(
    config: ConfigModel,
    chat_id: Seq<char>,
    code: Seq<char>,
    now: u64,
    other_chat: Seq<char>,
    other_code: Seq<char>,
    later: u64,
)
    requires
        pairs(config, code, now),
    ensures
        pairing(config, chat_id, code, now) == DecisionModel::Paired(bound_to(config, chat_id)),
        pairing(bound_to(config, chat_id), other_chat, other_code, later)
            == DecisionModel::AlreadyBound,
{
}

/// A chat that is bound stays bound, whatever is sent.
pub proof fn bound_chat_stays(config: ConfigModel, chat_id: Seq<char>, code: Seq<char>, now: u64)
    requires
        config.tg_chat_id is Some,
    ensures
        to_save(pairing(config, chat_id, code, now)) is None,
{
}

/// A code that ran out is forgotten, and binds nobody then or later.
pub proof fn expired_code_is_consumed(
    config: ConfigModel,
    chat_id: Seq<char>,
    code: Seq<char>,
    now: u64,
    later: u64,
)
    requires
        config.tg_chat_id is None,
        config.tg_pair_code is Some,
        config.tg_pair_expires_at is Some,
        config.tg_pair_expires_at->Some_0 <= now <= later,
    ensures
        pairing(config, chat_id, code, now) == DecisionModel::InvalidOrExpired(
            Some(without_code(config)),
        ),
        !pairs(config, code, later),
        !pairs(without_code(config), code, later),
{
}

/// Pairing touches nothing but the chat and the code.
pub proof fn pairing_keeps_the_rest(
    config: ConfigModel,
    chat_id: Seq<char>,
    code: Seq<char>,
    now: u64,
)
    ensures
        to_save(pairing(config, chat_id, code, now)) matches Some(next) ==> {
            &&& next.servers == config.servers
            &&& next.global_timer == config.global_timer
            &&& next.tg_token == config.tg_token
            &&& next.change_ip_cooldown == config.change_ip_cooldown
            &&& next.migration_notice == config.migration_notice
        },
{
}

pub open spec fn authorized(config: ConfigModel, id: Seq<char>) -> bool {
    config.tg_chat_id == Some(id)
}

pub fn is_authorized_tg_id(config: &AppConfig, id: &str) -> (r: bool)
    ensures
        r == authorized(config@, id@),
{
    match &config.tg_chat_id {
        Some(chat) => same_text(chat.as_str(), id),
        None => false,
    }
}

/// The chat may give orders.
pub open spec fn chat_authorized(config: ConfigModel, chat_id: i64) -> bool {
    authorized(config, decimal_int(chat_id as int))
}

pub fn is_authorized_callback_chat(config: &AppConfig, chat_id: i64) -> (r: bool)
    ensures
        r == chat_authorized(config@, chat_id),
{
    is_authorized_tg_id(config, decimal_int_text(chat_id).as_str())
}

} // verus!
