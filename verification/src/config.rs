//! The configuration: servers and their tokens, timers, and the Telegram chat
//! that may give orders.

use vstd::prelude::*;
use crate::number::{decimal, decimal_text, parse_unsigned, parsed_unsigned};
use crate::text::{
    chars_of, clone_opt, contains_str, contains_text, is_ascii_letter_or_digit, is_blank,
    is_blank_text, is_space, lemma_trimmed_blank, lemma_trimmed_end_at, lemma_trimmed_ends,
    lemma_trimmed_start_at, opt_text, same_text, texts, to_upper_ascii, trim, trimmed, upper_ascii,
    upper_char, words, words_of,
};

pub mod debug;
pub mod choice;
pub mod env_file;
pub mod kept_lines;
pub mod reading;
pub mod round_trip;
pub mod setup;

verus! {

// ---------------------------------------------------------------------------
// Secrets
// ---------------------------------------------------------------------------

/// The token of one server. Its text is never shown: only `expose_secret` gives it.
#[derive(PartialEq, Eq)]
pub struct SecretToken {
    value: String,
}

impl View for SecretToken {
    type V = Seq<char>;

    closed spec fn view(&self) -> Seq<char> {
        self.value@
    }
}

impl Clone for SecretToken {
    fn clone(&self) -> (r: Self)
        ensures
            r@ == self@,
    {
        SecretToken { value: self.value.clone() }
    }
}

impl SecretToken {
    /// A token that holds more than white space.
    pub fn new(value: String) -> (r: Result<Self, ConfigError>)
        ensures
            match r {
                Ok(token) => !is_blank(value@) && token@ == value@,
                Err(e) => is_blank(value@) && e@ == ConfigFault::EmptyToken,
            },
    {
        if is_blank_text(value.as_str()) {
            Err(ConfigError::EmptyToken)
        } else {
            Ok(SecretToken { value })
        }
    }

    /// A token as it stands in a stored configuration, which is validated as a whole.
    pub fn from_stored(value: String) -> (r: Self)
        ensures
            r@ == value@,
    {
        SecretToken { value }
    }

    pub fn expose_secret(&self) -> (r: &str)
        ensures
            r@ == self@,
    {
        self.value.as_str()
    }

    pub fn is_empty(&self) -> (r: bool)
        ensures
            r == is_blank(self@),
    {
        is_blank_text(self.value.as_str())
    }

    /// What is shown in place of the token.
    pub fn display(&self) -> (r: &'static str)
        ensures
            r@ == "<redacted>"@,
    {
        "<redacted>"
    }
}

/// The code that binds a Telegram chat, in upper case and without surrounding white space.
#[derive(PartialEq, Eq)]
pub struct PairingCode {
    value: String,
}

impl View for PairingCode {
    type V = Seq<char>;

    closed spec fn view(&self) -> Seq<char> {
        self.value@
    }
}

impl Clone for PairingCode {
    fn clone(&self) -> (r: Self)
        ensures
            r@ == self@,
    {
        proof {
            use_type_invariant(self);
        }
        PairingCode { value: self.value.clone() }
    }
}

/// The form in which a pairing code is kept and compared.
pub open spec fn normal_code(s: Seq<char>) -> Seq<char> {
    upper_ascii(trimmed(s))
}

/// The text of a pairing code: not blank, and in the form in which codes are kept.
pub open spec fn valid_code(s: Seq<char>) -> bool {
    !is_blank(s) && normal_code(s) == s
}

/// What the normal form of a text is stays as it is.
pub proof fn normal_code_is_valid(s: Seq<char>)
    requires
        !is_blank(s),
    ensures
        valid_code(normal_code(s)),
{
    let t = trimmed(s);
    let u = normal_code(s);
    lemma_trimmed_blank(s);
    lemma_trimmed_ends(s);
    assert(!is_space(u[0])) by {
        assert(u[0] == upper_char(t[0]));
    }
    assert(!is_space(u.last())) by {
        assert(u.last() == upper_char(t.last()));
    }
    lemma_trimmed_start_at(u, 0);
    assert(u.subrange(0, u.len() as int) =~= u);
    lemma_trimmed_end_at(u, u.len() as int);
    assert(upper_ascii(u) =~= u);
}

impl PairingCode {
    #[verifier::type_invariant]
    spec fn is_valid(self) -> bool {
        valid_code(self.value@)
    }

    pub fn new(value: String) -> (r: Result<Self, ConfigError>)
        ensures
            match r {
                Ok(code) => !is_blank(value@) && code@ == normal_code(value@) && valid_code(code@),
                Err(e) => is_blank(value@) && e@ == ConfigFault::EmptyPairingCode,
            },
    {
        let t = trim(value.as_str());
        let u = to_upper_ascii(t.as_str());
        proof {
            lemma_trimmed_blank(value@);
        }
        if u.as_str().is_empty() {
            Err(ConfigError::EmptyPairingCode)
        } else {
            proof {
                normal_code_is_valid(value@);
            }
            Ok(PairingCode { value: u })
        }
    }

    pub fn expose_secret(&self) -> (r: &str)
        ensures
            r@ == self@,
            valid_code(self@),
    {
        proof {
            use_type_invariant(self);
        }
        self.value.as_str()
    }

    /// What is shown in place of the code.
    pub fn display(&self) -> (r: &'static str)
        ensures
            r@ == "<redacted>"@,
    {
        "<redacted>"
    }
}

// ---------------------------------------------------------------------------
// Servers, timers and the whole configuration
// ---------------------------------------------------------------------------

/// A daily timer: whether it runs, and when, as a cron expression of five fields.
#[derive(Debug, PartialEq, Eq)]
pub struct ServerTimerConfig {
    pub enabled: bool,
    pub cron: Option<String>,
}

pub struct TimerModel {
    pub enabled: bool,
    pub cron: Option<Seq<char>>,
}

impl View for ServerTimerConfig {
    type V = TimerModel;

    open spec fn view(&self) -> TimerModel {
        TimerModel { enabled: self.enabled, cron: opt_text(self.cron) }
    }
}

impl Clone for ServerTimerConfig {
    fn clone(&self) -> (r: Self)
        ensures
            r@ == self@,
    {
        ServerTimerConfig { enabled: self.enabled, cron: clone_opt(&self.cron) }
    }
}

pub open spec fn opt_timer(o: Option<ServerTimerConfig>) -> Option<TimerModel> {
    match o {
        Some(t) => Some(t@),
        None => None,
    }
}

pub fn clone_timer(o: &Option<ServerTimerConfig>) -> (r: Option<ServerTimerConfig>)
    ensures
        opt_timer(r) == opt_timer(*o),
{
    match o {
        Some(t) => Some(t.clone()),
        None => None,
    }
}

#[derive(PartialEq, Eq)]
pub struct ServerConfig {
    pub id: String,
    pub name: String,
    pub token: SecretToken,
    pub enabled: bool,
    pub address: Option<String>,
    pub country: Option<String>,
    pub flag: Option<String>,
    pub resolved_ip: Option<String>,
    pub timer: Option<ServerTimerConfig>,
}

pub struct ServerModel {
    pub id: Seq<char>,
    pub name: Seq<char>,
    pub token: Seq<char>,
    pub enabled: bool,
    pub address: Option<Seq<char>>,
    pub country: Option<Seq<char>>,
    pub flag: Option<Seq<char>>,
    pub resolved_ip: Option<Seq<char>>,
    pub timer: Option<TimerModel>,
}

impl View for ServerConfig {
    type V = ServerModel;

    open spec fn view(&self) -> ServerModel {
        ServerModel {
            id: self.id@,
            name: self.name@,
            token: self.token@,
            enabled: self.enabled,
            address: opt_text(self.address),
            country: opt_text(self.country),
            flag: opt_text(self.flag),
            resolved_ip: opt_text(self.resolved_ip),
            timer: opt_timer(self.timer),
        }
    }
}

impl Clone for ServerConfig {
    fn clone(&self) -> (r: Self)
        ensures
            r@ == self@,
    {
        ServerConfig {
            id: self.id.clone(),
            name: self.name.clone(),
            token: self.token.clone(),
            enabled: self.enabled,
            address: clone_opt(&self.address),
            country: clone_opt(&self.country),
            flag: clone_opt(&self.flag),
            resolved_ip: clone_opt(&self.resolved_ip),
            timer: clone_timer(&self.timer),
        }
    }
}

pub open spec fn server_models(v: Seq<ServerConfig>) -> Seq<ServerModel> {
    Seq::new(v.len(), |i: int| v[i]@)
}

pub fn clone_servers(v: &Vec<ServerConfig>) -> (r: Vec<ServerConfig>)
    ensures
        server_models(r@) == server_models(v@),
{
    let mut r: Vec<ServerConfig> = Vec::new();
    let mut i: usize = 0;
    while i < v.len()
        invariant
            i <= v@.len(),
            r@.len() == i,
            forall|k: int| 0 <= k < i ==> (#[trigger] r@[k])@ == v@[k]@,
        decreases v@.len() - i,
    {
        r.push(v[i].clone());
        i += 1;
    }
    assert(server_models(r@) =~= server_models(v@));
    r
}

/// What has been learnt of the waiting time between two changes of address.
#[derive(Clone, Copy, Debug, PartialEq, Eq)]
pub struct ChangeIpCooldownConfig {
    pub cooldown_seconds: Option<u64>,
    pub last_changeip_at: Option<i64>,
    pub next_changeip_available_at: Option<i64>,
}

#[derive(PartialEq, Eq)]
pub struct AppConfig {
    pub servers: Vec<ServerConfig>,
    pub global_timer: Option<ServerTimerConfig>,
    pub tg_token: Option<String>,
    pub tg_chat_id: Option<String>,
    pub tg_pair_code: Option<PairingCode>,
    pub tg_pair_expires_at: Option<u64>,
    pub change_ip_cooldown: Option<ChangeIpCooldownConfig>,
    pub migration_notice: Option<String>,
}

pub struct ConfigModel {
    pub servers: Seq<ServerModel>,
    pub global_timer: Option<TimerModel>,
    pub tg_token: Option<Seq<char>>,
    pub tg_chat_id: Option<Seq<char>>,
    pub tg_pair_code: Option<Seq<char>>,
    pub tg_pair_expires_at: Option<u64>,
    pub change_ip_cooldown: Option<ChangeIpCooldownConfig>,
    pub migration_notice: Option<Seq<char>>,
}

pub open spec fn opt_code(o: Option<PairingCode>) -> Option<Seq<char>> {
    match o {
        Some(c) => Some(c@),
        None => None,
    }
}

impl View for AppConfig {
    type V = ConfigModel;

    open spec fn view(&self) -> ConfigModel {
        ConfigModel {
            servers: server_models(self.servers@),
            global_timer: opt_timer(self.global_timer),
            tg_token: opt_text(self.tg_token),
            tg_chat_id: opt_text(self.tg_chat_id),
            tg_pair_code: opt_code(self.tg_pair_code),
            tg_pair_expires_at: self.tg_pair_expires_at,
            change_ip_cooldown: self.change_ip_cooldown,
            migration_notice: opt_text(self.migration_notice),
        }
    }
}

impl Clone for AppConfig {
    fn clone(&self) -> (r: Self)
        ensures
            r@ == self@,
    {
        AppConfig {
            servers: clone_servers(&self.servers),
            global_timer: clone_timer(&self.global_timer),
            tg_token: clone_opt(&self.tg_token),
            tg_chat_id: clone_opt(&self.tg_chat_id),
            tg_pair_code: match &self.tg_pair_code {
                Some(c) => Some(c.clone()),
                None => None,
            },
            tg_pair_expires_at: self.tg_pair_expires_at,
            change_ip_cooldown: self.change_ip_cooldown,
            migration_notice: clone_opt(&self.migration_notice),
        }
    }
}

// ---------------------------------------------------------------------------
// What can be wrong
// ---------------------------------------------------------------------------

#[derive(Clone, Debug, PartialEq, Eq)]
pub enum ConfigError {
    EmptyToken,
    EmptyPairingCode,
    MissingServers,
    ServersJson,
    StoredServersJson,
    GlobalTimerEmpty,
    GlobalTimerJson,
    GlobalTimerInvalid,
    PairExpiresAt,
    ServerIdEmpty,
    ServerIdIllegal(String),
    ServerNameEmpty(String),
    ServerTokenEmpty(String),
    ServerIdHoldsToken(String),
    ServerTimerInvalid(String),
    DuplicateServerId(String),
    UnknownServer(String),
    DisabledServer(String),
    NoEnabledServer,
    SelectionRequired,
    CronFieldCount,
    LineWithoutValue(usize),
    LineWithBadName(usize),
    LineWithOpenQuote(usize),
    RandomSource(String),
}

pub enum ConfigFault {
    EmptyToken,
    EmptyPairingCode,
    MissingServers,
    ServersJson,
    StoredServersJson,
    GlobalTimerEmpty,
    GlobalTimerJson,
    GlobalTimerInvalid,
    PairExpiresAt,
    ServerIdEmpty,
    ServerIdIllegal(Seq<char>),
    ServerNameEmpty(Seq<char>),
    ServerTokenEmpty(Seq<char>),
    ServerIdHoldsToken(Seq<char>),
    ServerTimerInvalid(Seq<char>),
    DuplicateServerId(Seq<char>),
    UnknownServer(Seq<char>),
    DisabledServer(Seq<char>),
    NoEnabledServer,
    SelectionRequired,
    CronFieldCount,
    LineWithoutValue(nat),
    LineWithBadName(nat),
    LineWithOpenQuote(nat),
    RandomSource(Seq<char>),
}

impl View for ConfigError {
    type V = ConfigFault;

    open spec fn view(&self) -> ConfigFault {
        match self {
            ConfigError::EmptyToken => ConfigFault::EmptyToken,
            ConfigError::EmptyPairingCode => ConfigFault::EmptyPairingCode,
            ConfigError::MissingServers => ConfigFault::MissingServers,
            ConfigError::ServersJson => ConfigFault::ServersJson,
            ConfigError::StoredServersJson => ConfigFault::StoredServersJson,
            ConfigError::GlobalTimerEmpty => ConfigFault::GlobalTimerEmpty,
            ConfigError::GlobalTimerJson => ConfigFault::GlobalTimerJson,
            ConfigError::GlobalTimerInvalid => ConfigFault::GlobalTimerInvalid,
            ConfigError::PairExpiresAt => ConfigFault::PairExpiresAt,
            ConfigError::ServerIdEmpty => ConfigFault::ServerIdEmpty,
            ConfigError::ServerIdIllegal(s) => ConfigFault::ServerIdIllegal(s@),
            ConfigError::ServerNameEmpty(s) => ConfigFault::ServerNameEmpty(s@),
            ConfigError::ServerTokenEmpty(s) => ConfigFault::ServerTokenEmpty(s@),
            ConfigError::ServerIdHoldsToken(s) => ConfigFault::ServerIdHoldsToken(s@),
            ConfigError::ServerTimerInvalid(s) => ConfigFault::ServerTimerInvalid(s@),
            ConfigError::DuplicateServerId(s) => ConfigFault::DuplicateServerId(s@),
            ConfigError::UnknownServer(s) => ConfigFault::UnknownServer(s@),
            ConfigError::DisabledServer(s) => ConfigFault::DisabledServer(s@),
            ConfigError::NoEnabledServer => ConfigFault::NoEnabledServer,
            ConfigError::SelectionRequired => ConfigFault::SelectionRequired,
            ConfigError::CronFieldCount => ConfigFault::CronFieldCount,
            ConfigError::LineWithoutValue(n) => ConfigFault::LineWithoutValue(*n as nat),
            ConfigError::LineWithBadName(n) => ConfigFault::LineWithBadName(*n as nat),
            ConfigError::LineWithOpenQuote(n) => ConfigFault::LineWithOpenQuote(*n as nat),
            ConfigError::RandomSource(s) => ConfigFault::RandomSource(s@),
        }
    }
}

/// The message for a fault.
pub open spec fn fault_text(f: ConfigFault) -> Seq<char> {
    match f {
        ConfigFault::EmptyToken => "Token 不能为空"@,
        ConfigFault::EmptyPairingCode => "配对码不能为空"@,
        ConfigFault::MissingServers => "缺少 BOIL_SERVERS 配置"@,
        ConfigFault::ServersJson => "BOIL_SERVERS JSON 解析失败，请检查多 VPS 配置格式"@,
        ConfigFault::StoredServersJson => "已有 BOIL_SERVERS JSON 解析失败，请先修复配置文件"@,
        ConfigFault::GlobalTimerEmpty =>
            "BOIL_GLOBAL_TIMER 不能为空；未启用全局定时时请删除该配置项"@,
        ConfigFault::GlobalTimerJson =>
            "BOIL_GLOBAL_TIMER JSON 解析失败，请检查全局定时配置格式"@,
        ConfigFault::GlobalTimerInvalid => "BOIL_GLOBAL_TIMER 配置无效"@,
        ConfigFault::PairExpiresAt => "TG_PAIR_EXPIRES_AT 必须是 Unix 时间戳"@,
        ConfigFault::ServerIdEmpty => "server id 不能为空"@,
        ConfigFault::ServerIdIllegal(id) => "server id '"@ + id
            + "' 含非法字符，只允许字母、数字、短横线、下划线"@,
        ConfigFault::ServerNameEmpty(id) => "server id '"@ + id + "' 的 name 不能为空"@,
        ConfigFault::ServerTokenEmpty(id) => "server id '"@ + id + "' 的 token 不能为空"@,
        ConfigFault::ServerIdHoldsToken(id) => "server id '"@ + id + "' 不得包含 token"@,
        ConfigFault::ServerTimerInvalid(id) => "server id '"@ + id + "' 的 timer 配置无效"@,
        ConfigFault::DuplicateServerId(id) => "server id '"@ + id + "' 重复"@,
        ConfigFault::UnknownServer(id) => "未找到 server id: "@ + id,
        ConfigFault::DisabledServer(id) => "server id '"@ + id + "' 已禁用"@,
        ConfigFault::NoEnabledServer => "没有已启用的 VPS"@,
        ConfigFault::SelectionRequired =>
            "检测到多台已启用 VPS，必须明确指定 server id 或使用 --all"@,
        ConfigFault::CronFieldCount => "cron 必须是 5 字段格式，例如 30 3 * * *"@,
        ConfigFault::LineWithoutValue(n) => "配置文件第 "@ + decimal(n) + " 行格式无效"@,
        ConfigFault::LineWithBadName(n) => "配置文件第 "@ + decimal(n) + " 行变量名无效"@,
        ConfigFault::LineWithOpenQuote(n) => "配置文件第 "@ + decimal(n) + " 行单引号未闭合"@,
        ConfigFault::RandomSource(text) => text,
    }
}

fn around(before: &str, middle: &str, after: &str) -> (r: String)
    ensures
        r@ == before@ + middle@ + after@,
{
    let mut r = before.to_owned();
    r.append(middle);
    r.append(after);
    r
}

impl ConfigError {
    pub fn message(&self) -> (r: String)
        ensures
            r@ == fault_text(self@),
    {
        match self {
            ConfigError::EmptyToken => "Token 不能为空".to_owned(),
            ConfigError::EmptyPairingCode => "配对码不能为空".to_owned(),
            ConfigError::MissingServers => "缺少 BOIL_SERVERS 配置".to_owned(),
            ConfigError::ServersJson =>
                "BOIL_SERVERS JSON 解析失败，请检查多 VPS 配置格式".to_owned(),
            ConfigError::StoredServersJson =>
                "已有 BOIL_SERVERS JSON 解析失败，请先修复配置文件".to_owned(),
            ConfigError::GlobalTimerEmpty =>
                "BOIL_GLOBAL_TIMER 不能为空；未启用全局定时时请删除该配置项".to_owned(),
            ConfigError::GlobalTimerJson =>
                "BOIL_GLOBAL_TIMER JSON 解析失败，请检查全局定时配置格式".to_owned(),
            ConfigError::GlobalTimerInvalid => "BOIL_GLOBAL_TIMER 配置无效".to_owned(),
            ConfigError::PairExpiresAt => "TG_PAIR_EXPIRES_AT 必须是 Unix 时间戳".to_owned(),
            ConfigError::ServerIdEmpty => "server id 不能为空".to_owned(),
            ConfigError::ServerIdIllegal(id) => around(
                "server id '",
                id.as_str(),
                "' 含非法字符，只允许字母、数字、短横线、下划线",
            ),
            ConfigError::ServerNameEmpty(id) => around(
                "server id '",
                id.as_str(),
                "' 的 name 不能为空",
            ),
            ConfigError::ServerTokenEmpty(id) => around(
                "server id '",
                id.as_str(),
                "' 的 token 不能为空",
            ),
            ConfigError::ServerIdHoldsToken(id) => around(
                "server id '",
                id.as_str(),
                "' 不得包含 token",
            ),
            ConfigError::ServerTimerInvalid(id) => around(
                "server id '",
                id.as_str(),
                "' 的 timer 配置无效",
            ),
            ConfigError::DuplicateServerId(id) => around("server id '", id.as_str(), "' 重复"),
            ConfigError::UnknownServer(id) => {
                let mut r = "未找到 server id: ".to_owned();
                r.append(id.as_str());
                r
            },
            ConfigError::DisabledServer(id) => around("server id '", id.as_str(), "' 已禁用"),
            ConfigError::NoEnabledServer => "没有已启用的 VPS".to_owned(),
            ConfigError::SelectionRequired =>
                "检测到多台已启用 VPS，必须明确指定 server id 或使用 --all".to_owned(),
            ConfigError::CronFieldCount => "cron 必须是 5 字段格式，例如 30 3 * * *".to_owned(),
            ConfigError::LineWithoutValue(n) => around(
                "配置文件第 ",
                decimal_text(*n as u64).as_str(),
                " 行格式无效",
            ),
            ConfigError::LineWithBadName(n) => around(
                "配置文件第 ",
                decimal_text(*n as u64).as_str(),
                " 行变量名无效",
            ),
            ConfigError::LineWithOpenQuote(n) => around(
                "配置文件第 ",
                decimal_text(*n as u64).as_str(),
                " 行单引号未闭合",
            ),
            ConfigError::RandomSource(text) => text.clone(),
        }
    }
}

// ---------------------------------------------------------------------------
// Validation
// ---------------------------------------------------------------------------

pub open spec fn is_id_char(c: char) -> bool {
    is_ascii_letter_or_digit(c) || c == '-' || c == '_'
}

/// A server id: letters, digits, hyphens and underscores, at least one.
pub open spec fn valid_id(id: Seq<char>) -> bool {
    id.len() > 0 && forall|i: int| 0 <= i < id.len() ==> is_id_char(#[trigger] id[i])
}

/// A cron expression has five fields.
pub open spec fn valid_cron(cron: Seq<char>) -> bool {
    words_of(cron).len() == 5
}

pub open spec fn valid_timer(t: TimerModel) -> bool {
    t.cron matches Some(c) ==> valid_cron(c)
}

pub open spec fn valid_opt_timer(t: Option<TimerModel>) -> bool {
    t matches Some(m) ==> valid_timer(m)
}

/// A server that stands for itself, whatever the others are.
pub open spec fn valid_server(s: ServerModel) -> bool {
    &&& valid_id(s.id)
    &&& !is_blank(s.name)
    &&& !is_blank(s.token)
    &&& !contains_text(s.id, s.token)
    &&& valid_opt_timer(s.timer)
}

pub open spec fn distinct_ids(servers: Seq<ServerModel>) -> bool {
    forall|i: int, j: int|
        0 <= i < j < servers.len() ==> (#[trigger] servers[i]).id != (#[trigger] servers[j]).id
}

/// Servers that a configuration may hold: each one valid, no id twice.
pub open spec fn valid_servers(servers: Seq<ServerModel>) -> bool {
    &&& forall|i: int| 0 <= i < servers.len() ==> valid_server(#[trigger] servers[i])
    &&& distinct_ids(servers)
}

pub open spec fn id_among(servers: Seq<ServerModel>, n: int, id: Seq<char>) -> bool {
    exists|j: int| 0 <= j < n && (#[trigger] servers[j]).id == id
}

pub open spec fn id_fault(id: Seq<char>) -> Option<ConfigFault> {
    if id.len() == 0 {
        Some(ConfigFault::ServerIdEmpty)
    } else if !valid_id(id) {
        Some(ConfigFault::ServerIdIllegal(id))
    } else {
        None
    }
}

/// The first thing that is wrong with the server at `i`, in the order in which
/// it is looked for.
pub open spec fn server_fault(servers: Seq<ServerModel>, i: int) -> Option<ConfigFault> {
    let s = servers[i];
    match id_fault(s.id) {
        Some(f) => Some(f),
        None => {
            if is_blank(s.name) {
                Some(ConfigFault::ServerNameEmpty(s.id))
            } else if is_blank(s.token) {
                Some(ConfigFault::ServerTokenEmpty(s.id))
            } else if contains_text(s.id, s.token) {
                Some(ConfigFault::ServerIdHoldsToken(s.id))
            } else if !valid_opt_timer(s.timer) {
                Some(ConfigFault::ServerTimerInvalid(s.id))
            } else if id_among(servers, i, s.id) {
                Some(ConfigFault::DuplicateServerId(s.id))
            } else {
                None
            }
        },
    }
}

/// `i` is the first server with a fault, or the number of servers.
pub open spec fn first_faulty(servers: Seq<ServerModel>, i: int) -> bool {
    &&& 0 <= i <= servers.len()
    &&& forall|j: int| 0 <= j < i ==> server_fault(servers, j) is None
    &&& i < servers.len() ==> server_fault(servers, i) is Some
}

/// `f` is the fault of the first server that has one.
pub open spec fn is_servers_fault(servers: Seq<ServerModel>, f: ConfigFault) -> bool {
    exists|i: int|
        #![trigger server_fault(servers, i)]
        first_faulty(servers, i) && i < servers.len() && server_fault(servers, i) == Some(f)
}

/// Servers without a fault are exactly the valid ones.
pub proof fn faultless_servers_are_valid(servers: Seq<ServerModel>)
    ensures
        (forall|i: int| 0 <= i < servers.len() ==> server_fault(servers, i) is None)
            <==> valid_servers(servers),
{
    if forall|i: int| 0 <= i < servers.len() ==> server_fault(servers, i) is None {
        assert forall|i: int| 0 <= i < servers.len() implies valid_server(#[trigger] servers[i]) by {
            assert(server_fault(servers, i) is None);
        }
        assert forall|i: int, j: int| 0 <= i < j < servers.len() implies (#[trigger] servers[i]).id
            != (#[trigger] servers[j]).id by {
            assert(server_fault(servers, j) is None);
            assert(!id_among(servers, j, servers[j].id));
        }
    }
    if valid_servers(servers) {
        assert forall|i: int| 0 <= i < servers.len() implies server_fault(servers, i) is None by {
            assert(valid_server(servers[i]));
            if id_among(servers, i, servers[i].id) {
                let j = choose|j: int| 0 <= j < i && (#[trigger] servers[j]).id == servers[i].id;
                assert(servers[j].id != servers[i].id);
            }
        }
    }
}

pub fn validate_server_id(id: &str) -> (r: Result<(), ConfigError>)
    ensures
        match r {
            Ok(_) => id_fault(id@) is None,
            Err(e) => id_fault(id@) == Some(e@),
        },
{
    let cs = chars_of(id);
    if cs.len() == 0 {
        return Err(ConfigError::ServerIdEmpty);
    }
    let mut i: usize = 0;
    while i < cs.len()
        invariant
            cs@ == id@,
            i <= cs@.len(),
            id@.len() > 0,
            forall|k: int| 0 <= k < i ==> is_id_char(#[trigger] id@[k]),
        decreases cs@.len() - i,
    {
        let c = cs[i];
        if !(('0' <= c && c <= '9') || ('a' <= c && c <= 'z') || ('A' <= c && c <= 'Z') || c == '-'
            || c == '_') {
            assert(!is_id_char(id@[i as int]));
            return Err(ConfigError::ServerIdIllegal(id.to_owned()));
        }
        i += 1;
    }
    Ok(())
}

pub fn validate_timer_cron(cron: &str) -> (r: Result<(), ConfigError>)
    ensures
        match r {
            Ok(_) => valid_cron(cron@),
            Err(e) => !valid_cron(cron@) && e@ == ConfigFault::CronFieldCount,
        },
{
    let parts = words(cron);
    assert(texts(parts@).len() == parts@.len());
    if parts.len() == 5 {
        Ok(())
    } else {
        Err(ConfigError::CronFieldCount)
    }
}

pub fn validate_timer_config(timer: &ServerTimerConfig) -> (r: Result<(), ConfigError>)
    ensures
        match r {
            Ok(_) => valid_timer(timer@),
            Err(e) => !valid_timer(timer@) && e@ == ConfigFault::CronFieldCount,
        },
{
    match &timer.cron {
        Some(cron) => validate_timer_cron(cron.as_str()),
        None => Ok(()),
    }
}

fn timer_is_valid(timer: &Option<ServerTimerConfig>) -> (r: bool)
    ensures
        r == valid_opt_timer(opt_timer(*timer)),
{
    match timer {
        Some(t) => match validate_timer_config(t) {
            Ok(_) => true,
            Err(_) => false,
        },
        None => true,
    }
}

/// Whether one of the first `n` servers has this id.
fn id_taken(servers: &[ServerConfig], n: usize, id: &str) -> (r: bool)
    requires
        n <= servers@.len(),
    ensures
        r == id_among(server_models(servers@), n as int, id@),
{
    let mut j: usize = 0;
    while j < n
        invariant
            j <= n <= servers@.len(),
            forall|k: int|
                0 <= k < j ==> (#[trigger] server_models(servers@)[k]).id != id@,
        decreases n - j,
    {
        assert(server_models(servers@)[j as int].id == servers@[j as int].id@);
        if same_text(servers[j].id.as_str(), id) {
            return true;
        }
        j += 1;
    }
    false
}

fn validate_server_at(servers: &[ServerConfig], i: usize) -> (r: Result<(), ConfigError>)
    requires
        i < servers@.len(),
    ensures
        match r {
            Ok(_) => server_fault(server_models(servers@), i as int) is None,
            Err(e) => server_fault(server_models(servers@), i as int) == Some(e@),
        },
{
    let server = &servers[i];
    assert(server_models(servers@)[i as int] == servers@[i as int]@);
    validate_server_id(server.id.as_str())?;
    if is_blank_text(server.name.as_str()) {
        return Err(ConfigError::ServerNameEmpty(server.id.clone()));
    }
    if server.token.is_empty() {
        return Err(ConfigError::ServerTokenEmpty(server.id.clone()));
    }
    if contains_str(server.id.as_str(), server.token.expose_secret()) {
        return Err(ConfigError::ServerIdHoldsToken(server.id.clone()));
    }
    if !timer_is_valid(&server.timer) {
        return Err(ConfigError::ServerTimerInvalid(server.id.clone()));
    }
    if id_taken(servers, i, server.id.as_str()) {
        return Err(ConfigError::DuplicateServerId(server.id.clone()));
    }
    Ok(())
}

pub fn validate_servers(servers: &[ServerConfig]) -> (r: Result<(), ConfigError>)
    ensures
        match r {
            Ok(_) => valid_servers(server_models(servers@)),
            Err(e) => !valid_servers(server_models(servers@)) && is_servers_fault(
                server_models(servers@),
                e@,
            ),
        },
{
    let mut i: usize = 0;
    while i < servers.len()
        invariant
            i <= servers@.len(),
            forall|j: int| 0 <= j < i ==> server_fault(server_models(servers@), j) is None,
        decreases servers@.len() - i,
    {
        match validate_server_at(servers, i) {
            Ok(_) => {},
            Err(e) => {
                proof {
                    let m = server_models(servers@);
                    faultless_servers_are_valid(m);
                    assert(server_fault(m, i as int) is Some);
                    assert(first_faulty(m, i as int));
                }
                return Err(e);
            },
        }
        i += 1;
    }
    proof {
        faultless_servers_are_valid(server_models(servers@));
    }
    Ok(())
}

// ---------------------------------------------------------------------------
// Selecting servers
// ---------------------------------------------------------------------------

#[derive(Clone, Copy, Debug, PartialEq, Eq)]
pub enum ServerSelection<'a> {
    Unspecified,
    Id(&'a str),
    All,
}

#[derive(Clone, PartialEq, Eq)]
pub enum ResolvedSelection<'a> {
    One(&'a ServerConfig),
    All(Vec<&'a ServerConfig>),
}

/// The enabled servers, in the order of the configuration.
pub open spec fn enabled_of(servers: Seq<ServerConfig>) -> Seq<ServerConfig>
    decreases servers.len(),
{
    if servers.len() == 0 {
        Seq::empty()
    } else if servers.last().enabled {
        enabled_of(servers.drop_last()).push(servers.last())
    } else {
        enabled_of(servers.drop_last())
    }
}

/// The position of the first server with this id, or the number of servers.
pub open spec fn position_of(servers: Seq<ServerModel>, id: Seq<char>) -> int
    decreases servers.len(),
{
    if servers.len() == 0 {
        0
    } else if servers[0].id == id {
        0
    } else {
        1 + position_of(servers.subrange(1, servers.len() as int), id)
    }
}

pub proof fn lemma_position_of(servers: Seq<ServerModel>, id: Seq<char>)
    ensures
        0 <= position_of(servers, id) <= servers.len(),
        position_of(servers, id) < servers.len() ==> servers[position_of(servers, id)].id == id,
        forall|i: int| 0 <= i < position_of(servers, id) ==> (#[trigger] servers[i]).id != id,
    decreases servers.len(),
{
    if servers.len() > 0 && servers[0].id != id {
        let t = servers.subrange(1, servers.len() as int);
        lemma_position_of(t, id);
        assert forall|i: int| 0 <= i < position_of(servers, id) implies (#[trigger] servers[i]).id
            != id by {
            if i > 0 {
                assert(t[i - 1] == servers[i]);
            }
        }
    }
}

/// Some server has this id.
pub open spec fn known_id(servers: Seq<ServerModel>, id: Seq<char>) -> bool {
    position_of(servers, id) < servers.len()
}

/// The position of the first server with this id, or the number of servers.
pub fn find_server(servers: &[ServerConfig], id: &str) -> (r: usize)
    ensures
        r == position_of(server_models(servers@), id@),
        r <= servers@.len(),
        r < servers@.len() ==> servers@[r as int].id@ == id@,
{
    let mut i: usize = 0;
    let ghost m = server_models(servers@);
    assert(m.subrange(0, m.len() as int) =~= m);
    while i < servers.len() && !same_text(servers[i].id.as_str(), id)
        invariant
            i <= servers@.len(),
            m == server_models(servers@),
            position_of(m, id@) == i + position_of(m.subrange(i as int, m.len() as int), id@),
        decreases servers@.len() - i,
    {
        proof {
            let t = m.subrange(i as int, m.len() as int);
            assert(t[0] == servers@[i as int]@);
            assert(t.subrange(1, t.len() as int) =~= m.subrange(i + 1, m.len() as int));
        }
        i += 1;
    }
    proof {
        let t = m.subrange(i as int, m.len() as int);
        if i < servers@.len() {
            assert(t[0] == servers@[i as int]@);
        }
    }
    i
}

fn enabled_servers(servers: &[ServerConfig]) -> (r: Vec<&ServerConfig>)
    ensures
        r@.len() == enabled_of(servers@).len(),
        forall|i: int| 0 <= i < r@.len() ==> *(#[trigger] r@[i]) == enabled_of(servers@)[i],
{
    let mut r: Vec<&ServerConfig> = Vec::new();
    let mut i: usize = 0;
    while i < servers.len()
        invariant
            i <= servers@.len(),
            r@.len() == enabled_of(servers@.subrange(0, i as int)).len(),
            forall|k: int|
                0 <= k < r@.len() ==> *(#[trigger] r@[k]) == enabled_of(
                    servers@.subrange(0, i as int),
                )[k],
        decreases servers@.len() - i,
    {
        let ghost t = servers@.subrange(0, i + 1);
        assert(t.drop_last() =~= servers@.subrange(0, i as int));
        if servers[i].enabled {
            r.push(&servers[i]);
        }
        i += 1;
    }
    assert(servers@.subrange(0, servers@.len() as int) =~= servers@);
    r
}

/// What a selection of servers comes to: one named server, if it is known and
/// enabled; all enabled ones, if there are any; or, if nothing was said, the only
/// enabled one.
pub open spec fn resolved_as(
    servers: Seq<ServerConfig>,
    selection: ServerSelection<'_>,
    r: Result<ResolvedSelection<'_>, ConfigError>,
) -> bool {
    match selection {
        ServerSelection::Id(id) => {
            let i = position_of(server_models(servers), id@);
            match r {
                Ok(ResolvedSelection::One(s)) => 0 <= i < servers.len() && servers[i].enabled
                    && *s == servers[i],
                Ok(ResolvedSelection::All(_)) => false,
                Err(e) => if i < servers.len() {
                    !servers[i].enabled && e@ == ConfigFault::DisabledServer(id@)
                } else {
                    e@ == ConfigFault::UnknownServer(id@)
                },
            }
        },
        ServerSelection::All => match r {
            Ok(ResolvedSelection::All(v)) => {
                &&& v@.len() > 0
                &&& v@.len() == enabled_of(servers).len()
                &&& forall|i: int|
                    0 <= i < v@.len() ==> *(#[trigger] v@[i]) == enabled_of(servers)[i]
            },
            Ok(ResolvedSelection::One(_)) => false,
            Err(e) => enabled_of(servers).len() == 0 && e@ == ConfigFault::NoEnabledServer,
        },
        ServerSelection::Unspecified => match r {
            Ok(ResolvedSelection::One(s)) => enabled_of(servers).len() == 1 && *s
                == enabled_of(servers)[0],
            Ok(ResolvedSelection::All(_)) => false,
            Err(e) => if enabled_of(servers).len() == 0 {
                e@ == ConfigFault::NoEnabledServer
            } else {
                enabled_of(servers).len() > 1 && e@ == ConfigFault::SelectionRequired
            },
        },
    }
}

/// Finds the servers that a selection names.
pub fn resolve_servers<'a>(servers: &'a [ServerConfig], selection: ServerSelection<'_>) -> (r:
    Result<ResolvedSelection<'a>, ConfigError>)
    ensures
        resolved_as(servers@, selection, r),
{
    match selection {
        ServerSelection::Id(id) => {
            let i = find_server(servers, id);
            if i == servers.len() {
                Err(ConfigError::UnknownServer(id.to_owned()))
            } else if servers[i].enabled {
                Ok(ResolvedSelection::One(&servers[i]))
            } else {
                Err(ConfigError::DisabledServer(id.to_owned()))
            }
        },
        ServerSelection::All => {
            let enabled = enabled_servers(servers);
            if enabled.len() == 0 {
                Err(ConfigError::NoEnabledServer)
            } else {
                Ok(ResolvedSelection::All(enabled))
            }
        },
        ServerSelection::Unspecified => {
            let enabled = enabled_servers(servers);
            if enabled.len() == 0 {
                Err(ConfigError::NoEnabledServer)
            } else if enabled.len() == 1 {
                Ok(ResolvedSelection::One(enabled[0]))
            } else {
                Err(ConfigError::SelectionRequired)
            }
        },
    }
}

/// The enabled servers, in the order of the configuration.
pub open spec fn enabled_models(servers: Seq<ServerModel>) -> Seq<ServerModel>
    decreases servers.len(),
{
    if servers.len() == 0 {
        Seq::empty()
    } else if servers.last().enabled {
        enabled_models(servers.drop_last()).push(servers.last())
    } else {
        enabled_models(servers.drop_last())
    }
}

pub proof fn lemma_enabled_models(servers: Seq<ServerConfig>)
    ensures
        server_models(enabled_of(servers)) == enabled_models(server_models(servers)),
    decreases servers.len(),
{
    let m = server_models(servers);
    if servers.len() == 0 {
        assert(server_models(enabled_of(servers)) =~= enabled_models(m));
    } else {
        lemma_enabled_models(servers.drop_last());
        assert(m.drop_last() =~= server_models(servers.drop_last()));
        assert(m.last() == servers.last()@);
        assert(server_models(enabled_of(servers)) =~= enabled_models(m));
    }
}

/// The server that is meant: the one that is named, if it is known and enabled, or the only
/// enabled one, if none is named.
pub open spec fn chosen(servers: Seq<ServerModel>, id: Option<Seq<char>>) -> Result<
    ServerModel,
    ConfigFault,
> {
    match id {
        Some(id) => {
            let i = position_of(servers, id);
            if i >= servers.len() {
                Err(ConfigFault::UnknownServer(id))
            } else if !servers[i].enabled {
                Err(ConfigFault::DisabledServer(id))
            } else {
                Ok(servers[i])
            }
        },
        None => {
            let e = enabled_models(servers);
            if e.len() == 0 {
                Err(ConfigFault::NoEnabledServer)
            } else if e.len() > 1 {
                Err(ConfigFault::SelectionRequired)
            } else {
                Ok(e[0])
            }
        },
    }
}

/// The servers that a selection stands for, or what is wrong with it.
pub open spec fn selected(servers: Seq<ServerModel>, selection: ServerSelection<'_>) -> Result<
    Seq<ServerModel>,
    ConfigFault,
> {
    match selection {
        ServerSelection::Id(id) => match chosen(servers, Some(id@)) {
            Ok(s) => Ok(seq![s]),
            Err(f) => Err(f),
        },
        ServerSelection::Unspecified => match chosen(servers, None) {
            Ok(s) => Ok(seq![s]),
            Err(f) => Err(f),
        },
        ServerSelection::All => if enabled_models(servers).len() == 0 {
            Err(ConfigFault::NoEnabledServer)
        } else {
            Ok(enabled_models(servers))
        },
    }
}

/// All servers that are enabled are chosen together, in the order of the configuration,
/// and no others.
pub proof fn enabled_servers_keep_their_order(servers: Seq<ServerModel>)
    ensures
        enabled_models(servers) == servers.filter(|s: ServerModel| s.enabled),
    decreases servers.len(),
{
    reveal(Seq::filter);
    if servers.len() > 0 {
        enabled_servers_keep_their_order(servers.drop_last());
    }
}

/// A server that is named is chosen or none is: never another one.
pub proof fn named_server_or_none(servers: Seq<ServerModel>, id: Seq<char>)
    ensures
        chosen(servers, Some(id)) matches Ok(s) ==> s.id == id && s.enabled && servers.contains(s),
{
    lemma_position_of(servers, id);
    let i = position_of(servers, id);
    if i < servers.len() {
        assert(servers.contains(servers[i]));
    }
}

/// The server that is meant.
pub fn choose_server<'a>(config: &'a AppConfig, id: Option<&str>) -> (r: Result<
    &'a ServerConfig,
    ConfigError,
>)
    ensures
        match r {
            Ok(s) => chosen(
                config@.servers,
                match id {
                    Some(id) => Some(id@),
                    None => None,
                },
            ) == Ok::<_, ConfigFault>(s@),
            Err(e) => chosen(
                config@.servers,
                match id {
                    Some(id) => Some(id@),
                    None => None,
                },
            ) == Err::<ServerModel, _>(e@),
        },
{
    proof {
        lemma_enabled_models(config.servers@);
        let e = enabled_of(config.servers@);
        assert(server_models(e).len() == e.len());
        if e.len() == 1 {
            assert(server_models(e)[0] == e[0]@);
        }
        match id {
            Some(id) => {
                lemma_position_of(config@.servers, id@);
            },
            None => {},
        }
    }
    let selection = match id {
        Some(id) => ServerSelection::Id(id),
        None => ServerSelection::Unspecified,
    };
    match config.resolve_servers(selection) {
        Ok(ResolvedSelection::One(server)) => Ok(server),
        Ok(ResolvedSelection::All(_)) => Err(ConfigError::NoEnabledServer),
        Err(e) => Err(e),
    }
}

// ---------------------------------------------------------------------------
// Reading the configuration from variables
// ---------------------------------------------------------------------------

pub const BOIL_SERVERS_ENV: &'static str = "BOIL_SERVERS";

pub const BOIL_GLOBAL_TIMER_ENV: &'static str = "BOIL_GLOBAL_TIMER";

pub const TG_PAIR_CODE_ENV: &'static str = "TG_PAIR_CODE";

pub const TG_PAIR_EXPIRES_AT_ENV: &'static str = "TG_PAIR_EXPIRES_AT";

/// A variable: its name and its value.
pub type VarModel = (Seq<char>, Seq<char>);

pub open spec fn var_models(v: Seq<(String, String)>) -> Seq<VarModel> {
    Seq::new(v.len(), |i: int| (v[i].0@, v[i].1@))
}

/// The value of the first variable with this name.
pub open spec fn var_value(vars: Seq<VarModel>, key: Seq<char>) -> Option<Seq<char>>
    decreases vars.len(),
{
    if vars.len() == 0 {
        None
    } else if vars[0].0 == key {
        Some(vars[0].1)
    } else {
        var_value(vars.subrange(1, vars.len() as int), key)
    }
}

pub fn find_var<'a>(vars: &'a [(String, String)], key: &str) -> (r: Option<&'a str>)
    ensures
        match r {
            Some(v) => var_value(var_models(vars@), key@) == Some(v@),
            None => var_value(var_models(vars@), key@) is None,
        },
{
    let mut i: usize = 0;
    let ghost m = var_models(vars@);
    assert(m.subrange(0, m.len() as int) =~= m);
    while i < vars.len()
        invariant
            i <= vars@.len(),
            m == var_models(vars@),
            var_value(m, key@) == var_value(m.subrange(i as int, m.len() as int), key@),
        decreases vars@.len() - i,
    {
        let ghost t = m.subrange(i as int, m.len() as int);
        assert(t[0] == m[i as int]);
        if same_text(vars[i].0.as_str(), key) {
            return Some(vars[i].1.as_str());
        }
        assert(t.subrange(1, t.len() as int) =~= m.subrange(i + 1, m.len() as int));
        i += 1;
    }
    None
}

pub open spec fn has_legacy(vars: Seq<VarModel>) -> bool {
    ||| var_value(vars, "BOIL_ACCOUNT"@) is Some
    ||| var_value(vars, "BOIL_PASSWORD"@) is Some
    ||| var_value(vars, "BOIL_ROUTER_ID"@) is Some
    ||| var_value(vars, "BOIL_INTERFACE"@) is Some
}

fn has_legacy_boil_config(vars: &[(String, String)]) -> (r: bool)
    ensures
        r == has_legacy(var_models(vars@)),
{
    find_var(vars, "BOIL_ACCOUNT").is_some() || find_var(vars, "BOIL_PASSWORD").is_some()
        || find_var(vars, "BOIL_ROUTER_ID").is_some() || find_var(vars, "BOIL_INTERFACE").is_some()
}

pub open spec fn pairing_code_of(vars: Seq<VarModel>) -> Result<Option<Seq<char>>, ConfigFault> {
    match var_value(vars, TG_PAIR_CODE_ENV@) {
        None => Ok(None),
        Some(v) => if is_blank(v) {
            Err(ConfigFault::EmptyPairingCode)
        } else {
            Ok(Some(normal_code(v)))
        },
    }
}

fn parse_pairing_code(vars: &[(String, String)]) -> (r: Result<Option<PairingCode>, ConfigError>)
    ensures
        match r {
            Ok(c) => pairing_code_of(var_models(vars@)) == Ok::<_, ConfigFault>(opt_code(c)),
            Err(e) => pairing_code_of(var_models(vars@)) == Err::<Option<Seq<char>>, _>(e@),
        },
{
    match find_var(vars, TG_PAIR_CODE_ENV) {
        None => Ok(None),
        Some(v) => match PairingCode::new(v.to_owned()) {
            Ok(c) => Ok(Some(c)),
            Err(e) => Err(e),
        },
    }
}

pub open spec fn pair_expiry_of(vars: Seq<VarModel>) -> Result<Option<u64>, ConfigFault> {
    match var_value(vars, TG_PAIR_EXPIRES_AT_ENV@) {
        None => Ok(None),
        Some(v) => match parsed_unsigned(trimmed(v), u64::MAX as nat) {
            Some(n) => Ok(Some(n as u64)),
            None => Err(ConfigFault::PairExpiresAt),
        },
    }
}

fn parse_pair_expires_at(vars: &[(String, String)]) -> (r: Result<Option<u64>, ConfigError>)
    ensures
        match r {
            Ok(c) => pair_expiry_of(var_models(vars@)) == Ok::<_, ConfigFault>(c),
            Err(e) => pair_expiry_of(var_models(vars@)) == Err::<Option<u64>, _>(e@),
        },
{
    match find_var(vars, TG_PAIR_EXPIRES_AT_ENV) {
        None => Ok(None),
        Some(v) => {
            let t = trim(v);
            match parse_unsigned(t.as_str(), u64::MAX) {
                Some(n) => Ok(Some(n)),
                None => Err(ConfigError::PairExpiresAt),
            }
        },
    }
}

/// The global timer of the variables, where `decoded` is what the JSON text of
/// `BOIL_GLOBAL_TIMER` decodes to, if it does.
pub open spec fn global_timer_of(vars: Seq<VarModel>, decoded: Option<TimerModel>) -> Result<
    Option<TimerModel>,
    ConfigFault,
> {
    match var_value(vars, BOIL_GLOBAL_TIMER_ENV@) {
        None => Ok(None),
        Some(v) => if is_blank(v) {
            Err(ConfigFault::GlobalTimerEmpty)
        } else {
            match decoded {
                None => Err(ConfigFault::GlobalTimerJson),
                Some(t) => if valid_timer(t) {
                    Ok(Some(t))
                } else {
                    Err(ConfigFault::GlobalTimerInvalid)
                },
            }
        },
    }
}

fn parse_global_timer(vars: &[(String, String)], decoded: Option<ServerTimerConfig>) -> (r: Result<
    Option<ServerTimerConfig>,
    ConfigError,
>)
    ensures
        match r {
            Ok(t) => global_timer_of(var_models(vars@), opt_timer(decoded)) == Ok::<
                _,
                ConfigFault,
            >(opt_timer(t)),
            Err(e) => global_timer_of(var_models(vars@), opt_timer(decoded)) == Err::<
                Option<TimerModel>,
                _,
            >(e@),
        },
{
    match find_var(vars, BOIL_GLOBAL_TIMER_ENV) {
        None => Ok(None),
        Some(v) => {
            if is_blank_text(v) {
                return Err(ConfigError::GlobalTimerEmpty);
            }
            match decoded {
                None => Err(ConfigError::GlobalTimerJson),
                Some(t) => match validate_timer_config(&t) {
                    Ok(_) => Ok(Some(t)),
                    Err(_) => Err(ConfigError::GlobalTimerInvalid),
                },
            }
        },
    }
}

/// What is said to someone whose configuration is for the account-based API.
pub open spec fn legacy_notice() -> Seq<char> {
    "检测到旧版 Boil 配置（BOIL_ACCOUNT/BOIL_PASSWORD/BOIL_ROUTER_ID/BOIL_INTERFACE）。当前版本已迁移到新版 Token API，不再使用旧账号密码、router_id 或 interface 调用旧 API。请从 Boil 面板获取新版 Token，并为每台 VPS 手动配置 BOIL_SERVERS；不会自动使用旧凭据获取 token。"@
}

fn legacy_config_migration_notice() -> (r: &'static str)
    ensures
        r@ == legacy_notice(),
{
    "检测到旧版 Boil 配置（BOIL_ACCOUNT/BOIL_PASSWORD/BOIL_ROUTER_ID/BOIL_INTERFACE）。当前版本已迁移到新版 Token API，不再使用旧账号密码、router_id 或 interface 调用旧 API。请从 Boil 面板获取新版 Token，并为每台 VPS 手动配置 BOIL_SERVERS；不会自动使用旧凭据获取 token。"
}

/// The configuration that the variables describe, with these servers and this notice.
pub open spec fn config_with(
    vars: Seq<VarModel>,
    servers: Seq<ServerModel>,
    timer: Option<TimerModel>,
    notice: Option<Seq<char>>,
) -> Result<ConfigModel, ConfigFault> {
    match global_timer_of(vars, timer) {
        Err(f) => Err(f),
        Ok(global_timer) => match pairing_code_of(vars) {
            Err(f) => Err(f),
            Ok(code) => match pair_expiry_of(vars) {
                Err(f) => Err(f),
                Ok(expires) => Ok(
                    ConfigModel {
                        servers,
                        global_timer,
                        tg_token: var_value(vars, "TG_TOKEN"@),
                        tg_chat_id: var_value(vars, "TG_CHAT_ID"@),
                        tg_pair_code: code,
                        tg_pair_expires_at: expires,
                        change_ip_cooldown: None,
                        migration_notice: notice,
                    },
                ),
            },
        },
    }
}

fn owned(o: Option<&str>) -> (r: Option<String>)
    ensures
        match o {
            Some(s) => opt_text(r) == Some(s@),
            None => r is None,
        },
{
    match o {
        Some(s) => Some(s.to_owned()),
        None => None,
    }
}

fn build_config(
    vars: &[(String, String)],
    servers: Vec<ServerConfig>,
    timer: Option<ServerTimerConfig>,
    notice: Option<String>,
) -> (r: Result<AppConfig, ConfigError>)
    ensures
        match r {
            Ok(c) => config_with(
                var_models(vars@),
                server_models(servers@),
                opt_timer(timer),
                opt_text(notice),
            ) == Ok::<_, ConfigFault>(c@),
            Err(e) => config_with(
                var_models(vars@),
                server_models(servers@),
                opt_timer(timer),
                opt_text(notice),
            ) == Err::<ConfigModel, _>(e@),
        },
{
    let global_timer = match parse_global_timer(vars, timer) {
        Ok(t) => t,
        Err(e) => return Err(e),
    };
    let tg_token = owned(find_var(vars, "TG_TOKEN"));
    let tg_chat_id = owned(find_var(vars, "TG_CHAT_ID"));
    let tg_pair_code = match parse_pairing_code(vars) {
        Ok(c) => c,
        Err(e) => return Err(e),
    };
    let tg_pair_expires_at = match parse_pair_expires_at(vars) {
        Ok(t) => t,
        Err(e) => return Err(e),
    };
    Ok(
        AppConfig {
            servers,
            global_timer,
            tg_token,
            tg_chat_id,
            tg_pair_code,
            tg_pair_expires_at,
            change_ip_cooldown: None,
            migration_notice: notice,
        },
    )
}

pub open spec fn opt_servers(o: Option<Vec<ServerConfig>>) -> Option<Seq<ServerModel>> {
    match o {
        Some(v) => Some(server_models(v@)),
        None => None,
    }
}

pub open spec fn config_result(r: Result<AppConfig, ConfigError>) -> Result<
    ConfigModel,
    ConfigFault,
> {
    match r {
        Ok(c) => Ok(c@),
        Err(e) => Err(e@),
    }
}

/// What the variables describe is `r`, where `servers` and `timer` are what the JSON texts
/// of `BOIL_SERVERS` and `BOIL_GLOBAL_TIMER` decode to.
pub open spec fn is_described(
    vars: Seq<VarModel>,
    servers: Option<Seq<ServerModel>>,
    timer: Option<TimerModel>,
    r: Result<ConfigModel, ConfigFault>,
) -> bool {
    match var_value(vars, BOIL_SERVERS_ENV@) {
        None => if has_legacy(vars) {
            r == config_with(vars, Seq::empty(), timer, Some(legacy_notice()))
        } else {
            r == Err::<ConfigModel, _>(ConfigFault::MissingServers)
        },
        Some(_) => match servers {
            None => r == Err::<ConfigModel, _>(ConfigFault::ServersJson),
            Some(m) => if valid_servers(m) {
                r == config_with(vars, m, timer, None)
            } else {
                r matches Err(f) && is_servers_fault(m, f)
            },
        },
    }
}

impl AppConfig {
    /// The configuration that the variables describe. `servers` and `timer` are what
    /// the JSON texts of `BOIL_SERVERS` and `BOIL_GLOBAL_TIMER` decode to, or `None`
    /// for a text that does not decode.
    ///
    /// Without `BOIL_SERVERS`, the variables of the account-based API give a
    /// configuration without servers and with a notice; its values are not used.
    pub fn from_env_vars(
        vars: &[(String, String)],
        servers: Option<Vec<ServerConfig>>,
        timer: Option<ServerTimerConfig>,
    ) -> (r: Result<AppConfig, ConfigError>)
        ensures
            is_described(
                var_models(vars@),
                opt_servers(servers),
                opt_timer(timer),
                config_result(r),
            ),
    {
        match find_var(vars, BOIL_SERVERS_ENV) {
            None => {
                if has_legacy_boil_config(vars) {
                    let notice = Some(legacy_config_migration_notice().to_owned());
                    let none: Vec<ServerConfig> = Vec::new();
                    assert(server_models(none@) =~= Seq::empty());
                    build_config(vars, none, timer, notice)
                } else {
                    Err(ConfigError::MissingServers)
                }
            },
            Some(_) => match servers {
                None => Err(ConfigError::ServersJson),
                Some(v) => {
                    match validate_servers(v.as_slice()) {
                        Ok(_) => {},
                        Err(e) => return Err(e),
                    }
                    build_config(vars, v, timer, None)
                },
            },
        }
    }

    pub fn resolve_servers<'a>(&'a self, selection: ServerSelection<'_>) -> (r: Result<
        ResolvedSelection<'a>,
        ConfigError,
    >)
        ensures
            resolved_as(self.servers@, selection, r),
    {
        resolve_servers(self.servers.as_slice(), selection)
    }

    pub fn has_tg(&self) -> (r: bool)
        ensures
            r == self.tg_token is Some,
    {
        self.tg_token.is_some()
    }
}

} // verus!
