//! Daily timers: one for all servers, and one for each server.

use vstd::prelude::*;
use crate::config::{
    find_server, lemma_position_of, opt_timer, position_of, server_models, valid_cron, AppConfig,
    ConfigModel, ServerConfig, ServerModel, ServerTimerConfig, TimerModel,
};
use crate::number::{
    all_digits, decimal, decimal_text, digit_char, digits_value, lemma_decimal_digits,
    lemma_two_digits_len, parse_unsigned, parsed_unsigned, two_digit_text, two_digits,
};
use crate::server_manage::{
    address_edit_changes_the_address_only, after_address, after_rename, after_token,
    differ_at_most_in, rename_changes_the_name_only, token_edit_changes_the_token_only, AddressModel,
};
use crate::text::{
    after_first, before_first, chars_of, clone_opt, has_char, is_digit, is_space, lemma_first_index,
    lemma_first_index_is, lemma_trimmed_end_at, lemma_trimmed_start_at, opt_text, rest, same_text,
    split_once, trim, trimmed, trimmed_end, trimmed_start, word_len, words, words_of,
};

pub mod auto;
pub mod message;
pub mod retry;

verus! {

pub const DEFAULT_TIMEZONE: &'static str = "Asia/Shanghai";

// ---------------------------------------------------------------------------
// Times of day and cron expressions
// ---------------------------------------------------------------------------

#[derive(Clone, Debug, PartialEq, Eq)]
pub enum TimerError {
    BadTime,
    BadHour,
    BadMinute,
    UnknownServer(String),
    DisabledServer(String),
    NoTimer,
}

pub enum TimerFault {
    BadTime,
    BadHour,
    BadMinute,
    UnknownServer(Seq<char>),
    DisabledServer(Seq<char>),
    NoTimer,
}

impl View for TimerError {
    type V = TimerFault;

    open spec fn view(&self) -> TimerFault {
        match self {
            TimerError::BadTime => TimerFault::BadTime,
            TimerError::BadHour => TimerFault::BadHour,
            TimerError::BadMinute => TimerFault::BadMinute,
            TimerError::UnknownServer(id) => TimerFault::UnknownServer(id@),
            TimerError::DisabledServer(id) => TimerFault::DisabledServer(id@),
            TimerError::NoTimer => TimerFault::NoTimer,
        }
    }
}

pub open spec fn timer_fault_text(f: TimerFault) -> Seq<char> {
    match f {
        TimerFault::BadTime => "时间格式无效，请输入 HH:MM，例如 03:30"@,
        TimerFault::BadHour => "小时必须在 00-23 之间"@,
        TimerFault::BadMinute => "分钟必须在 00-59 之间"@,
        TimerFault::UnknownServer(id) => "未找到 server id: "@ + id,
        TimerFault::DisabledServer(id) => "server id '"@ + id + "' 已禁用"@,
        TimerFault::NoTimer => "未配置任何已启用 VPS 的 timer"@,
    }
}

impl TimerError {
    pub fn message(&self) -> (r: String)
        ensures
            r@ == timer_fault_text(self@),
    {
        match self {
            TimerError::BadTime => "时间格式无效，请输入 HH:MM，例如 03:30".to_owned(),
            TimerError::BadHour => "小时必须在 00-23 之间".to_owned(),
            TimerError::BadMinute => "分钟必须在 00-59 之间".to_owned(),
            TimerError::UnknownServer(id) => {
                let mut r = "未找到 server id: ".to_owned();
                r.append(id.as_str());
                r
            },
            TimerError::DisabledServer(id) => {
                let mut r = "server id '".to_owned();
                r.append(id.as_str());
                r.append("' 已禁用");
                r
            },
            TimerError::NoTimer => "未配置任何已启用 VPS 的 timer".to_owned(),
        }
    }
}

pub open spec fn is_two_digits(s: Seq<char>) -> bool {
    s.len() == 2 && all_digits(s)
}

/// The hour and the minute that a text of the form `HH:MM` names.
pub open spec fn parsed_hhmm(s: Seq<char>) -> Result<(int, int), TimerFault> {
    let t = trimmed(s);
    let h = before_first(t, ':');
    let m = after_first(t, ':');
    if !has_char(t, ':') || !is_two_digits(h) || !is_two_digits(m) {
        Err(TimerFault::BadTime)
    } else if digits_value(h) >= 24 {
        Err(TimerFault::BadHour)
    } else if digits_value(m) >= 60 {
        Err(TimerFault::BadMinute)
    } else {
        Ok((digits_value(h) as int, digits_value(m) as int))
    }
}

/// The number that two digits stand for.
fn two_digit_value(s: &str) -> (r: Option<u8>)
    ensures
        match r {
            Some(v) => is_two_digits(s@) && v == digits_value(s@) && v < 100,
            None => !is_two_digits(s@),
        },
{
    let cs = chars_of(s);
    if cs.len() != 2 {
        return None;
    }
    let a = cs[0];
    let b = cs[1];
    if !('0' <= a && a <= '9' && '0' <= b && b <= '9') {
        proof {
            assert(!is_digit(s@[0]) || !is_digit(s@[1]));
        }
        return None;
    }
    proof {
        assert forall|i: int| 0 <= i < s@.len() implies is_digit(#[trigger] s@[i]) by {}
        reveal_with_fuel(digits_value, 3);
        assert(s@.drop_last().drop_last() =~= Seq::empty());
        assert(s@.last() == b);
        assert(s@.drop_last().last() == a);
    }
    Some((a as u8 - 48) * 10 + (b as u8 - 48))
}

pub fn parse_hhmm(input: &str) -> (r: Result<(u8, u8), TimerError>)
    ensures
        match r {
            Ok((h, m)) => parsed_hhmm(input@) == Ok::<_, TimerFault>((h as int, m as int)) && h < 24
                && m < 60,
            Err(e) => parsed_hhmm(input@) == Err::<(int, int), _>(e@),
        },
{
    let t = trim(input);
    match split_once(t.as_str(), ':') {
        None => Err(TimerError::BadTime),
        Some((hour, minute)) => {
            let hour = match two_digit_value(hour.as_str()) {
                Some(v) => v,
                None => return Err(TimerError::BadTime),
            };
            let minute = match two_digit_value(minute.as_str()) {
                Some(v) => v,
                None => return Err(TimerError::BadTime),
            };
            if hour >= 24 {
                Err(TimerError::BadHour)
            } else if minute >= 60 {
                Err(TimerError::BadMinute)
            } else {
                Ok((hour, minute))
            }
        },
    }
}

/// The cron expression for a time of day.
pub open spec fn daily_cron(hour: nat, minute: nat) -> Seq<char> {
    decimal(minute) + " "@ + decimal(hour) + " * * *"@
}

pub open spec fn cron_of_hhmm(s: Seq<char>) -> Result<Seq<char>, TimerFault> {
    match parsed_hhmm(s) {
        Ok((h, m)) => Ok(daily_cron(h as nat, m as nat)),
        Err(f) => Err(f),
    }
}

pub fn daily_cron_from_hhmm(input: &str) -> (r: Result<String, TimerError>)
    ensures
        match r {
            Ok(c) => cron_of_hhmm(input@) == Ok::<_, TimerFault>(c@),
            Err(e) => cron_of_hhmm(input@) == Err::<Seq<char>, _>(e@),
        },
{
    match parse_hhmm(input) {
        Ok((hour, minute)) => {
            let mut c = decimal_text(minute as u64);
            c.append(" ");
            c.append(decimal_text(hour as u64).as_str());
            c.append(" * * *");
            Ok(c)
        },
        Err(e) => Err(e),
    }
}

/// A time of day as text.
pub open spec fn hhmm_text(hour: nat, minute: nat) -> Seq<char> {
    two_digits(hour) + ":"@ + two_digits(minute)
}

/// The time of day of a cron expression that names one for every day.
pub open spec fn hhmm_of_cron(cron: Seq<char>) -> Option<Seq<char>> {
    let w = words_of(cron);
    if w.len() == 5 && w[2] == "*"@ && w[3] == "*"@ && w[4] == "*"@ {
        match (parsed_unsigned(w[1], 255), parsed_unsigned(w[0], 255)) {
            (Some(h), Some(m)) => if h < 24 && m < 60 {
                Some(hhmm_text(h, m))
            } else {
                None
            },
            _ => None,
        }
    } else {
        None
    }
}

pub fn cron_to_hhmm(cron: &str) -> (r: Option<String>)
    ensures
        opt_text(r) == hhmm_of_cron(cron@),
{
    let parts = words(cron);
    let ghost w = words_of(cron@);
    assert(w.len() == parts@.len());
    if parts.len() != 5 {
        return None;
    }
    assert(w[0] == parts@[0]@ && w[1] == parts@[1]@ && w[2] == parts@[2]@ && w[3] == parts@[3]@
        && w[4] == parts@[4]@);
    if !(same_text(parts[2].as_str(), "*") && same_text(parts[3].as_str(), "*") && same_text(
        parts[4].as_str(),
        "*",
    )) {
        return None;
    }
    let hour = match parse_unsigned(parts[1].as_str(), 255) {
        Some(h) => h,
        None => return None,
    };
    let minute = match parse_unsigned(parts[0].as_str(), 255) {
        Some(m) => m,
        None => return None,
    };
    if hour < 24 && minute < 60 {
        let mut r = two_digit_text(hour);
        r.append(":");
        r.append(two_digit_text(minute).as_str());
        Some(r)
    } else {
        None
    }
}

// ---------------------------------------------------------------------------
// What is set is shown
// ---------------------------------------------------------------------------

/// A text without white space.
spec fn is_word(s: Seq<char>) -> bool {
    s.len() > 0 && forall|i: int| 0 <= i < s.len() ==> !is_space(#[trigger] s[i])
}

proof fn lemma_word_len(w: Seq<char>, s: Seq<char>)
    requires
        forall|i: int| 0 <= i < w.len() ==> !is_space(#[trigger] w[i]),
        s.len() == 0 || is_space(s[0]),
    ensures
        word_len(w + s) == w.len(),
    decreases w.len(),
{
    let t = w + s;
    if w.len() == 0 {
        assert(t =~= s);
    } else {
        assert(t[0] == w[0]);
        assert(rest(t, 1) =~= rest(w, 1) + s);
        assert forall|i: int| 0 <= i < rest(w, 1).len() implies !is_space(#[trigger] rest(w, 1)[i]) by {
            assert(rest(w, 1)[i] == w[i + 1]);
        }
        lemma_word_len(rest(w, 1), s);
    }
}

/// The words of a word, a space, and more.
proof fn lemma_words_cons(w: Seq<char>, s: Seq<char>)
    requires
        is_word(w),
    ensures
        words_of(w + seq![' '] + s) == seq![w] + words_of(s),
{
    let t = w + seq![' '] + s;
    let u = seq![' '] + s;
    assert(t =~= w + u);
    assert(is_space(u[0]));
    lemma_word_len(w, u);
    assert(t[0] == w[0]);
    assert(t.subrange(0, w.len() as int) =~= w);
    assert(rest(t, w.len() as int) =~= u);
    assert(rest(u, 1) =~= s);
    assert(words_of(u) == words_of(s));
    assert(!is_space(w[0]));
}

proof fn lemma_words_one(w: Seq<char>)
    requires
        is_word(w),
    ensures
        words_of(w) == seq![w],
{
    let e = Seq::<char>::empty();
    assert(w + e =~= w);
    lemma_word_len(w, e);
    assert(w.subrange(0, w.len() as int) =~= w);
    assert(rest(w, w.len() as int) =~= e);
    assert(words_of(e) =~= Seq::empty());
    assert(seq![w] + Seq::<Seq<char>>::empty() =~= seq![w]);
}

proof fn lemma_digits_word(s: Seq<char>)
    requires
        s.len() > 0,
        all_digits(s),
    ensures
        is_word(s),
{
    assert forall|i: int| 0 <= i < s.len() implies !is_space(#[trigger] s[i]) by {
        assert(is_digit(s[i]));
    }
}

proof fn lemma_daily_cron_words(hour: nat, minute: nat)
    ensures
        words_of(daily_cron(hour, minute)) == seq![
            decimal(minute),
            decimal(hour),
            "*"@,
            "*"@,
            "*"@,
        ],
{
    reveal_strlit(" ");
    reveal_strlit("*");
    reveal_strlit(" * * *");
    lemma_decimal_digits(hour);
    lemma_decimal_digits(minute);
    lemma_digits_word(decimal(hour));
    lemma_digits_word(decimal(minute));
    let star = seq!['*'];
    assert("*"@ =~= star);
    assert(is_word(star));
    let sp = seq![' '];
    let two = star + sp + star;
    let three = star + sp + two;
    let four = decimal(hour) + sp + three;
    assert(daily_cron(hour, minute) =~= decimal(minute) + sp + four);
    lemma_words_cons(decimal(minute), four);
    lemma_words_cons(decimal(hour), three);
    lemma_words_cons(star, two);
    lemma_words_cons(star, star);
    lemma_words_one(star);
    assert(words_of(daily_cron(hour, minute)) =~= seq![
        decimal(minute),
        decimal(hour),
        "*"@,
        "*"@,
        "*"@,
    ]);
}

/// The cron expression for a time of day is a valid one, and gives the time back.
pub proof fn cron_gives_time_back(hour: nat, minute: nat)
    requires
        hour < 24,
        minute < 60,
    ensures
        valid_cron(daily_cron(hour, minute)),
        hhmm_of_cron(daily_cron(hour, minute)) == Some(hhmm_text(hour, minute)),
{
    lemma_daily_cron_words(hour, minute);
    crate::number::decimal_reads_back(hour, 255);
    crate::number::decimal_reads_back(minute, 255);
}

/// A time of day that is written is read back.
pub proof fn time_text_reads_back(hour: nat, minute: nat)
    requires
        hour < 24,
        minute < 60,
    ensures
        parsed_hhmm(hhmm_text(hour, minute)) == Ok::<_, TimerFault>((hour as int, minute as int)),
{
    reveal_strlit(":");
    let s = hhmm_text(hour, minute);
    lemma_two_digits_len(hour);
    lemma_two_digits_len(minute);
    let h = two_digits(hour);
    let m = two_digits(minute);
    assert(s.len() == 5);
    assert(s[0] == h[0] && s[1] == h[1] && s[2] == ':' && s[3] == m[0] && s[4] == m[1]);
    assert(is_digit(h[0]) && is_digit(h[1]) && is_digit(m[0]) && is_digit(m[1]));
    lemma_trimmed_start_at(s, 0);
    assert(s.subrange(0, 5) =~= s);
    lemma_trimmed_end_at(s, 5);
    lemma_first_index_is(s, ':', 2);
    assert(before_first(s, ':') =~= h);
    assert(after_first(s, ':') =~= m);
    lemma_two_digits_value(hour);
    lemma_two_digits_value(minute);
}

proof fn lemma_two_digits_value(n: nat)
    requires
        n < 100,
    ensures
        digits_value(two_digits(n)) == n,
{
    lemma_two_digits_len(n);
    let s = two_digits(n);
    reveal_with_fuel(digits_value, 3);
    assert(s.drop_last().drop_last() =~= Seq::empty());
    assert(s.last() == digit_char(n % 10));
    assert(s.drop_last().last() == digit_char(n / 10));
}

proof fn lemma_two_digit_text(s: Seq<char>)
    requires
        is_two_digits(s),
    ensures
        two_digits(digits_value(s)) == s,
        digits_value(s) < 100,
{
    assert(is_digit(s[0]) && is_digit(s[1]));
    reveal_with_fuel(digits_value, 3);
    assert(s.drop_last().drop_last() =~= Seq::empty());
    assert(s.last() == s[1]);
    assert(s.drop_last().last() == s[0]);
    let n = digits_value(s);
    lemma_two_digits_len(n);
    assert(two_digits(n) =~= s);
}

/// A timer shows the time that it was set to: the text that was entered, without
/// white space around it.
pub proof fn entered_time_is_shown(input: Seq<char>)
    requires
        parsed_hhmm(input) is Ok,
    ensures
        cron_of_hhmm(input) matches Ok(cron) && valid_cron(cron) && hhmm_of_cron(cron) == Some(
            trimmed(input),
        ),
{
    reveal_strlit(":");
    let t = trimmed(input);
    let h = before_first(t, ':');
    let m = after_first(t, ':');
    lemma_first_index(t, ':');
    lemma_two_digit_text(h);
    lemma_two_digit_text(m);
    cron_gives_time_back(digits_value(h), digits_value(m));
    assert(hhmm_text(digits_value(h), digits_value(m)) =~= t);
}

// ---------------------------------------------------------------------------
// Setting timers
// ---------------------------------------------------------------------------

#[derive(Debug, PartialEq, Eq)]
pub enum TimerTarget {
    AllEnabled,
    Server(String),
}

pub enum TargetModel {
    AllEnabled,
    Server(Seq<char>),
}

impl View for TimerTarget {
    type V = TargetModel;

    open spec fn view(&self) -> TargetModel {
        match self {
            TimerTarget::AllEnabled => TargetModel::AllEnabled,
            TimerTarget::Server(id) => TargetModel::Server(id@),
        }
    }
}

impl Clone for TimerTarget {
    fn clone(&self) -> (r: Self)
        ensures
            r == *self,
    {
        match self {
            TimerTarget::AllEnabled => TimerTarget::AllEnabled,
            TimerTarget::Server(id) => TimerTarget::Server(id.clone()),
        }
    }
}

#[derive(Clone, Debug, PartialEq, Eq)]
pub enum TimerUpdate {
    Enable { target: TimerTarget, hhmm: String },
    Disable { target: TimerTarget },
}

pub enum UpdateModel {
    Enable { target: TargetModel, hhmm: Seq<char> },
    Disable { target: TargetModel },
}

impl View for TimerUpdate {
    type V = UpdateModel;

    open spec fn view(&self) -> UpdateModel {
        match self {
            TimerUpdate::Enable { target, hhmm } => UpdateModel::Enable {
                target: target@,
                hhmm: hhmm@,
            },
            TimerUpdate::Disable { target } => UpdateModel::Disable { target: target@ },
        }
    }
}

/// The position of an enabled server.
pub open spec fn enabled_position(config: ConfigModel, id: Seq<char>) -> Result<int, TimerFault> {
    let i = position_of(config.servers, id);
    if i >= config.servers.len() {
        Err(TimerFault::UnknownServer(id))
    } else if !config.servers[i].enabled {
        Err(TimerFault::DisabledServer(id))
    } else {
        Ok(i)
    }
}

fn server_index(config: &AppConfig, server_id: &str) -> (r: Result<usize, TimerError>)
    ensures
        match r {
            Ok(i) => enabled_position(config@, server_id@) == Ok::<_, TimerFault>(i as int) && i
                < config.servers@.len(),
            Err(e) => enabled_position(config@, server_id@) == Err::<int, _>(e@),
        },
{
    let i = find_server(config.servers.as_slice(), server_id);
    proof {
        lemma_position_of(config@.servers, server_id@);
    }
    if i == config.servers.len() {
        return Err(TimerError::UnknownServer(server_id.to_owned()));
    }
    assert(config@.servers[i as int] == config.servers@[i as int]@);
    if !config.servers[i].enabled {
        return Err(TimerError::DisabledServer(server_id.to_owned()));
    }
    Ok(i)
}

pub open spec fn with_server(config: ConfigModel, i: int, s: ServerModel) -> ConfigModel {
    ConfigModel { servers: config.servers.update(i, s), ..config }
}

pub open spec fn with_timer(s: ServerModel, t: TimerModel) -> ServerModel {
    ServerModel { timer: Some(t), ..s }
}

/// A timer that runs at a time of day.
pub open spec fn running(cron: Seq<char>) -> TimerModel {
    TimerModel { enabled: true, cron: Some(cron) }
}

/// A timer that does not run; it keeps its time.
pub open spec fn stopped(t: Option<TimerModel>) -> TimerModel {
    match t {
        Some(m) => TimerModel { enabled: false, ..m },
        None => TimerModel { enabled: false, cron: None },
    }
}

/// The configuration after a timer has been set, or why it cannot be.
pub open spec fn updated(config: ConfigModel, update: UpdateModel) -> Result<
    ConfigModel,
    TimerFault,
> {
    match update {
        UpdateModel::Enable { target, hhmm } => match cron_of_hhmm(hhmm) {
            Err(f) => Err(f),
            Ok(cron) => match target {
                TargetModel::AllEnabled => Ok(
                    ConfigModel { global_timer: Some(running(cron)), ..config },
                ),
                TargetModel::Server(id) => match enabled_position(config, id) {
                    Err(f) => Err(f),
                    Ok(i) => Ok(
                        with_server(config, i, with_timer(config.servers[i], running(cron))),
                    ),
                },
            },
        },
        UpdateModel::Disable { target } => match target {
            TargetModel::AllEnabled => Ok(
                ConfigModel { global_timer: Some(stopped(config.global_timer)), ..config },
            ),
            TargetModel::Server(id) => match enabled_position(config, id) {
                Err(f) => Err(f),
                Ok(i) => Ok(
                    with_server(
                        config,
                        i,
                        with_timer(config.servers[i], stopped(config.servers[i].timer)),
                    ),
                ),
            },
        },
    }
}

fn stop(timer: &Option<ServerTimerConfig>) -> (r: ServerTimerConfig)
    ensures
        r@ == stopped(opt_timer(*timer)),
{
    match timer {
        Some(t) => ServerTimerConfig { enabled: false, cron: clone_opt(&t.cron) },
        None => ServerTimerConfig { enabled: false, cron: None },
    }
}

/// Gives the server at `i` a timer.
fn set_server_timer(config: &mut AppConfig, i: usize, timer: ServerTimerConfig)
    requires
        i < old(config).servers@.len(),
    ensures
        final(config)@ == with_server(
            old(config)@,
            i as int,
            with_timer(old(config)@.servers[i as int], timer@),
        ),
{
    let mut server = config.servers[i].clone();
    server.timer = Some(timer);
    config.servers.set(i, server);
    assert(server_models(config.servers@) =~= server_models(old(config).servers@).update(
        i as int,
        server@,
    ));
}

/// Sets a timer. A configuration for which that is not possible stays as it is.
pub fn apply_timer_update(config: &mut AppConfig, update: TimerUpdate) -> (r: Result<
    (),
    TimerError,
>)
    ensures
        match r {
            Ok(_) => updated(old(config)@, update@) == Ok::<_, TimerFault>(final(config)@),
            Err(e) => updated(old(config)@, update@) == Err::<ConfigModel, _>(e@) && final(config)@
                == old(config)@,
        },
{
    match update {
        TimerUpdate::Enable { target, hhmm } => {
            let cron = match daily_cron_from_hhmm(hhmm.as_str()) {
                Ok(c) => c,
                Err(e) => return Err(e),
            };
            match target {
                TimerTarget::AllEnabled => {
                    config.global_timer = Some(
                        ServerTimerConfig { enabled: true, cron: Some(cron) },
                    );
                },
                TimerTarget::Server(server_id) => {
                    let index = match server_index(config, server_id.as_str()) {
                        Ok(i) => i,
                        Err(e) => return Err(e),
                    };
                    set_server_timer(
                        config,
                        index,
                        ServerTimerConfig { enabled: true, cron: Some(cron) },
                    );
                },
            }
        },
        TimerUpdate::Disable { target } => match target {
            TimerTarget::AllEnabled => {
                config.global_timer = Some(stop(&config.global_timer));
            },
            TimerTarget::Server(server_id) => {
                let index = match server_index(config, server_id.as_str()) {
                    Ok(i) => i,
                    Err(e) => return Err(e),
                };
                let timer = stop(&config.servers[index].timer);
                set_server_timer(config, index, timer);
            },
        },
    }
    Ok(())
}

/// Setting the timer of one server changes nothing but that timer.
pub proof fn server_timer_update_is_local(config: ConfigModel, update: UpdateModel, id: Seq<char>)
    requires
        update matches UpdateModel::Enable { target, .. } ==> target == TargetModel::Server(id),
        update matches UpdateModel::Disable { target } ==> target == TargetModel::Server(id),
        updated(config, update) is Ok,
    ensures
        updated(config, update) matches Ok(c) && c.global_timer == config.global_timer
            && c.servers.len() == config.servers.len() && c == (ConfigModel {
            servers: c.servers,
            ..config
        }),
        forall|j: int|
            0 <= j < config.servers.len() && j != position_of(config.servers, id)
                ==> #[trigger] updated(config, update)->Ok_0.servers[j] == config.servers[j],
        0 <= position_of(config.servers, id) < config.servers.len(),
        ({
            let i = position_of(config.servers, id);
            let s = updated(config, update)->Ok_0.servers[i];
            s == (ServerModel { timer: s.timer, ..config.servers[i] })
        }),
{
    lemma_position_of(config.servers, id);
}

/// Setting the global timer changes nothing but that timer.
pub proof fn global_timer_update_is_local(config: ConfigModel, update: UpdateModel)
    requires
        update matches UpdateModel::Enable { target, .. } ==> target == TargetModel::AllEnabled,
        update matches UpdateModel::Disable { target } ==> target == TargetModel::AllEnabled,
        updated(config, update) is Ok,
    ensures
        updated(config, update) matches Ok(c) && c == (ConfigModel {
            global_timer: c.global_timer,
            ..config
        }),
{
}

/// A timer that is switched off keeps its time.
pub proof fn disabling_keeps_the_time(config: ConfigModel, target: TargetModel)
    requires
        updated(config, UpdateModel::Disable { target }) is Ok,
    ensures
        match target {
            TargetModel::AllEnabled => config.global_timer matches Some(t) ==> updated(
                config,
                UpdateModel::Disable { target },
            )->Ok_0.global_timer == Some(TimerModel { enabled: false, cron: t.cron }),
            TargetModel::Server(id) => {
                let i = position_of(config.servers, id);
                config.servers[i].timer matches Some(t) ==> updated(
                    config,
                    UpdateModel::Disable { target },
                )->Ok_0.servers[i].timer == Some(TimerModel { enabled: false, cron: t.cron })
            },
        },
{
    if let TargetModel::Server(id) = target {
        lemma_position_of(config.servers, id);
    }
}

// ---------------------------------------------------------------------------
// What is set
// ---------------------------------------------------------------------------

#[derive(Debug, PartialEq, Eq)]
pub struct TimerServerStatus {
    pub server_id: String,
    pub server_name: String,
    pub address: Option<String>,
    pub resolved_ip: Option<String>,
    pub country: Option<String>,
    pub flag: Option<String>,
    pub server_enabled: bool,
    pub timer_enabled: bool,
    pub time: Option<String>,
}

#[verifier::ext_equal]
pub struct ServerStatusModel {
    pub server_id: Seq<char>,
    pub server_name: Seq<char>,
    pub address: Option<Seq<char>>,
    pub resolved_ip: Option<Seq<char>>,
    pub country: Option<Seq<char>>,
    pub flag: Option<Seq<char>>,
    pub server_enabled: bool,
    pub timer_enabled: bool,
    pub time: Option<Seq<char>>,
}

impl View for TimerServerStatus {
    type V = ServerStatusModel;

    open spec fn view(&self) -> ServerStatusModel {
        ServerStatusModel {
            server_id: self.server_id@,
            server_name: self.server_name@,
            address: opt_text(self.address),
            resolved_ip: opt_text(self.resolved_ip),
            country: opt_text(self.country),
            flag: opt_text(self.flag),
            server_enabled: self.server_enabled,
            timer_enabled: self.timer_enabled,
            time: opt_text(self.time),
        }
    }
}

#[derive(Debug, PartialEq, Eq)]
pub struct TimerStatus {
    pub timezone: &'static str,
    pub global_timer_enabled: bool,
    pub global_time: Option<String>,
    pub servers: Vec<TimerServerStatus>,
}

#[verifier::ext_equal]
pub struct StatusModel {
    pub timezone: Seq<char>,
    pub global_timer_enabled: bool,
    pub global_time: Option<Seq<char>>,
    pub servers: Seq<ServerStatusModel>,
}

pub open spec fn status_models(v: Seq<TimerServerStatus>) -> Seq<ServerStatusModel> {
    Seq::new(v.len(), |i: int| v[i]@)
}

impl View for TimerStatus {
    type V = StatusModel;

    open spec fn view(&self) -> StatusModel {
        StatusModel {
            timezone: self.timezone@,
            global_timer_enabled: self.global_timer_enabled,
            global_time: opt_text(self.global_time),
            servers: status_models(self.servers@),
        }
    }
}

/// The time of a timer, where it has one for every day.
pub open spec fn time_of(t: Option<TimerModel>) -> Option<Seq<char>> {
    match t {
        Some(m) => match m.cron {
            Some(c) => hhmm_of_cron(c),
            None => None,
        },
        None => None,
    }
}

pub open spec fn is_enabled(t: Option<TimerModel>) -> bool {
    t matches Some(m) && m.enabled
}

pub open spec fn status_of_server(s: ServerModel) -> ServerStatusModel {
    ServerStatusModel {
        server_id: s.id,
        server_name: s.name,
        address: s.address,
        resolved_ip: s.resolved_ip,
        country: s.country,
        flag: s.flag,
        server_enabled: s.enabled,
        timer_enabled: is_enabled(s.timer),
        time: time_of(s.timer),
    }
}

/// What the timers of a configuration are set to.
pub open spec fn status_of(config: ConfigModel) -> StatusModel {
    StatusModel {
        timezone: DEFAULT_TIMEZONE@,
        global_timer_enabled: is_enabled(config.global_timer),
        global_time: time_of(config.global_timer),
        servers: Seq::new(config.servers.len(), |i: int| status_of_server(config.servers[i])),
    }
}

fn timer_time(timer: &Option<ServerTimerConfig>) -> (r: Option<String>)
    ensures
        opt_text(r) == time_of(opt_timer(*timer)),
{
    match timer {
        Some(t) => match &t.cron {
            Some(c) => cron_to_hhmm(c.as_str()),
            None => None,
        },
        None => None,
    }
}

fn timer_is_enabled(timer: &Option<ServerTimerConfig>) -> (r: bool)
    ensures
        r == is_enabled(opt_timer(*timer)),
{
    match timer {
        Some(t) => t.enabled,
        None => false,
    }
}

fn server_timer_status(server: &ServerConfig) -> (r: TimerServerStatus)
    ensures
        r@ == status_of_server(server@),
{
    TimerServerStatus {
        server_id: server.id.clone(),
        server_name: server.name.clone(),
        address: clone_opt(&server.address),
        resolved_ip: clone_opt(&server.resolved_ip),
        country: clone_opt(&server.country),
        flag: clone_opt(&server.flag),
        server_enabled: server.enabled,
        timer_enabled: timer_is_enabled(&server.timer),
        time: timer_time(&server.timer),
    }
}

pub fn timer_status(config: &AppConfig) -> (r: TimerStatus)
    ensures
        r@ == status_of(config@),
{
    let mut servers: Vec<TimerServerStatus> = Vec::new();
    let mut i: usize = 0;
    while i < config.servers.len()
        invariant
            i <= config.servers@.len(),
            servers@.len() == i,
            forall|k: int|
                0 <= k < i ==> (#[trigger] servers@[k])@ == status_of_server(config.servers@[k]@),
        decreases config.servers@.len() - i,
    {
        servers.push(server_timer_status(&config.servers[i]));
        i += 1;
    }
    assert(status_models(servers@) =~= status_of(config@).servers);
    TimerStatus {
        timezone: DEFAULT_TIMEZONE,
        global_timer_enabled: timer_is_enabled(&config.global_timer),
        global_time: timer_time(&config.global_timer),
        servers,
    }
}

/// After a timer has been switched on, the status shows it with its time.
pub proof fn enabled_timer_is_shown(config: ConfigModel, target: TargetModel, hhmm: Seq<char>)
    requires
        updated(config, UpdateModel::Enable { target, hhmm }) is Ok,
    ensures
        ({
            let status = status_of(updated(config, UpdateModel::Enable { target, hhmm })->Ok_0);
            match target {
                TargetModel::AllEnabled => status.global_timer_enabled && status.global_time
                    == Some(trimmed(hhmm)),
                TargetModel::Server(id) => {
                    let s = status.servers[position_of(config.servers, id)];
                    s.timer_enabled && s.time == Some(trimmed(hhmm)) && s.server_id == id
                },
            }
        }),
{
    entered_time_is_shown(hhmm);
    if let TargetModel::Server(id) = target {
        lemma_position_of(config.servers, id);
    }
}

// ---------------------------------------------------------------------------
// What is scheduled
// ---------------------------------------------------------------------------

/// A change that is made every day: of what, and when.
#[derive(Debug, PartialEq, Eq)]
pub struct TimerJob {
    pub target: TimerTarget,
    pub expression: String,
}

#[verifier::ext_equal]
pub struct JobModel {
    pub target: TargetModel,
    pub expression: Seq<char>,
}

impl View for TimerJob {
    type V = JobModel;

    open spec fn view(&self) -> JobModel {
        JobModel { target: self.target@, expression: self.expression@ }
    }
}

pub open spec fn job_models(v: Seq<TimerJob>) -> Seq<JobModel> {
    Seq::new(v.len(), |i: int| v[i]@)
}

/// A timer that is switched on and has a time.
pub open spec fn is_active(t: Option<TimerModel>) -> bool {
    t matches Some(m) && m.enabled && m.cron is Some
}

/// The expression for the scheduler: at second zero of the time.
pub open spec fn job_expression(t: Option<TimerModel>) -> Seq<char> {
    "0 "@ + trimmed(t.unwrap().cron.unwrap())
}

/// The jobs of the first `n` servers, in order.
pub open spec fn server_jobs(servers: Seq<ServerModel>, n: int) -> Seq<JobModel>
    decreases n,
{
    if n <= 0 {
        Seq::empty()
    } else {
        let s = servers[n - 1];
        if s.enabled && is_active(s.timer) {
            server_jobs(servers, n - 1).push(
                JobModel {
                    target: TargetModel::Server(s.id),
                    expression: job_expression(s.timer),
                },
            )
        } else {
            server_jobs(servers, n - 1)
        }
    }
}

/// The jobs of a configuration: the global timer, and then the servers with a timer.
pub open spec fn jobs_of(config: ConfigModel) -> Seq<JobModel> {
    (if is_active(config.global_timer) {
        seq![
            JobModel {
                target: TargetModel::AllEnabled,
                expression: job_expression(config.global_timer),
            },
        ]
    } else {
        Seq::empty()
    }) + server_jobs(config.servers, config.servers.len() as int)
}

/// The expression of a timer that is active.
fn active_expression(timer: &Option<ServerTimerConfig>) -> (r: Option<String>)
    ensures
        match r {
            Some(e) => is_active(opt_timer(*timer)) && e@ == job_expression(opt_timer(*timer)),
            None => !is_active(opt_timer(*timer)),
        },
{
    match timer {
        Some(t) => {
            if !t.enabled {
                return None;
            }
            match &t.cron {
                Some(c) => {
                    let mut e = "0 ".to_owned();
                    let c = trim(c.as_str());
                    e.append(c.as_str());
                    Some(e)
                },
                None => None,
            }
        },
        None => None,
    }
}

pub fn timer_jobs(config: &AppConfig) -> (r: Vec<TimerJob>)
    ensures
        job_models(r@) == jobs_of(config@),
{
    let mut jobs: Vec<TimerJob> = Vec::new();
    match active_expression(&config.global_timer) {
        Some(expression) => {
            jobs.push(TimerJob { target: TimerTarget::AllEnabled, expression });
        },
        None => {},
    }
    let ghost first = job_models(jobs@);
    let mut i: usize = 0;
    assert(first + server_jobs(config@.servers, 0) =~= first);
    while i < config.servers.len()
        invariant
            i <= config.servers@.len(),
            job_models(jobs@) == first + server_jobs(config@.servers, i as int),
        decreases config.servers@.len() - i,
    {
        let server = &config.servers[i];
        let ghost before = jobs@;
        assert(config@.servers[i as int] == config.servers@[i as int]@);
        if server.enabled {
            match active_expression(&server.timer) {
                Some(expression) => {
                    let job = TimerJob { target: TimerTarget::Server(server.id.clone()), expression };
                    jobs.push(job);
                    proof {
                        assert(job_models(jobs@) =~= job_models(before).push(job@));
                        assert(first + server_jobs(config@.servers, i as int).push(job@) =~= (first
                            + server_jobs(config@.servers, i as int)).push(job@));
                    }
                },
                None => {},
            }
        }
        i += 1;
    }
    assert(job_models(jobs@) =~= jobs_of(config@));
    jobs
}

/// Each job belongs to a server with an active timer.
proof fn lemma_server_jobs(servers: Seq<ServerModel>, n: int)
    requires
        0 <= n <= servers.len(),
    ensures
        forall|j: int|
            0 <= j < server_jobs(servers, n).len() ==> exists|i: int|
                0 <= i < n && (#[trigger] servers[i]).enabled && is_active(servers[i].timer)
                    && (#[trigger] server_jobs(servers, n)[j]).target == TargetModel::Server(
                    servers[i].id,
                ),
    decreases n,
{
    if n > 0 {
        lemma_server_jobs(servers, n - 1);
        let before = server_jobs(servers, n - 1);
        let now = server_jobs(servers, n);
        assert forall|j: int| 0 <= j < now.len() implies exists|i: int|
            0 <= i < n && (#[trigger] servers[i]).enabled && is_active(servers[i].timer) && (
            #[trigger] now[j]).target == TargetModel::Server(servers[i].id) by {
            if j < before.len() {
                assert(now[j] == before[j]);
                let i = choose|i: int|
                    0 <= i < n - 1 && (#[trigger] servers[i]).enabled && is_active(
                        servers[i].timer,
                    ) && before[j].target == TargetModel::Server(servers[i].id);
                assert(servers[i].enabled);
            } else {
                assert(servers[n - 1].enabled);
            }
        }
    }
}

/// No target is scheduled twice.
pub proof fn jobs_are_distinct(config: ConfigModel)
    requires
        crate::config::distinct_ids(config.servers),
    ensures
        forall|i: int, j: int|
            0 <= i < j < jobs_of(config).len() ==> (#[trigger] jobs_of(config)[i]).target != (
            #[trigger] jobs_of(config)[j]).target,
{
    let n = config.servers.len() as int;
    lemma_server_jobs(config.servers, n);
    lemma_server_jobs_distinct(config.servers, n);
    let sj = server_jobs(config.servers, n);
    let all = jobs_of(config);
    assert forall|i: int, j: int| 0 <= i < j < all.len() implies (#[trigger] all[i]).target != (
    #[trigger] all[j]).target by {
        if is_active(config.global_timer) {
            assert(all[j] == sj[j - 1]);
            if i > 0 {
                assert(all[i] == sj[i - 1]);
            }
        } else {
            assert(all[i] == sj[i] && all[j] == sj[j]);
        }
    }
}

proof fn lemma_server_jobs_distinct(servers: Seq<ServerModel>, n: int)
    requires
        0 <= n <= servers.len(),
        crate::config::distinct_ids(servers),
    ensures
        forall|i: int, j: int|
            0 <= i < j < server_jobs(servers, n).len() ==> (#[trigger] server_jobs(
                servers,
                n,
            )[i]).target != (#[trigger] server_jobs(servers, n)[j]).target,
    decreases n,
{
    if n > 0 {
        lemma_server_jobs_distinct(servers, n - 1);
        lemma_server_jobs(servers, n - 1);
        let before = server_jobs(servers, n - 1);
        let now = server_jobs(servers, n);
        assert forall|i: int, j: int| 0 <= i < j < now.len() implies (#[trigger] now[i]).target != (
        #[trigger] now[j]).target by {
            assert(now[i] == before[i]);
            if j < before.len() {
                assert(now[j] == before[j]);
            } else {
                let k = choose|k: int|
                    0 <= k < n - 1 && (#[trigger] servers[k]).enabled && is_active(
                        servers[k].timer,
                    ) && before[i].target == TargetModel::Server(servers[k].id);
                assert(servers[k].id != servers[n - 1].id);
            }
        }
    }
}

// ---------------------------------------------------------------------------
// Every job runs at the time of its timer
// ---------------------------------------------------------------------------

proof fn lemma_word_len_space(s: Seq<char>, c: char)
    requires
        is_space(c),
    ensures
        word_len(s.push(c)) == word_len(s),
        word_len(s) <= s.len(),
    decreases s.len(),
{
    if s.len() > 0 {
        assert(s.push(c)[0] == s[0]);
        if !is_space(s[0]) {
            assert(rest(s.push(c), 1) =~= rest(s, 1).push(c));
            lemma_word_len_space(rest(s, 1), c);
        }
    }
}

/// White space at the end is no part of a word.
proof fn lemma_words_push_space(s: Seq<char>, c: char)
    requires
        is_space(c),
    ensures
        words_of(s.push(c)) == words_of(s),
    decreases s.len(),
{
    let t = s.push(c);
    if s.len() == 0 {
        assert(rest(t, 1) =~= Seq::empty());
        assert(words_of(Seq::<char>::empty()) =~= Seq::empty());
    } else {
        assert(t[0] == s[0]);
        if is_space(s[0]) {
            assert(rest(t, 1) =~= rest(s, 1).push(c));
            lemma_words_push_space(rest(s, 1), c);
        } else {
            let n = word_len(s) as int;
            lemma_word_len_space(s, c);
            assert(n >= 1);
            assert(t.subrange(0, n) =~= s.subrange(0, n));
            assert(rest(t, n) =~= rest(s, n).push(c));
            lemma_words_push_space(rest(s, n), c);
        }
    }
}

proof fn lemma_words_trimmed_end(s: Seq<char>)
    ensures
        words_of(trimmed_end(s)) == words_of(s),
    decreases s.len(),
{
    if s.len() > 0 && is_space(s.last()) {
        lemma_words_trimmed_end(s.drop_last());
        assert(s.drop_last().push(s.last()) =~= s);
        lemma_words_push_space(s.drop_last(), s.last());
    }
}

proof fn lemma_words_trimmed_start(s: Seq<char>)
    ensures
        words_of(trimmed_start(s)) == words_of(s),
    decreases s.len(),
{
    if s.len() > 0 && is_space(s[0]) {
        lemma_words_trimmed_start(s.subrange(1, s.len() as int));
        assert(rest(s, 1) == s.subrange(1, s.len() as int));
    }
}

/// The words of an expression for the scheduler: a zero for the seconds, and the words of the
/// cron expression.
proof fn lemma_expression_words(t: TimerModel, cron: Seq<char>)
    requires
        t.cron == Some(cron),
    ensures
        words_of(job_expression(Some(t))) == seq!["0"@] + words_of(cron),
{
    reveal_strlit("0 ");
    reveal_strlit("0");
    let zero = "0"@;
    assert(is_word(zero));
    assert("0 "@ =~= zero + seq![' ']);
    lemma_words_cons(zero, trimmed(cron));
    lemma_words_trimmed_end(trimmed_start(cron));
    lemma_words_trimmed_start(cron);
}

/// What a timer is set to: switched on, with this cron expression.
pub open spec fn runs_by(t: Option<TimerModel>, cron: Seq<char>) -> bool {
    t == Some(TimerModel { enabled: true, cron: Some(cron) })
}

/// The job runs by this cron expression, at second zero.
pub open spec fn job_runs_by(job: JobModel, cron: Seq<char>) -> bool {
    words_of(job.expression) == seq!["0"@] + words_of(cron)
}

/// A job of the first servers is that of an enabled one whose timer runs, by its cron
/// expression.
proof fn lemma_server_job_timer(servers: Seq<ServerModel>, n: int, k: int) -> (r: (int, Seq<char>))
    requires
        0 <= n <= servers.len(),
        0 <= k < server_jobs(servers, n).len(),
    ensures
        0 <= r.0 < n,
        servers[r.0].enabled,
        runs_by(servers[r.0].timer, r.1),
        job_runs_by(server_jobs(servers, n)[k], r.1),
        server_jobs(servers, n)[k].target == TargetModel::Server(servers[r.0].id),
    decreases n,
{
    let before = server_jobs(servers, n - 1);
    if k < before.len() {
        let r = lemma_server_job_timer(servers, n - 1, k);
        assert(server_jobs(servers, n)[k] == before[k]);
        r
    } else {
        let t = servers[n - 1].timer.unwrap();
        lemma_expression_words(t, t.cron.unwrap());
        (n - 1, t.cron.unwrap())
    }
}

/// An enabled one of the first servers whose timer runs has a job, by its cron expression.
proof fn lemma_timer_server_job(
    servers: Seq<ServerModel>,
    n: int,
    i: int,
    cron: Seq<char>,
) -> (k: int)
    requires
        0 <= i < n <= servers.len(),
        servers[i].enabled,
        runs_by(servers[i].timer, cron),
    ensures
        0 <= k < server_jobs(servers, n).len(),
        job_runs_by(server_jobs(servers, n)[k], cron),
        server_jobs(servers, n)[k].target == TargetModel::Server(servers[i].id),
    decreases n,
{
    let before = server_jobs(servers, n - 1);
    if i < n - 1 {
        let k = lemma_timer_server_job(servers, n - 1, i, cron);
        assert(server_jobs(servers, n)[k] == before[k]);
        k
    } else {
        lemma_expression_words(servers[i].timer.unwrap(), cron);
        before.len() as int
    }
}

/// The first job is that of the global timer, where it runs; the others are those of servers.
proof fn lemma_first_job(config: ConfigModel)
    ensures
        forall|k: int|
            0 <= k < jobs_of(config).len() ==> ((#[trigger] jobs_of(config)[k]).target
                == TargetModel::AllEnabled <==> k == 0 && is_active(config.global_timer)),
        is_active(config.global_timer) ==> jobs_of(config).len() > 0 && jobs_of(config)[0].target
            == TargetModel::AllEnabled && jobs_of(config)[0].expression == job_expression(
            config.global_timer,
        ),
{
    let n = config.servers.len() as int;
    let sj = server_jobs(config.servers, n);
    let all = jobs_of(config);
    lemma_server_jobs(config.servers, n);
    assert forall|k: int| 0 <= k < all.len() implies ((#[trigger] all[k]).target
        == TargetModel::AllEnabled <==> k == 0 && is_active(config.global_timer)) by {
        if is_active(config.global_timer) {
            if k > 0 {
                assert(all[k] == sj[k - 1]);
            }
        } else {
            assert(all[k] == sj[k]);
        }
    }
}

/// Every job belongs to a timer that runs, and runs by its cron expression at second zero: the
/// job for all servers by that of the global timer, the job for a server by that of an enabled
/// server with this id.
pub proof fn jobs_belong_to_timers(config: ConfigModel, k: int)
    requires
        0 <= k < jobs_of(config).len(),
    ensures
        match jobs_of(config)[k].target {
            TargetModel::AllEnabled => k == 0 && exists|cron: Seq<char>| #[trigger]
                runs_by(config.global_timer, cron) && job_runs_by(jobs_of(config)[k], cron),
            TargetModel::Server(id) => exists|i: int, cron: Seq<char>|
                0 <= i < config.servers.len() && config.servers[i].id == id
                    && config.servers[i].enabled && #[trigger] runs_by(
                    config.servers[i].timer,
                    cron,
                ) && job_runs_by(jobs_of(config)[k], cron),
        },
{
    let n = config.servers.len() as int;
    let sj = server_jobs(config.servers, n);
    lemma_first_job(config);
    let job = jobs_of(config)[k];
    if job.target == TargetModel::AllEnabled {
        let cron = config.global_timer.unwrap().cron.unwrap();
        lemma_expression_words(config.global_timer.unwrap(), cron);
        assert(runs_by(config.global_timer, cron));
    } else {
        let k0 = if is_active(config.global_timer) {
            k - 1
        } else {
            k
        };
        assert(job == sj[k0]);
        let (i, cron) = lemma_server_job_timer(config.servers, n, k0);
        assert(runs_by(config.servers[i].timer, cron));
    }
}

/// Every timer that runs has its job: the global one, and that of each enabled server. The job
/// has six words where the cron expression has five: a zero, and those five.
pub proof fn timers_have_their_jobs(config: ConfigModel, cron: Seq<char>, i: int)
    ensures
        runs_by(config.global_timer, cron) ==> {
            &&& jobs_of(config).len() > 0
            &&& jobs_of(config)[0].target == TargetModel::AllEnabled
            &&& words_of(jobs_of(config)[0].expression) == seq!["0"@] + words_of(cron)
        },
        0 <= i < config.servers.len() && config.servers[i].enabled && runs_by(
            config.servers[i].timer,
            cron,
        ) ==> exists|k: int|
            0 <= k < jobs_of(config).len() && (#[trigger] jobs_of(config)[k]).target
                == TargetModel::Server(config.servers[i].id) && words_of(
                jobs_of(config)[k].expression,
            ) == seq!["0"@] + words_of(cron),
        valid_cron(cron) ==> (seq!["0"@] + words_of(cron)).len() == 6,
{
    let n = config.servers.len() as int;
    let sj = server_jobs(config.servers, n);
    lemma_first_job(config);
    if runs_by(config.global_timer, cron) {
        lemma_expression_words(config.global_timer.unwrap(), cron);
    }
    if 0 <= i < n && config.servers[i].enabled && runs_by(config.servers[i].timer, cron) {
        let k0 = lemma_timer_server_job(config.servers, n, i, cron);
        let k = if is_active(config.global_timer) {
            k0 + 1
        } else {
            k0
        };
        assert(jobs_of(config)[k] == sj[k0]);
    }
}

/// The servers that two jobs belong to stand in the order of the jobs.
proof fn lemma_job_places(servers: Seq<ServerModel>, n: int, a: int, b: int) -> (r: (int, int))
    requires
        0 <= n <= servers.len(),
        0 <= a < b < server_jobs(servers, n).len(),
    ensures
        0 <= r.0 < r.1 < n,
        server_jobs(servers, n)[a].target == TargetModel::Server(servers[r.0].id),
        server_jobs(servers, n)[b].target == TargetModel::Server(servers[r.1].id),
    decreases n,
{
    let before = server_jobs(servers, n - 1);
    let all = server_jobs(servers, n);
    assert(all[a] == before[a]);
    if b < before.len() {
        assert(all[b] == before[b]);
        lemma_job_places(servers, n - 1, a, b)
    } else {
        (lemma_server_job_timer(servers, n - 1, a).0, n - 1)
    }
}

/// The jobs come in the order of the configuration: that for all servers first, then those of
/// the servers, each one's before those of the servers that follow it.
pub proof fn jobs_come_in_order(config: ConfigModel, a: int, b: int)
    requires
        0 <= a < b < jobs_of(config).len(),
    ensures
        jobs_of(config)[b].target is Server,
        jobs_of(config)[a].target matches TargetModel::Server(first) ==> (
        jobs_of(config)[b].target matches TargetModel::Server(second) && exists|i: int, j: int|
            0 <= i < j < config.servers.len() && (#[trigger] config.servers[i]).id == first && (
            #[trigger] config.servers[j]).id == second),
{
    lemma_first_job(config);
    let n = config.servers.len() as int;
    let shift = if is_active(config.global_timer) {
        1int
    } else {
        0
    };
    let sj = server_jobs(config.servers, n);
    assert(jobs_of(config)[b] == sj[b - shift]);
    if jobs_of(config)[a].target is Server {
        assert(jobs_of(config)[a] == sj[a - shift]);
        let (i, j) = lemma_job_places(config.servers, n, a - shift, b - shift);
        assert(config.servers[i].id == config.servers[i].id);
        assert(config.servers[j].id == config.servers[j].id);
    }
}

/// The text names this hour and this minute.
pub open spec fn names_time(hhmm: Seq<char>, hour: nat, minute: nat) -> bool {
    let t = trimmed(hhmm);
    &&& hour < 24
    &&& minute < 60
    &&& t.len() == 5
    &&& t[0] as int == '0' as int + hour / 10
    &&& t[1] as int == '0' as int + hour % 10
    &&& t[2] == ':'
    &&& t[3] as int == '0' as int + minute / 10
    &&& t[4] as int == '0' as int + minute % 10
}

/// A time is understood exactly where it is written as two digits, a colon and two digits, the
/// hour below 24 and the minute below 60; and it is understood as what is written.
pub proof fn times_are_understood_as_written(hhmm: Seq<char>, hour: nat, minute: nat)
    ensures
        names_time(hhmm, hour, minute) <==> parsed_hhmm(hhmm) == Ok::<_, TimerFault>(
            (hour as int, minute as int),
        ),
{
    let t = trimmed(hhmm);
    lemma_first_index(t, ':');
    if names_time(hhmm, hour, minute) {
        assert(is_digit(t[0]) && is_digit(t[1]) && is_digit(t[3]) && is_digit(t[4]));
        lemma_first_index_is(t, ':', 2);
        let h = before_first(t, ':');
        let m = after_first(t, ':');
        assert(h.len() == 2 && h[0] == t[0] && h[1] == t[1]);
        assert(m.len() == 2 && m[0] == t[3] && m[1] == t[4]);
        reveal_with_fuel(digits_value, 3);
        assert(h.drop_last().drop_last() =~= Seq::empty());
        assert(m.drop_last().drop_last() =~= Seq::empty());
        assert(h.last() == h[1] && h.drop_last().last() == h[0]);
        assert(m.last() == m[1] && m.drop_last().last() == m[0]);
        assert(all_digits(h) && all_digits(m));
        assert(digits_value(h) == hour);
        assert(digits_value(m) == minute);
    }
    if parsed_hhmm(hhmm) == Ok::<_, TimerFault>((hour as int, minute as int)) {
        let h = before_first(t, ':');
        let m = after_first(t, ':');
        let n = crate::text::first_index(t, ':') as int;
        assert(n == 2);
        assert(t.len() == 5);
        assert(h[0] == t[0] && h[1] == t[1] && m[0] == t[3] && m[1] == t[4]);
        assert(is_digit(h[0]) && is_digit(h[1]) && is_digit(m[0]) && is_digit(m[1]));
        reveal_with_fuel(digits_value, 3);
        assert(h.drop_last().drop_last() =~= Seq::empty());
        assert(m.drop_last().drop_last() =~= Seq::empty());
        assert(h.last() == h[1] && h.drop_last().last() == h[0]);
        assert(m.last() == m[1] && m.drop_last().last() == m[0]);
    }
}

/// What is understood as a time is one of the day.
pub proof fn parsed_times_are_times(hhmm: Seq<char>)
    ensures
        parsed_hhmm(hhmm) matches Ok(t) ==> 0 <= t.0 < 24 && 0 <= t.1 < 60,
{
}

/// The cron expression for a time of every day: the minute, the hour, and three stars.
pub open spec fn is_daily(cron: Seq<char>, hour: nat, minute: nat) -> bool {
    words_of(cron) == seq![decimal(minute), decimal(hour), "*"@, "*"@, "*"@]
}

/// Switching a timer on at a time sets that timer, and no other, to run every day at that
/// time. It cannot be done for a server that is unknown or disabled, or at no valid time.
pub proof fn enabling_sets_one_timer(
    config: ConfigModel,
    target: TargetModel,
    hhmm: Seq<char>,
    hour: nat,
    minute: nat,
)
    requires
        names_time(hhmm, hour, minute),
    ensures
        target == TargetModel::AllEnabled ==> (updated(
            config,
            UpdateModel::Enable { target, hhmm },
        ) matches Ok(c) && c == (ConfigModel { global_timer: c.global_timer, ..config }) && (
        c.global_timer matches Some(t) && t.enabled && (t.cron matches Some(cron) && is_daily(
            cron,
            hour,
            minute,
        )))),
        target matches TargetModel::Server(id) ==> {
            let r = updated(config, UpdateModel::Enable { target, hhmm });
            let i = position_of(config.servers, id);
            &&& i >= config.servers.len() ==> r == Err::<ConfigModel, _>(
                TimerFault::UnknownServer(id),
            )
            &&& i < config.servers.len() && !config.servers[i].enabled ==> r == Err::<
                ConfigModel,
                _,
            >(TimerFault::DisabledServer(id))
            &&& i < config.servers.len() && config.servers[i].enabled ==> (r matches Ok(c)
                && differ_at_most_in(c, config, i) && c.servers[i] == (ServerModel {
                timer: c.servers[i].timer,
                ..config.servers[i]
            }) && (c.servers[i].timer matches Some(t) && t.enabled && (t.cron matches Some(cron)
                && is_daily(cron, hour, minute))))
        },
{
    times_are_understood_as_written(hhmm, hour, minute);
    lemma_daily_cron_words(hour, minute);
    if let TargetModel::Server(id) = target {
        lemma_position_of(config.servers, id);
    }
}

/// Without a valid time no timer is set.
pub proof fn bad_time_sets_no_timer(config: ConfigModel, target: TargetModel, hhmm: Seq<char>)
    requires
        forall|hour: nat, minute: nat| !#[trigger] names_time(hhmm, hour, minute),
    ensures
        updated(config, UpdateModel::Enable { target, hhmm }) is Err,
{
    if let Ok((h, m)) = parsed_hhmm(hhmm) {
        times_are_understood_as_written(hhmm, h as nat, m as nat);
    }
}

/// Switching a timer off leaves its cron expression, and touches no other timer.
pub proof fn disabling_stops_one_timer(config: ConfigModel, target: TargetModel)
    ensures
        target == TargetModel::AllEnabled ==> (updated(
            config,
            UpdateModel::Disable { target },
        ) matches Ok(c) && c == (ConfigModel { global_timer: c.global_timer, ..config }) && (
        c.global_timer matches Some(t) && !t.enabled && t.cron == (match config.global_timer {
            Some(old) => old.cron,
            None => None,
        }))),
        target matches TargetModel::Server(id) ==> {
            let r = updated(config, UpdateModel::Disable { target });
            let i = position_of(config.servers, id);
            &&& i >= config.servers.len() ==> r == Err::<ConfigModel, _>(
                TimerFault::UnknownServer(id),
            )
            &&& i < config.servers.len() && !config.servers[i].enabled ==> r == Err::<
                ConfigModel,
                _,
            >(TimerFault::DisabledServer(id))
            &&& i < config.servers.len() && config.servers[i].enabled ==> (r matches Ok(c)
                && differ_at_most_in(c, config, i) && c.servers[i] == (ServerModel {
                timer: c.servers[i].timer,
                ..config.servers[i]
            }) && (c.servers[i].timer matches Some(t) && !t.enabled && t.cron == (
            match config.servers[i].timer {
                Some(old) => old.cron,
                None => None,
            })))
        },
{
    if let TargetModel::Server(id) = target {
        lemma_position_of(config.servers, id);
    }
}

/// After a timer has been switched on at a time, there is a job for its target, and it runs at
/// second zero of that minute of that hour, every day.
pub proof fn enabled_timer_is_scheduled(
    config: ConfigModel,
    target: TargetModel,
    hhmm: Seq<char>,
    hour: nat,
    minute: nat,
)
    requires
        names_time(hhmm, hour, minute),
        updated(config, UpdateModel::Enable { target, hhmm }) is Ok,
    ensures
        ({
            let jobs = jobs_of(updated(config, UpdateModel::Enable { target, hhmm })->Ok_0);
            exists|k: int|
                0 <= k < jobs.len() && (#[trigger] jobs[k]).target == target && words_of(
                    jobs[k].expression,
                ) == seq!["0"@, decimal(minute), decimal(hour), "*"@, "*"@, "*"@]
        }),
{
    enabling_sets_one_timer(config, target, hhmm, hour, minute);
    let c = updated(config, UpdateModel::Enable { target, hhmm })->Ok_0;
    let jobs = jobs_of(c);
    let want = seq!["0"@, decimal(minute), decimal(hour), "*"@, "*"@, "*"@];
    match target {
        TargetModel::AllEnabled => {
            let cron = c.global_timer.unwrap().cron.unwrap();
            timers_have_their_jobs(c, cron, 0);
            assert(runs_by(c.global_timer, cron));
            assert(seq!["0"@] + words_of(cron) =~= want);
            assert(jobs[0].target == target);
        },
        TargetModel::Server(id) => {
            lemma_position_of(config.servers, id);
            let i = position_of(config.servers, id);
            let cron = c.servers[i].timer.unwrap().cron.unwrap();
            assert(runs_by(c.servers[i].timer, cron));
            timers_have_their_jobs(c, cron, i);
            assert(seq!["0"@] + words_of(cron) =~= want);
        },
    }
}

/// After a timer has been switched off, there is no job for its target.
pub proof fn disabled_timer_is_not_scheduled(config: ConfigModel, target: TargetModel, k: int)
    requires
        crate::config::distinct_ids(config.servers),
        updated(config, UpdateModel::Disable { target }) is Ok,
        0 <= k < jobs_of(updated(config, UpdateModel::Disable { target })->Ok_0).len(),
    ensures
        jobs_of(updated(config, UpdateModel::Disable { target })->Ok_0)[k].target != target,
{
    disabling_stops_one_timer(config, target);
    let c = updated(config, UpdateModel::Disable { target })->Ok_0;
    jobs_belong_to_timers(c, k);
    if let TargetModel::Server(id) = target {
        lemma_position_of(config.servers, id);
        let p = position_of(config.servers, id);
        if jobs_of(c)[k].target == target {
            let (i, cron) = choose|i: int, cron: Seq<char>|
                0 <= i < c.servers.len() && c.servers[i].id == id && c.servers[i].enabled
                    && #[trigger] runs_by(c.servers[i].timer, cron) && job_runs_by(
                    jobs_of(c)[k],
                    cron,
                );
            if i != p {
                assert(c.servers[i] == config.servers[i]);
                if i < p {
                    assert(config.servers[i].id != config.servers[p].id);
                } else {
                    assert(config.servers[p].id != config.servers[i].id);
                }
            }
        }
    }
}

proof fn lemma_same_server_jobs(a: Seq<ServerModel>, b: Seq<ServerModel>, n: int)
    requires
        a.len() == b.len(),
        0 <= n <= a.len(),
        forall|j: int|
            0 <= j < a.len() ==> (#[trigger] a[j]).id == b[j].id && a[j].enabled == b[j].enabled
                && a[j].timer == b[j].timer,
    ensures
        server_jobs(a, n) == server_jobs(b, n),
    decreases n,
{
    if n > 0 {
        lemma_same_server_jobs(a, b, n - 1);
        assert(a[n - 1].id == b[n - 1].id);
    }
}

/// What is scheduled does not depend on the names, the addresses and the tokens of servers: an
/// edit of one of these leaves every job as it is.
pub proof fn edits_keep_the_jobs(
    config: ConfigModel,
    id: Seq<char>,
    name: Seq<char>,
    update: AddressModel,
    token: Seq<char>,
)
    ensures
        after_token(config, id, token) matches Ok(c) ==> jobs_of(c) == jobs_of(config),
        after_rename(config, id, name) matches Ok(c) ==> jobs_of(c) == jobs_of(config),
        after_address(config, id, update) matches Ok(c) ==> jobs_of(c) == jobs_of(config),
{
    lemma_position_of(config.servers, id);
    let i = position_of(config.servers, id);
    let n = config.servers.len() as int;
    if i < n {
        token_edit_changes_the_token_only(config, id, token, i);
        rename_changes_the_name_only(config, id, name, i);
        address_edit_changes_the_address_only(config, id, update, i);
        if let Ok(c) = after_token(config, id, token) {
            lemma_same_server_jobs(c.servers, config.servers, n);
        }
        if let Ok(c) = after_rename(config, id, name) {
            lemma_same_server_jobs(c.servers, config.servers, n);
        }
        if let Ok(c) = after_address(config, id, update) {
            lemma_same_server_jobs(c.servers, config.servers, n);
        }
    }
}

/// The status shows what is set: for each server its own data, whether its timer is switched
/// on, and its time of day where its cron expression names one for every day.
pub proof fn status_shows_what_is_set(config: ConfigModel, i: int)
    ensures
        status_of(config).timezone == "Asia/Shanghai"@,
        status_of(config).servers.len() == config.servers.len(),
        status_of(config).global_timer_enabled <==> (config.global_timer matches Some(t)
            && t.enabled),
        0 <= i < config.servers.len() ==> {
            let a = status_of(config).servers[i];
            let s = config.servers[i];
            &&& a.server_id == s.id
            &&& a.server_name == s.name
            &&& a.address == s.address
            &&& a.resolved_ip == s.resolved_ip
            &&& a.country == s.country
            &&& a.flag == s.flag
            &&& a.server_enabled == s.enabled
            &&& a.timer_enabled <==> (s.timer matches Some(t) && t.enabled)
            &&& a.time is Some ==> (s.timer matches Some(t) && (t.cron matches Some(cron) && words_of(
                cron,
            ).len() == 5))
        },
{
}

/// A cron expression for a time of every day is shown as that time, and one that names no such
/// time as none.
pub proof fn shown_time_is_the_cron_time(cron: Seq<char>, hour: nat, minute: nat)
    requires
        hour < 24,
        minute < 60,
    ensures
        is_daily(cron, hour, minute) ==> (hhmm_of_cron(cron) matches Some(t) && names_time(
            t,
            hour,
            minute,
        )),
        words_of(cron).len() != 5 ==> hhmm_of_cron(cron) is None,
        words_of(cron).len() == 5 && !(words_of(cron)[2] == "*"@ && words_of(cron)[3] == "*"@
            && words_of(cron)[4] == "*"@) ==> hhmm_of_cron(cron) is None,
{
    if is_daily(cron, hour, minute) {
        crate::number::decimal_reads_back(hour, 255);
        crate::number::decimal_reads_back(minute, 255);
        time_text_reads_back(hour, minute);
        times_are_understood_as_written(hhmm_text(hour, minute), hour, minute);
    }
}

/// Whether there is anything to schedule.
pub fn check_can_start(config: &AppConfig) -> (r: Result<(), TimerError>)
    ensures
        match r {
            Ok(_) => jobs_of(config@).len() > 0,
            Err(e) => jobs_of(config@).len() == 0 && e@ == TimerFault::NoTimer,
        },
{
    let jobs = timer_jobs(config);
    assert(job_models(jobs@).len() == jobs@.len());
    if jobs.len() > 0 {
        Ok(())
    } else {
        Err(TimerError::NoTimer)
    }
}

// ---------------------------------------------------------------------------
// The configuration and its jobs together
// ---------------------------------------------------------------------------

/// The configuration that is in force, and the jobs that belong to it.
pub struct TimerManager {
    config: AppConfig,
    jobs: Vec<TimerJob>,
}

impl TimerManager {
    pub closed spec fn model(&self) -> ConfigModel {
        self.config@
    }

    pub closed spec fn jobs(&self) -> Seq<JobModel> {
        job_models(self.jobs@)
    }

    /// The jobs are those of the configuration.
    pub open spec fn wf(&self) -> bool {
        self.jobs() == jobs_of(self.model())
    }

    pub fn new(config: AppConfig) -> (r: TimerManager)
        ensures
            r.wf(),
            r.model() == config@,
    {
        let jobs = timer_jobs(&config);
        TimerManager { config, jobs }
    }

    /// Begins with a configuration that has something to schedule.
    pub fn start(config: AppConfig) -> (r: Result<TimerManager, TimerError>)
        ensures
            match r {
                Ok(m) => m.wf() && m.model() == config@ && jobs_of(config@).len() > 0,
                Err(e) => jobs_of(config@).len() == 0 && e@ == TimerFault::NoTimer,
            },
    {
        match check_can_start(&config) {
            Ok(_) => Ok(TimerManager::new(config)),
            Err(e) => Err(e),
        }
    }

    pub fn status(&self) -> (r: TimerStatus)
        ensures
            r@ == status_of(self.model()),
    {
        timer_status(&self.config)
    }

    pub fn config(&self) -> (r: &AppConfig)
        ensures
            r@ == self.model(),
    {
        &self.config
    }

    pub fn job_count(&self) -> (r: usize)
        ensures
            r == self.jobs().len(),
    {
        self.jobs.len()
    }

    /// The jobs to schedule.
    pub fn scheduled(&self) -> (r: &Vec<TimerJob>)
        ensures
            job_models(r@) == self.jobs(),
    {
        &self.jobs
    }

    /// The configuration after an update. It is in force once it has been saved and
    /// handed to `replace_config`; what is in force until then stays as it is.
    pub fn apply_update(&self, update: TimerUpdate) -> (r: Result<AppConfig, TimerError>)
        ensures
            match r {
                Ok(c) => updated(self.model(), update@) == Ok::<_, TimerFault>(c@),
                Err(e) => updated(self.model(), update@) == Err::<ConfigModel, _>(e@),
            },
    {
        let mut next = self.config.clone();
        match apply_timer_update(&mut next, update) {
            Ok(_) => Ok(next),
            Err(e) => Err(e),
        }
    }

    pub fn replace_config(&mut self, config: AppConfig)
        ensures
            final(self).wf(),
            final(self).model() == config@,
    {
        self.config = config;
        self.reload();
    }

    /// Schedules anew: the old jobs go, and those of the configuration come.
    pub fn reload(&mut self)
        ensures
            final(self).wf(),
            final(self).model() == old(self).model(),
    {
        self.jobs = timer_jobs(&self.config);
    }

    pub fn clear(&mut self)
        ensures
            final(self).model() == old(self).model(),
            final(self).jobs().len() == 0,
    {
        self.jobs = Vec::new();
    }
}

} // verus!
