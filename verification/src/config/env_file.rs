//! The configuration file: lines of the form `NAME=value`. A value in single quotes
//! may go over several lines; within it `'\''` stands for one quote.

use vstd::prelude::*;
use crate::config::{
    var_models, AppConfig, ConfigError, ConfigFault, ConfigModel, VarModel, is_servers_fault,
    valid_code, valid_opt_timer, valid_servers, validate_servers, validate_timer_config,
};
use crate::number::{decimal, decimal_text};
use crate::text::{
    after_first, before_first, chars_of, has_char, has_prefix, index_from, is_ascii_letter_or_digit,
    join, joined, lemma_first_index, lines, lines_of, opt_text, replaced, replace_text, rest,
    slice_text, split_once, starts_with, texts, trim, trim_start, trimmed, trimmed_start,
};

verus! {

// ---------------------------------------------------------------------------
// Reading
// ---------------------------------------------------------------------------

/// What follows a closing quote where the value goes on after a quote of its own.
pub open spec fn quote_tail() -> Seq<char> {
    seq!['\\', '\'', '\'']
}

/// The quoted value whose text, behind the opening quote, begins with `cur` and goes
/// on in `lines` from `i`; and the number of the first line behind it. `None` where
/// the quote is never closed.
pub open spec fn quoted_value(cur: Seq<char>, lines: Seq<Seq<char>>, i: int) -> Option<
    (Seq<char>, int),
>
    decreases lines.len() - i, cur.len(),
{
    if has_char(cur, '\'') {
        let before = before_first(cur, '\'');
        let after = after_first(cur, '\'');
        if starts_with(after, quote_tail()) {
            match quoted_value(rest(after, 3), lines, i) {
                Some((v, n)) => Some((before.push('\'') + v, n)),
                None => None,
            }
        } else {
            Some((before, i))
        }
    } else if 0 <= i < lines.len() {
        match quoted_value(lines[i], lines, i + 1) {
            Some((v, n)) => Some((cur.push('\n') + v, n)),
            None => None,
        }
    } else {
        None
    }
}

pub open spec fn is_name_char(c: char) -> bool {
    is_ascii_letter_or_digit(c) || c == '_'
}

/// A variable's name: letters, digits and underscores, at least one.
pub open spec fn valid_name(key: Seq<char>) -> bool {
    key.len() > 0 && forall|i: int| 0 <= i < key.len() ==> is_name_char(#[trigger] key[i])
}

/// A value that does not begin with a single quote: double quotes around it do not
/// belong to it, and neither does white space at its end.
pub open spec fn plain_value(raw: Seq<char>) -> Seq<char> {
    if raw.len() >= 2 && raw[0] == '"' && raw.last() == '"' {
        raw.subrange(1, raw.len() - 1)
    } else {
        trimmed(raw)
    }
}

pub open spec fn prepended(v: VarModel, r: Result<Seq<VarModel>, ConfigFault>) -> Result<
    Seq<VarModel>,
    ConfigFault,
> {
    match r {
        Ok(vars) => Ok(seq![v] + vars),
        Err(f) => Err(f),
    }
}

/// The variables of the lines from `i` on, or the first fault in them.
pub open spec fn vars_of_lines(lines: Seq<Seq<char>>, i: int) -> Result<
    Seq<VarModel>,
    ConfigFault,
>
    decreases lines.len() - i,
{
    if i < 0 || i >= lines.len() {
        Ok(Seq::empty())
    } else {
        let t = trimmed_start(lines[i]);
        let key = trimmed(before_first(t, '='));
        let raw = trimmed_start(after_first(t, '='));
        if t.len() == 0 || t[0] == '#' {
            vars_of_lines(lines, i + 1)
        } else if !has_char(t, '=') {
            Err(ConfigFault::LineWithoutValue((i + 1) as nat))
        } else if !valid_name(key) {
            Err(ConfigFault::LineWithBadName((i + 1) as nat))
        } else if raw.len() > 0 && raw[0] == '\'' {
            match quoted_value(rest(raw, 1), lines, i + 1) {
                None => Err(ConfigFault::LineWithOpenQuote((i + 1) as nat)),
                Some((v, n)) => if i < n <= lines.len() {
                    prepended((key, v), vars_of_lines(lines, n))
                } else {
                    Ok(Seq::empty())
                },
            }
        } else {
            prepended((key, plain_value(raw)), vars_of_lines(lines, i + 1))
        }
    }
}

/// The variables of a configuration file, or what is wrong with it.
pub open spec fn vars_of(content: Seq<char>) -> Result<Seq<VarModel>, ConfigFault> {
    vars_of_lines(lines_of(content), 0)
}

/// The value ends at or behind the line that it was looked for in.
pub proof fn lemma_quoted_value_end(cur: Seq<char>, lines: Seq<Seq<char>>, i: int)
    requires
        0 <= i <= lines.len(),
    ensures
        quoted_value(cur, lines, i) matches Some((v, n)) ==> i <= n <= lines.len(),
    decreases lines.len() - i, cur.len(),
{
    lemma_first_index(cur, '\'');
    if has_char(cur, '\'') {
        let after = after_first(cur, '\'');
        if starts_with(after, quote_tail()) {
            lemma_quoted_value_end(rest(after, 3), lines, i);
        }
    } else if i < lines.len() {
        lemma_quoted_value_end(lines[i], lines, i + 1);
    }
}

/// Whether `cs` goes on at `at` with `\''`.
fn has_quote_tail(cs: &Vec<char>, at: usize) -> (r: bool)
    requires
        at <= cs@.len(),
    ensures
        r == starts_with(rest(cs@, at as int), quote_tail()),
        r ==> at + 3 <= cs@.len(),
{
    let ghost t = rest(cs@, at as int);
    if cs.len() - at < 3 {
        return false;
    }
    let r = cs[at] == '\\' && cs[at + 1] == '\'' && cs[at + 2] == '\'';
    proof {
        assert(t[0] == cs@[at as int] && t[1] == cs@[at + 1] && t[2] == cs@[at + 2]);
        let u = t.subrange(0, 3);
        if r {
            assert(u =~= quote_tail());
        } else {
            assert(u[0] == t[0] && u[1] == t[1] && u[2] == t[2]);
            assert(quote_tail()[0] == '\\' && quote_tail()[1] == '\'' && quote_tail()[2] == '\'');
        }
    }
    r
}

fn push_slice(s: &mut String, cs: &Vec<char>, from: usize, to: usize)
    requires
        from <= to <= cs@.len(),
    ensures
        final(s)@ == old(s)@ + cs@.subrange(from as int, to as int),
{
    let part = slice_text(cs, from, to);
    s.append(part.as_str());
}

/// Reads a quoted value from behind its opening quote; `next` is the number of the
/// line that follows. Gives the value and the number of the first line behind it.
fn read_quoted(first: &str, lines: &Vec<String>, next: usize) -> (r: Option<(String, usize)>)
    requires
        next <= lines@.len(),
    ensures
        match r {
            Some((v, n)) => quoted_value(first@, texts(lines@), next as int) == Some(
                (v@, n as int),
            ) && next <= n <= lines@.len(),
            None => quoted_value(first@, texts(lines@), next as int) is None,
        },
{
    let ghost all = texts(lines@);
    let ghost whole = quoted_value(first@, all, next as int);
    let mut cs = chars_of(first);
    let mut at: usize = 0;
    let mut i: usize = next;
    let mut value = String::new();
    assert(rest(cs@, 0) =~= first@);
    proof {
        match quoted_value(first@, all, next as int) {
            Some((v, n)) => {
                assert(value@ + v =~= v);
            },
            None => {},
        }
    }
    loop
        invariant
            all == texts(lines@),
            next <= i <= lines@.len(),
            at <= cs@.len(),
            whole == quoted_value(first@, all, next as int),
            match quoted_value(rest(cs@, at as int), all, i as int) {
                Some((v, n)) => whole == Some((value@ + v, n)),
                None => whole is None,
            },
        decreases lines@.len() - i, cs@.len() - at,
    {
        let ghost cur = rest(cs@, at as int);
        let q = index_from(&cs, '\'', at);
        proof {
            lemma_first_index(cur, '\'');
        }
        if q < cs.len() {
            assert(before_first(cur, '\'') =~= cs@.subrange(at as int, q as int));
            assert(after_first(cur, '\'') =~= rest(cs@, q + 1));
            let ghost old_value = value@;
            push_slice(&mut value, &cs, at, q);
            if has_quote_tail(&cs, q + 1) {
                assert(rest(rest(cs@, q + 1), 3) =~= rest(cs@, q + 4));
                proof {
                    match quoted_value(rest(cs@, q + 4), all, i as int) {
                        Some((v, n)) => {
                            assert(old_value + (before_first(cur, '\'').push('\'') + v) =~= (
                            old_value + before_first(cur, '\'')).push('\'') + v);
                        },
                        None => {},
                    }
                }
                value.push('\'');
                at = q + 4;
            } else {
                return Some((value, i));
            }
        } else {
            let ghost old_value = value@;
            let n = cs.len();
            push_slice(&mut value, &cs, at, n);
            assert(cs@.subrange(at as int, n as int) =~= cur);
            if i == lines.len() {
                return None;
            }
            value.push('\n');
            cs = chars_of(lines[i].as_str());
            at = 0;
            i += 1;
            proof {
                assert(all[i - 1] == lines@[i - 1]@);
                assert(rest(cs@, 0) =~= all[i - 1]);
                match quoted_value(all[i - 1], all, i as int) {
                    Some((v, m)) => {
                        assert(old_value + (cur.push('\n') + v) =~= (old_value + cur).push('\n')
                            + v);
                    },
                    None => {},
                }
            }
        }
    }
}

fn name_is_valid(key: &str) -> (r: bool)
    ensures
        r == valid_name(key@),
{
    let cs = chars_of(key);
    if cs.len() == 0 {
        return false;
    }
    let mut i: usize = 0;
    while i < cs.len()
        invariant
            cs@ == key@,
            i <= cs@.len(),
            forall|k: int| 0 <= k < i ==> is_name_char(#[trigger] key@[k]),
        decreases cs@.len() - i,
    {
        let c = cs[i];
        if !(('0' <= c && c <= '9') || ('a' <= c && c <= 'z') || ('A' <= c && c <= 'Z') || c
            == '_') {
            assert(!is_name_char(key@[i as int]));
            return false;
        }
        i += 1;
    }
    true
}

fn read_plain(raw: &str) -> (r: String)
    ensures
        r@ == plain_value(raw@),
{
    let cs = chars_of(raw);
    let n: usize = cs.len();
    if n >= 2 && cs[0] == '"' && cs[n - 1] == '"' {
        slice_text(&cs, 1, n - 1)
    } else {
        trim(raw)
    }
}

fn first_char(s: &str) -> (r: Option<char>)
    ensures
        match r {
            Some(c) => s@.len() > 0 && s@[0] == c,
            None => s@.len() == 0,
        },
{
    let cs = chars_of(s);
    if cs.len() > 0 {
        Some(cs[0])
    } else {
        None
    }
}

/// One step of the reading: what the line at `i` gives.
enum Entry {
    Nothing,
    Var(String, String, usize),
    Bad(ConfigError),
}

fn read_entry(lines: &Vec<String>, i: usize) -> (r: Entry)
    requires
        i < lines@.len(),
    ensures
        match r {
            Entry::Nothing => vars_of_lines(texts(lines@), i as int) == vars_of_lines(
                texts(lines@),
                i + 1,
            ),
            Entry::Var(k, v, n) => i < n <= lines@.len() && vars_of_lines(texts(lines@), i as int)
                == prepended((k@, v@), vars_of_lines(texts(lines@), n as int)),
            Entry::Bad(e) => vars_of_lines(texts(lines@), i as int) == Err::<
                Seq<VarModel>,
                ConfigFault,
            >(e@),
        },
{
    let ghost all = texts(lines@);
    assert(all[i as int] == lines@[i as int]@);
    let total: usize = lines.len();
    assert(i < total);
    let t = trim_start(lines[i].as_str());
    match first_char(t.as_str()) {
        None => return Entry::Nothing,
        Some(c) => {
            if c == '#' {
                return Entry::Nothing;
            }
        },
    }
    match split_once(t.as_str(), '=') {
        None => Entry::Bad(ConfigError::LineWithoutValue(i + 1)),
        Some((before, after)) => {
            let key = trim(before.as_str());
            if !name_is_valid(key.as_str()) {
                return Entry::Bad(ConfigError::LineWithBadName(i + 1));
            }
            let raw = trim_start(after.as_str());
            let quoted = match first_char(raw.as_str()) {
                Some(c) => c == '\'',
                None => false,
            };
            if quoted {
                let cs = chars_of(raw.as_str());
                let first = slice_text(&cs, 1, cs.len());
                match read_quoted(first.as_str(), lines, i + 1) {
                    None => Entry::Bad(ConfigError::LineWithOpenQuote(i + 1)),
                    Some((v, n)) => Entry::Var(key, v, n),
                }
            } else {
                Entry::Var(key, read_plain(raw.as_str()), i + 1)
            }
        },
    }
}

/// Reads the variables of a configuration file.
pub fn parse_config_env_content(content: &str) -> (r: Result<Vec<(String, String)>, ConfigError>)
    ensures
        match r {
            Ok(v) => vars_of(content@) == Ok::<_, ConfigFault>(var_models(v@)),
            Err(e) => vars_of(content@) == Err::<Seq<VarModel>, _>(e@),
        },
{
    let all = lines(content);
    let ghost ls = texts(all@);
    let mut vars: Vec<(String, String)> = Vec::new();
    let mut i: usize = 0;
    let ghost whole = vars_of(content@);
    proof {
        match whole {
            Ok(m) => {
                assert(var_models(vars@) + m =~= m);
            },
            Err(_) => {},
        }
    }
    while i < all.len()
        invariant
            ls == texts(all@),
            whole == vars_of(content@),
            i <= all@.len(),
            match vars_of_lines(ls, i as int) {
                Ok(m) => whole == Ok::<_, ConfigFault>(var_models(vars@) + m),
                Err(f) => whole == Err::<Seq<VarModel>, _>(f),
            },
        decreases all@.len() - i,
    {
        let ghost old_vars = vars@;
        match read_entry(&all, i) {
            Entry::Nothing => {
                i += 1;
            },
            Entry::Var(k, v, n) => {
                vars.push((k, v));
                proof {
                    assert(var_models(vars@) =~= var_models(old_vars).push((k@, v@)));
                    match vars_of_lines(ls, n as int) {
                        Ok(m) => {
                            assert(var_models(old_vars) + (seq![(k@, v@)] + m) =~= var_models(
                                old_vars,
                            ).push((k@, v@)) + m);
                        },
                        Err(_) => {},
                    }
                }
                i = n;
            },
            Entry::Bad(e) => {
                return Err(e);
            },
        }
    }
    assert(var_models(vars@) + Seq::<VarModel>::empty() =~= var_models(vars@));
    Ok(vars)
}

// ---------------------------------------------------------------------------
// Writing
// ---------------------------------------------------------------------------

/// A value in single quotes, each quote within it written as `'\''`.
pub open spec fn quoted(value: Seq<char>) -> Seq<char> {
    seq!['\''] + replaced(value, seq!['\''], seq!['\'', '\\', '\'', '\'']) + seq!['\'']
}

pub fn shell_single_quote(value: &str) -> (r: String)
    ensures
        r@ == quoted(value@),
{
    proof {
        reveal_strlit("'");
        reveal_strlit("'\\''");
        assert("'"@ =~= seq!['\'']);
        assert("'\\''"@ =~= seq!['\'', '\\', '\'', '\'']);
    }
    let mut r = "'".to_owned();
    let inner = replace_text(value, "'", "'\\''");
    r.append(inner.as_str());
    r.append("'");
    r
}

/// What a line of a configuration file is about.
#[derive(Clone, Copy, Debug, PartialEq, Eq, Structural)]
pub enum LineKind {
    Servers,
    GlobalTimer,
    ChatId,
    PairCode,
    PairExpiresAt,
    Other,
}

pub open spec fn kind_of(line: Seq<char>) -> LineKind {
    let t = trimmed_start(line);
    if starts_with(t, "BOIL_SERVERS="@) {
        LineKind::Servers
    } else if starts_with(t, "BOIL_GLOBAL_TIMER="@) {
        LineKind::GlobalTimer
    } else if starts_with(t, "TG_CHAT_ID="@) {
        LineKind::ChatId
    } else if starts_with(t, "TG_PAIR_CODE="@) {
        LineKind::PairCode
    } else if starts_with(t, "TG_PAIR_EXPIRES_AT="@) {
        LineKind::PairExpiresAt
    } else {
        LineKind::Other
    }
}

/// A line that gives no variable.
pub open spec fn is_remark(line: Seq<char>) -> bool {
    let t = trimmed_start(line);
    t.len() == 0 || t[0] == '#'
}

pub open spec fn key_of(line: Seq<char>) -> Seq<char> {
    trimmed(before_first(trimmed_start(line), '='))
}

pub open spec fn raw_of(line: Seq<char>) -> Seq<char> {
    trimmed_start(after_first(trimmed_start(line), '='))
}

pub open spec fn is_named(line: Seq<char>) -> bool {
    has_char(trimmed_start(line), '=') && valid_name(key_of(line))
}

pub open spec fn is_quoted(line: Seq<char>) -> bool {
    raw_of(line).len() > 0 && raw_of(line)[0] == '\''
}

/// The servers or the global timer: where their quote is never closed, all lines that
/// follow belong to them.
pub open spec fn takes_rest(k: LineKind) -> bool {
    k == LineKind::Servers || k == LineKind::GlobalTimer
}

/// The number of the first line behind the entry that begins on line `i`: an entry
/// with a quoted value has all lines of that value, any other entry is one line.
pub open spec fn entry_end(lines: Seq<Seq<char>>, i: int) -> int {
    let l = lines[i];
    if !is_remark(l) && is_named(l) && is_quoted(l) {
        match quoted_value(rest(raw_of(l), 1), lines, i + 1) {
            Some((v, n)) => n,
            None => if takes_rest(kind_of(l)) {
                lines.len() as int
            } else {
                i + 1
            },
        }
    } else {
        i + 1
    }
}

/// The entries that are kept or replaced, each with what it is about and with its
/// text, which is all of its lines.
pub open spec fn items_of(lines: Seq<Seq<char>>, i: int) -> Seq<(LineKind, Seq<char>)>
    decreases lines.len() - i,
{
    if i < 0 || i >= lines.len() {
        Seq::empty()
    } else {
        let n = entry_end(lines, i);
        if i < n <= lines.len() {
            seq![(kind_of(lines[i]), joined(lines.subrange(i, n), seq!['\n']))] + items_of(lines, n)
        } else {
            Seq::empty()
        }
    }
}

/// The lines that a configuration is to have.
pub struct ConfigLines {
    pub servers: String,
    pub global_timer: Option<String>,
    pub chat_id: Option<String>,
    pub pair_code: Option<String>,
    pub pair_expires_at: Option<String>,
}

pub struct ConfigLinesModel {
    pub servers: Seq<char>,
    pub global_timer: Option<Seq<char>>,
    pub chat_id: Option<Seq<char>>,
    pub pair_code: Option<Seq<char>>,
    pub pair_expires_at: Option<Seq<char>>,
}

impl View for ConfigLines {
    type V = ConfigLinesModel;

    open spec fn view(&self) -> ConfigLinesModel {
        ConfigLinesModel {
            servers: self.servers@,
            global_timer: opt_text(self.global_timer),
            chat_id: opt_text(self.chat_id),
            pair_code: opt_text(self.pair_code),
            pair_expires_at: opt_text(self.pair_expires_at),
        }
    }
}

/// What takes the place of an old entry. A chat id is kept where there is no new one.
pub open spec fn line_for(item: (LineKind, Seq<char>), new: ConfigLinesModel) -> Option<Seq<char>> {
    match item.0 {
        LineKind::Servers => Some(new.servers),
        LineKind::GlobalTimer => new.global_timer,
        LineKind::ChatId => match new.chat_id {
            Some(l) => Some(l),
            None => Some(item.1),
        },
        LineKind::PairCode => new.pair_code,
        LineKind::PairExpiresAt => new.pair_expires_at,
        LineKind::Other => Some(item.1),
    }
}

pub open spec fn push_opt(s: Seq<Seq<char>>, o: Option<Seq<char>>) -> Seq<Seq<char>> {
    match o {
        Some(l) => s.push(l),
        None => s,
    }
}

/// The old entries with the new lines in their places.
pub open spec fn rewritten(items: Seq<(LineKind, Seq<char>)>, new: ConfigLinesModel) -> Seq<
    Seq<char>,
>
    decreases items.len(),
{
    if items.len() == 0 {
        Seq::empty()
    } else {
        push_opt(rewritten(items.drop_last(), new), line_for(items.last(), new))
    }
}

pub open spec fn has_kind(items: Seq<(LineKind, Seq<char>)>, k: LineKind) -> bool {
    exists|i: int| 0 <= i < items.len() && (#[trigger] items[i]).0 == k
}

/// All entries of the new file: the servers first where there was no line for them,
/// the global timer behind the first entry, and the Telegram settings that were missing
/// at the end.
pub open spec fn merged_lines(items: Seq<(LineKind, Seq<char>)>, new: ConfigLinesModel) -> Seq<
    Seq<char>,
> {
    let l0 = rewritten(items, new);
    let l1 = if has_kind(items, LineKind::Servers) {
        l0
    } else {
        l0.insert(0, new.servers)
    };
    let l2 = match new.global_timer {
        Some(g) => if has_kind(items, LineKind::GlobalTimer) {
            l1
        } else {
            l1.insert(if l1.len() >= 1 { 1 } else { 0 }, g)
        },
        None => l1,
    };
    let l3 = if has_kind(items, LineKind::ChatId) {
        l2
    } else {
        push_opt(l2, new.chat_id)
    };
    let l4 = if has_kind(items, LineKind::PairCode) {
        l3
    } else {
        push_opt(l3, new.pair_code)
    };
    if has_kind(items, LineKind::PairExpiresAt) {
        l4
    } else {
        push_opt(l4, new.pair_expires_at)
    }
}

/// The text of a configuration file that held `existing` and is to have the new lines.
pub open spec fn merged_content(existing: Seq<char>, new: ConfigLinesModel) -> Seq<char> {
    joined(merged_lines(items_of(lines_of(existing), 0), new), seq!['\n']).push('\n')
}

pub open spec fn opt_line(name: Seq<char>, value: Option<Seq<char>>) -> Option<Seq<char>> {
    match value {
        Some(v) => Some(name + quoted(v)),
        None => None,
    }
}

/// The lines for a configuration, where `servers_json` and `timer_json` are the JSON
/// texts of its servers and of its global timer.
pub open spec fn lines_for(
    config: ConfigModel,
    servers_json: Seq<char>,
    timer_json: Option<Seq<char>>,
) -> ConfigLinesModel {
    ConfigLinesModel {
        servers: "BOIL_SERVERS="@ + quoted(servers_json),
        global_timer: opt_line("BOIL_GLOBAL_TIMER="@, timer_json),
        chat_id: opt_line("TG_CHAT_ID="@, config.tg_chat_id),
        pair_code: opt_line("TG_PAIR_CODE="@, config.tg_pair_code),
        pair_expires_at: match config.tg_pair_expires_at {
            Some(t) => Some("TG_PAIR_EXPIRES_AT="@ + decimal(t as nat)),
            None => None,
        },
    }
}

fn line_kind(line: &str) -> (r: LineKind)
    ensures
        r == kind_of(line@),
{
    let t = trim_start(line);
    if has_prefix(t.as_str(), "BOIL_SERVERS=") {
        LineKind::Servers
    } else if has_prefix(t.as_str(), "BOIL_GLOBAL_TIMER=") {
        LineKind::GlobalTimer
    } else if has_prefix(t.as_str(), "TG_CHAT_ID=") {
        LineKind::ChatId
    } else if has_prefix(t.as_str(), "TG_PAIR_CODE=") {
        LineKind::PairCode
    } else if has_prefix(t.as_str(), "TG_PAIR_EXPIRES_AT=") {
        LineKind::PairExpiresAt
    } else {
        LineKind::Other
    }
}

/// Skips the lines over which the value of line `i` goes on.
fn skip_multiline_single_quoted_value(lines: &Vec<String>, i: usize) -> (r: usize)
    requires
        i < lines@.len(),
    ensures
        r == entry_end(texts(lines@), i as int),
        i < r <= lines@.len(),
{
    assert(texts(lines@)[i as int] == lines@[i as int]@);
    let total: usize = lines.len();
    assert(i < total);
    let t = trim_start(lines[i].as_str());
    match first_char(t.as_str()) {
        None => return i + 1,
        Some(c) => {
            if c == '#' {
                return i + 1;
            }
        },
    }
    match split_once(t.as_str(), '=') {
        None => i + 1,
        Some((before, after)) => {
            let key = trim(before.as_str());
            let raw = trim_start(after.as_str());
            let cs = chars_of(raw.as_str());
            if name_is_valid(key.as_str()) && cs.len() > 0 && cs[0] == '\'' {
                let first = slice_text(&cs, 1, cs.len());
                match read_quoted(first.as_str(), lines, i + 1) {
                    Some((_, n)) => n,
                    None => match line_kind(lines[i].as_str()) {
                        LineKind::Servers => total,
                        LineKind::GlobalTimer => total,
                        _ => i + 1,
                    },
                }
            } else {
                i + 1
            }
        },
    }
}

/// The lines from `i` up to `n` as one text.
fn entry_text(lines: &Vec<String>, i: usize, n: usize) -> (r: String)
    requires
        i < n <= lines@.len(),
    ensures
        r@ == joined(texts(lines@).subrange(i as int, n as int), seq!['\n']),
{
    let ghost all = texts(lines@);
    let mut r = lines[i].clone();
    let mut j: usize = i + 1;
    proof {
        assert(all[i as int] == lines@[i as int]@);
        assert(all.subrange(i as int, j as int) =~= seq![all[i as int]]);
    }
    while j < n
        invariant
            all == texts(lines@),
            i < j <= n <= lines@.len(),
            r@ == joined(all.subrange(i as int, j as int), seq!['\n']),
        decreases n - j,
    {
        r.push('\n');
        r.append(lines[j].as_str());
        proof {
            let part = all.subrange(i as int, j + 1);
            assert(all[j as int] == lines@[j as int]@);
            assert(part.drop_last() =~= all.subrange(i as int, j as int));
            assert(r@ =~= joined(part.drop_last(), seq!['\n']) + seq!['\n'] + part.last());
        }
        j += 1;
    }
    r
}

fn push_opt_line(v: &mut Vec<String>, line: &Option<String>)
    ensures
        texts(final(v)@) == push_opt(texts(old(v)@), opt_text(*line)),
{
    match line {
        Some(l) => {
            v.push(l.clone());
        },
        None => {},
    }
    assert(texts(v@) =~= push_opt(texts(old(v)@), opt_text(*line)));
}

/// Which kinds of lines have been met.
#[derive(Clone, Copy)]
struct Seen {
    servers: bool,
    global_timer: bool,
    chat_id: bool,
    pair_code: bool,
    pair_expires_at: bool,
}

spec fn seen_is(seen: Seen, items: Seq<(LineKind, Seq<char>)>) -> bool {
    &&& seen.servers == has_kind(items, LineKind::Servers)
    &&& seen.global_timer == has_kind(items, LineKind::GlobalTimer)
    &&& seen.chat_id == has_kind(items, LineKind::ChatId)
    &&& seen.pair_code == has_kind(items, LineKind::PairCode)
    &&& seen.pair_expires_at == has_kind(items, LineKind::PairExpiresAt)
}

proof fn lemma_has_kind_push(items: Seq<(LineKind, Seq<char>)>, x: (LineKind, Seq<char>))
    ensures
        forall|k: LineKind| #[trigger]
            has_kind(items.push(x), k) == (has_kind(items, k) || x.0 == k),
{
    assert forall|k: LineKind| #[trigger] has_kind(items.push(x), k) == (has_kind(items, k) || x.0
        == k) by {
        if has_kind(items, k) {
            let i = choose|i: int| 0 <= i < items.len() && (#[trigger] items[i]).0 == k;
            assert(items.push(x)[i].0 == k);
        }
        if x.0 == k {
            assert(items.push(x)[items.len() as int].0 == k);
        }
        if has_kind(items.push(x), k) {
            let i = choose|i: int|
                0 <= i < items.push(x).len() && (#[trigger] items.push(x)[i]).0 == k;
            if i < items.len() {
                assert(items[i].0 == k);
            }
        }
    }
}

/// Puts the new lines in the place of the old entries; tells which kinds were there.
fn rewrite_lines(old_lines: &Vec<String>, new: &ConfigLines) -> (r: (Vec<String>, Seen))
    ensures
        texts(r.0@) == rewritten(items_of(texts(old_lines@), 0), new@),
        seen_is(r.1, items_of(texts(old_lines@), 0)),
{
    let ghost all = texts(old_lines@);
    let ghost items = items_of(all, 0);
    let ghost mut met: Seq<(LineKind, Seq<char>)> = Seq::empty();
    let mut out: Vec<String> = Vec::new();
    let mut seen = Seen {
        servers: false,
        global_timer: false,
        chat_id: false,
        pair_code: false,
        pair_expires_at: false,
    };
    let mut i: usize = 0;
    assert(met + items_of(all, 0) =~= items);
    assert(texts(out@) =~= rewritten(met, new@));
    while i < old_lines.len()
        invariant
            all == texts(old_lines@),
            i <= old_lines@.len(),
            items == items_of(all, 0),
            met + items_of(all, i as int) == items,
            texts(out@) == rewritten(met, new@),
            seen_is(seen, met),
        decreases old_lines@.len() - i,
    {
        let kind = line_kind(old_lines[i].as_str());
        let n = skip_multiline_single_quoted_value(old_lines, i);
        let text = entry_text(old_lines, i, n);
        let ghost item = (kind, text@);
        assert(all[i as int] == old_lines@[i as int]@);
        let ghost before = out@;
        proof {
            lemma_has_kind_push(met, item);
            assert(met.push(item).drop_last() =~= met);
        }
        match kind {
            LineKind::Servers => {
                out.push(new.servers.clone());
                seen.servers = true;
            },
            LineKind::GlobalTimer => {
                push_opt_line(&mut out, &new.global_timer);
                seen.global_timer = true;
            },
            LineKind::ChatId => {
                if new.chat_id.is_some() {
                    push_opt_line(&mut out, &new.chat_id);
                } else {
                    out.push(text);
                }
                seen.chat_id = true;
            },
            LineKind::PairCode => {
                push_opt_line(&mut out, &new.pair_code);
                seen.pair_code = true;
            },
            LineKind::PairExpiresAt => {
                push_opt_line(&mut out, &new.pair_expires_at);
                seen.pair_expires_at = true;
            },
            LineKind::Other => {
                out.push(text);
            },
        }
        proof {
            assert(texts(out@) =~= push_opt(texts(before), line_for(item, new@)));
            assert(met + (seq![item] + items_of(all, n as int)) =~= met.push(item) + items_of(
                all,
                n as int,
            ));
            met = met.push(item);
        }
        i = n;
    }
    assert(met + items_of(all, i as int) =~= met);
    (out, seen)
}

proof fn lemma_texts_insert(v: Seq<String>, i: int, s: String)
    requires
        0 <= i <= v.len(),
    ensures
        texts(v.insert(i, s)) == texts(v).insert(i, s@),
{
    assert(texts(v.insert(i, s)) =~= texts(v).insert(i, s@));
}

/// The text of the new file.
pub fn merge_content(existing: &str, new: &ConfigLines) -> (r: String)
    ensures
        r@ == merged_content(existing@, new@),
{
    let old_lines = lines(existing);
    let (mut out, seen) = rewrite_lines(&old_lines, new);
    if !seen.servers {
        let line = new.servers.clone();
        proof {
            lemma_texts_insert(out@, 0, line);
        }
        out.insert(0, line);
    }
    if !seen.global_timer {
        match &new.global_timer {
            Some(g) => {
                let at: usize = if out.len() >= 1 {
                    1
                } else {
                    0
                };
                let line = g.clone();
                proof {
                    lemma_texts_insert(out@, at as int, line);
                }
                out.insert(at, line);
            },
            None => {},
        }
    }
    if !seen.chat_id {
        push_opt_line(&mut out, &new.chat_id);
    }
    if !seen.pair_code {
        push_opt_line(&mut out, &new.pair_code);
    }
    if !seen.pair_expires_at {
        push_opt_line(&mut out, &new.pair_expires_at);
    }
    proof {
        reveal_strlit("\n");
        assert("\n"@ =~= seq!['\n']);
    }
    let mut content = join(&out, "\n");
    content.push('\n');
    content
}

pub(crate) fn named_line(name: &str, value: &str) -> (r: String)
    ensures
        r@ == name@ + quoted(value@),
{
    let mut r = name.to_owned();
    let q = shell_single_quote(value);
    r.append(q.as_str());
    r
}

fn opt_named_line(name: &str, value: Option<&str>) -> (r: Option<String>)
    ensures
        match value {
            Some(v) => opt_text(r) == opt_line(name@, Some(v@)),
            None => r is None,
        },
{
    match value {
        Some(v) => Some(named_line(name, v)),
        None => None,
    }
}

pub fn config_lines(config: &AppConfig, servers_json: &str, timer_json: Option<&str>) -> (r:
    ConfigLines)
    ensures
        r@ == lines_for(config@, servers_json@, opt_str(timer_json)),
        config@.tg_pair_code matches Some(c) ==> valid_code(c),
{
    let global_timer = opt_named_line("BOIL_GLOBAL_TIMER=", timer_json);
    let chat_id = match &config.tg_chat_id {
        Some(c) => opt_named_line("TG_CHAT_ID=", Some(c.as_str())),
        None => None,
    };
    let pair_code = match &config.tg_pair_code {
        Some(c) => opt_named_line("TG_PAIR_CODE=", Some(c.expose_secret())),
        None => None,
    };
    let pair_expires_at = match config.tg_pair_expires_at {
        Some(t) => {
            let mut l = "TG_PAIR_EXPIRES_AT=".to_owned();
            let d = decimal_text(t);
            l.append(d.as_str());
            Some(l)
        },
        None => None,
    };
    ConfigLines {
        servers: named_line("BOIL_SERVERS=", servers_json),
        global_timer,
        chat_id,
        pair_code,
        pair_expires_at,
    }
}

pub open spec fn opt_str(o: Option<&str>) -> Option<Seq<char>> {
    match o {
        Some(s) => Some(s@),
        None => None,
    }
}

/// The text to save for a configuration, in a file that holds `existing`;
/// `servers_json` and `timer_json` are the JSON texts of its servers and of its global
/// timer. A configuration that is not valid is not saved.
pub fn save_app_config_content(
    config: &AppConfig,
    existing: &str,
    servers_json: &str,
    timer_json: Option<&str>,
) -> (r: Result<String, ConfigError>)
    ensures
        match r {
            Ok(text) => {
                &&& valid_servers(config@.servers)
                &&& valid_opt_timer(config@.global_timer)
                &&& text@ == merged_content(
                    existing@,
                    lines_for(config@, servers_json@, opt_str(timer_json)),
                )
                &&& config@.tg_pair_code matches Some(c) ==> valid_code(c)
            },
            Err(e) => if valid_servers(config@.servers) {
                !valid_opt_timer(config@.global_timer) && e@ == ConfigFault::GlobalTimerInvalid
            } else {
                is_servers_fault(config@.servers, e@)
            },
        },
{
    match validate_servers(config.servers.as_slice()) {
        Ok(_) => {},
        Err(e) => return Err(e),
    }
    match &config.global_timer {
        Some(t) => match validate_timer_config(t) {
            Ok(_) => {},
            Err(_) => return Err(ConfigError::GlobalTimerInvalid),
        },
        None => {},
    }
    let new = config_lines(config, servers_json, timer_json);
    Ok(merge_content(existing, &new))
}

} // verus!
