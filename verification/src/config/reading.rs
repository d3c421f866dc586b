//! What the lines of a configuration file and its variables say.

use vstd::prelude::*;
use crate::config::env_file::{quoted, vars_of_lines};
use crate::config::{
    config_with, is_described, is_servers_fault, valid_servers, var_value, ConfigFault,
    ConfigModel, ServerModel, TimerModel, VarModel,
};
use crate::number::parsed_unsigned;
use crate::text::parts::{first_occurrence_splits_in_two, occurrences_are_replaced};
use crate::text::{
    is_blank, is_space, lemma_trimmed_end_at, lemma_trimmed_start_at, rest, starts_with, trimmed,
    trimmed_start, upper_ascii, words_of,
};

verus! {

/// A name of letters, digits and underscores.
pub open spec fn is_name(name: Seq<char>) -> bool {
    &&& name.len() > 0
    &&& forall|i: int|
        0 <= i < name.len() ==> ('0' <= #[trigger] name[i] <= '9' || 'a' <= name[i] <= 'z' || 'A'
            <= name[i] <= 'Z' || name[i] == '_')
}

proof fn lemma_name_is_trimmed(name: Seq<char>)
    requires
        is_name(name),
    ensures
        trimmed(name) == name,
        trimmed_start(name) == name,
        crate::config::env_file::valid_name(name),
        forall|i: int| 0 <= i < name.len() ==> #[trigger] name[i] != '=',
        name[0] != '#',
        !is_space(name[0]),
{
    assert(!is_space(name[0]));
    assert(!is_space(name[name.len() - 1]));
    lemma_trimmed_start_at(name, 0);
    assert(name.subrange(0, name.len() as int) =~= name);
    lemma_trimmed_end_at(name, name.len() as int);
    assert forall|i: int| 0 <= i < name.len() implies crate::config::env_file::is_name_char(
        #[trigger] name[i],
    ) by {}
}

proof fn lemma_named(line: Seq<char>, name: Seq<char>, raw: Seq<char>)
    requires
        is_name(name),
        line == name + seq!['='] + raw,
    ensures
        trimmed_start(line) == line,
        line.len() > 0,
        line[0] != '#',
        crate::text::has_char(line, '='),
        trimmed(crate::text::before_first(line, '=')) == name,
        crate::text::after_first(line, '=') == raw,
{
    lemma_name_is_trimmed(name);
    assert(line[0] == name[0]);
    lemma_trimmed_start_at(line, 0);
    assert(line.subrange(0, line.len() as int) =~= line);
    first_occurrence_splits_in_two(name, '=', raw);
}

/// A line with a name, an equals sign and a value gives that variable with that value, with or
/// without double quotes around it. The variables of the next lines follow it.
pub proof fn line_gives_its_variable(
    lines: Seq<Seq<char>>,
    i: int,
    name: Seq<char>,
    value: Seq<char>,
)
    requires
        0 <= i < lines.len(),
        is_name(name),
    ensures
        ({
            let after = match vars_of_lines(lines, i + 1) {
                Ok(vars) => Ok(seq![(name, value)] + vars),
                Err(f) => Err(f),
            };
            &&& lines[i] == name + seq!['='] + value && (value.len() > 0 ==> !is_space(value[0])
                && !is_space(value.last()) && value[0] != '\'' && value[0] != '"')
                ==> vars_of_lines(lines, i) == after
            &&& lines[i] == name + seq!['='] + (seq!['"'] + value + seq!['"']) ==> vars_of_lines(
                lines,
                i,
            ) == after
        }),
{
    let line = lines[i];
    if line == name + seq!['='] + value && (value.len() > 0 ==> !is_space(value[0]) && !is_space(
        value.last(),
    ) && value[0] != '\'' && value[0] != '"') {
        lemma_named(line, name, value);
        lemma_name_is_trimmed(name);
        lemma_trimmed_start_at(value, 0);
        assert(value.subrange(0, value.len() as int) =~= value);
        lemma_trimmed_end_at(value, value.len() as int);
    }
    let wrapped = seq!['"'] + value + seq!['"'];
    if line == name + seq!['='] + wrapped {
        lemma_named(line, name, wrapped);
        lemma_name_is_trimmed(name);
        assert(wrapped[0] == '"' && wrapped.last() == '"');
        lemma_trimmed_start_at(wrapped, 0);
        assert(wrapped.subrange(0, wrapped.len() as int) =~= wrapped);
        assert(wrapped.subrange(1, wrapped.len() - 1) =~= value);
    }
}

proof fn lemma_blank_then(a: Seq<char>, s: Seq<char>)
    requires
        is_blank(a),
        s.len() > 0 ==> !is_space(s[0]),
    ensures
        trimmed_start(a + s) == s,
{
    let t = a + s;
    assert forall|i: int| 0 <= i < a.len() implies is_space(t[i]) by {
        assert(t[i] == a[i]);
        assert(is_space(a[i]));
    }
    if s.len() > 0 {
        assert(t[a.len() as int] == s[0]);
    }
    lemma_trimmed_start_at(t, a.len() as int);
    assert(t.subrange(a.len() as int, t.len() as int) =~= s);
}

proof fn lemma_then_blank(s: Seq<char>, b: Seq<char>)
    requires
        is_blank(b),
        s.len() > 0,
        !is_space(s[0]),
        !is_space(s.last()),
    ensures
        trimmed(s + b) == s,
        trimmed_start(s + b) == s + b,
{
    let t = s + b;
    let e = Seq::<char>::empty();
    assert(e + t =~= t);
    assert(t[0] == s[0]);
    lemma_blank_then(e, t);
    assert forall|i: int| s.len() <= i < t.len() implies is_space(t[i]) by {
        assert(t[i] == b[i - s.len()]);
        assert(is_space(b[i - s.len()]));
    }
    assert(t[s.len() - 1] == s.last());
    lemma_trimmed_end_at(t, s.len() as int);
    assert(t.subrange(0, s.len() as int) =~= s);
}

/// White space before and behind the name, and before and behind a value without quotes, is no
/// part of them.
pub proof fn white_space_is_no_part_of_a_variable(
    lines: Seq<Seq<char>>,
    i: int,
    before: Seq<char>,
    name: Seq<char>,
    behind: Seq<char>,
    gap: Seq<char>,
    value: Seq<char>,
    end: Seq<char>,
)
    requires
        0 <= i < lines.len(),
        is_name(name),
        is_blank(before),
        is_blank(behind),
        is_blank(gap),
        is_blank(end),
        value.len() > 0,
        !is_space(value[0]),
        !is_space(value.last()),
        value[0] != '\'',
        value[0] != '"',
        lines[i] == before + (name + behind + seq!['='] + (gap + (value + end))),
    ensures
        vars_of_lines(lines, i) == (match vars_of_lines(lines, i + 1) {
            Ok(vars) => Ok(seq![(name, value)] + vars),
            Err(f) => Err(f),
        }),
{
    lemma_name_is_trimmed(name);
    let key = name + behind;
    let raw = gap + (value + end);
    let t = key + seq!['='] + raw;
    assert(t[0] == name[0]);
    lemma_blank_then(before, t);
    assert forall|k: int| 0 <= k < key.len() implies #[trigger] key[k] != '=' by {
        if k < name.len() {
            assert(key[k] == name[k]);
        } else {
            assert(key[k] == behind[k - name.len()]);
            assert(is_space(behind[k - name.len()]));
        }
    }
    first_occurrence_splits_in_two(key, '=', raw);
    assert(name.last() == name[name.len() - 1]);
    lemma_then_blank(name, behind);
    let v = value + end;
    assert(v[0] == value[0]);
    lemma_blank_then(gap, v);
    lemma_then_blank(value, end);
}

/// A blank line and one that begins with a number sign say nothing. A line of another kind
/// without an equals sign is a fault, and so is one whose name is none; the fault has the number
/// of the line.
pub proof fn other_lines_give_no_variable(lines: Seq<Seq<char>>, i: int)
    requires
        0 <= i < lines.len(),
    ensures
        ({
            let t = trimmed_start(lines[i]);
            &&& t.len() == 0 || t[0] == '#' ==> vars_of_lines(lines, i) == vars_of_lines(
                lines,
                i + 1,
            )
            &&& t.len() > 0 && t[0] != '#' && (forall|k: int|
                0 <= k < t.len() ==> #[trigger] t[k] != '=') ==> vars_of_lines(lines, i) == Err::<
                Seq<VarModel>,
                _,
            >(ConfigFault::LineWithoutValue((i + 1) as nat))
            &&& t.len() > 0 && t[0] == '=' ==> vars_of_lines(lines, i) == Err::<Seq<VarModel>, _>(
                ConfigFault::LineWithBadName((i + 1) as nat),
            )
        }),
        vars_of_lines(Seq::empty(), 0) == Ok::<_, ConfigFault>(Seq::<VarModel>::empty()),
{
    let t = trimmed_start(lines[i]);
    crate::text::lemma_first_index(t, '=');
    if t.len() > 0 && t[0] == '=' {
        let more = rest(t, 1);
        assert(t =~= Seq::<char>::empty() + seq!['='] + more);
        first_occurrence_splits_in_two(Seq::empty(), '=', more);
        let e = Seq::<char>::empty();
        lemma_trimmed_start_at(e, 0);
        assert(trimmed(e) =~= e);
    }
}

/// A value is written for the shell: in single quotes, and each quote of its own as a closing
/// one, an escaped one and an opening one.
pub proof fn quotes_are_written_for_the_shell(a: Seq<char>, b: Seq<char>)
    requires
        forall|i: int| 0 <= i < a.len() ==> #[trigger] a[i] != '\'',
    ensures
        quoted(Seq::empty()) == seq!['\'', '\''],
        quoted(a + seq!['\''] + b) == seq!['\''] + a + seq!['\'', '\\', '\''] + quoted(b),
{
    let p = seq!['\''];
    let by = seq!['\'', '\\', '\'', '\''];
    let s = a + p + b;
    assert forall|i: int| 0 <= i < a.len() implies !starts_with(#[trigger] rest(s, i), p) by {
        assert(rest(s, i)[0] == a[i]);
        if starts_with(rest(s, i), p) {
            assert(rest(s, i).subrange(0, 1)[0] == '\'');
        }
    }
    occurrences_are_replaced(a, p, b, by);
    assert(quoted(s) =~= seq!['\''] + a + seq!['\'', '\\', '\''] + quoted(b));
    assert(quoted(Seq::empty()) =~= seq!['\'', '\'']);
}

/// The first variable with a name counts, and others do not.
pub proof fn first_variable_counts(vars: Seq<VarModel>, key: Seq<char>, i: int)
    ensures
        0 <= i < vars.len() && vars[i].0 == key && (forall|j: int|
            0 <= j < i ==> (#[trigger] vars[j]).0 != key) ==> var_value(vars, key) == Some(
            vars[i].1,
        ),
        (forall|j: int| 0 <= j < vars.len() ==> (#[trigger] vars[j]).0 != key) ==> var_value(
            vars,
            key,
        ) is None,
    decreases vars.len(),
{
    if vars.len() > 0 && vars[0].0 != key {
        let t = vars.subrange(1, vars.len() as int);
        first_variable_counts(t, key, i - 1);
        if 0 <= i < vars.len() && vars[i].0 == key && (forall|j: int|
            0 <= j < i ==> (#[trigger] vars[j]).0 != key) {
            assert(i > 0);
            assert(t[i - 1] == vars[i]);
            assert forall|j: int| 0 <= j < i - 1 implies (#[trigger] t[j]).0 != key by {
                assert(t[j] == vars[j + 1]);
            }
        }
        if forall|j: int| 0 <= j < vars.len() ==> (#[trigger] vars[j]).0 != key {
            assert forall|j: int| 0 <= j < t.len() implies (#[trigger] t[j]).0 != key by {
                assert(t[j] == vars[j + 1]);
            }
        }
    } else if vars.len() > 0 {
        if 0 < i < vars.len() {
            assert(vars[0].0 == key);
        }
    }
}

/// A setting that a variable gives is what it says: the token and the chat as they are, the
/// pairing code trimmed and in upper case, its end as a number, the global timer as it was
/// decoded. The waiting time is not among them.
pub proof fn settings_are_what_the_variables_say(
    vars: Seq<VarModel>,
    servers: Seq<ServerModel>,
    timer: Option<TimerModel>,
    notice: Option<Seq<char>>,
)
    ensures
        config_with(vars, servers, timer, notice) matches Ok(c) ==> {
            &&& c.servers == servers
            &&& c.tg_token == var_value(vars, "TG_TOKEN"@)
            &&& c.tg_chat_id == var_value(vars, "TG_CHAT_ID"@)
            &&& var_value(vars, "TG_PAIR_CODE"@) matches Some(v) ==> c.tg_pair_code == Some(
                upper_ascii(trimmed(v)),
            )
            &&& var_value(vars, "TG_PAIR_CODE"@) is None ==> c.tg_pair_code is None
            &&& var_value(vars, "TG_PAIR_EXPIRES_AT"@) matches Some(v) ==> (
            c.tg_pair_expires_at matches Some(t) && parsed_unsigned(trimmed(v), u64::MAX as nat)
                == Some(t as nat))
            &&& var_value(vars, "TG_PAIR_EXPIRES_AT"@) is None ==> c.tg_pair_expires_at is None
            &&& var_value(vars, "BOIL_GLOBAL_TIMER"@) is Some ==> timer is Some && c.global_timer
                == timer
            &&& var_value(vars, "BOIL_GLOBAL_TIMER"@) is None ==> c.global_timer is None
            &&& c.change_ip_cooldown is None
            &&& c.migration_notice == notice
        },
        config_with(vars, servers, timer, notice) is Ok <==> {
            &&& var_value(vars, "BOIL_GLOBAL_TIMER"@) matches Some(v) ==> !is_blank(v) && (
            timer matches Some(t) && (t.cron matches Some(cron) ==> words_of(cron).len() == 5))
            &&& var_value(vars, "TG_PAIR_CODE"@) matches Some(v) ==> !is_blank(v)
            &&& var_value(vars, "TG_PAIR_EXPIRES_AT"@) matches Some(v) ==> parsed_unsigned(
                trimmed(v),
                u64::MAX as nat,
            ) is Some
        },
{
}

/// The variables describe one configuration or one fault. With servers that are valid they
/// describe one with these servers and no notice; servers that are not are a fault, and so are
/// those that could not be decoded. Without them, the names of the account-based interface give
/// a configuration without servers and with a notice, and nothing gives a fault.
pub proof fn servers_are_what_the_variables_say(
    vars: Seq<VarModel>,
    servers: Option<Seq<ServerModel>>,
    timer: Option<TimerModel>,
    r: Result<ConfigModel, ConfigFault>,
)
    requires
        is_described(vars, servers, timer, r),
    ensures
        ({
            let legacy = var_value(vars, "BOIL_ACCOUNT"@) is Some || var_value(
                vars,
                "BOIL_PASSWORD"@,
            ) is Some || var_value(vars, "BOIL_ROUTER_ID"@) is Some || var_value(
                vars,
                "BOIL_INTERFACE"@,
            ) is Some;
            match var_value(vars, "BOIL_SERVERS"@) {
                Some(_) => {
                    &&& servers is None ==> r == Err::<ConfigModel, _>(ConfigFault::ServersJson)
                    &&& servers matches Some(m) ==> (valid_servers(m) ==> (r matches Ok(c)
                        ==> c.servers == m && c.migration_notice is None))
                    &&& servers matches Some(m) ==> (!valid_servers(m) ==> (r matches Err(f)
                        && is_servers_fault(m, f)))
                },
                None => {
                    &&& legacy ==> (r matches Ok(c) ==> c.servers.len() == 0 && c.migration_notice
                        is Some)
                    &&& !legacy ==> r == Err::<ConfigModel, _>(ConfigFault::MissingServers)
                },
            }
        }),
{
}

} // verus!
