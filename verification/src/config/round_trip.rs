//! What is saved is read back: the settings that were saved have their new values, and
//! all other variables of the file keep theirs.

use vstd::prelude::*;
use crate::config::env_file::{
    entry_end, has_kind, is_name_char, is_named, is_quoted, is_remark, items_of, key_of, kind_of,
    line_for, lines_for, merged_content, merged_lines, plain_value, push_opt, quote_tail, quoted,
    quoted_value, raw_of, rewritten, takes_rest, valid_name, vars_of, vars_of_lines,
    ConfigLinesModel, LineKind,
};
use crate::config::setup::setup_content;
use crate::config::{
    config_with, global_timer_of, is_described, pair_expiry_of, pairing_code_of, valid_code,
    valid_opt_timer, valid_servers, var_value, ConfigFault, ConfigModel, VarModel,
};
use crate::number::{decimal, decimal_reads_back, lemma_decimal_digits};
use crate::text::{
    after_first, before_first, first_index, has_char, is_blank, is_digit, is_space, joined,
    lemma_first_index, lemma_first_index_is, lemma_trimmed_end_at, lemma_trimmed_start_at,
    lines_of, replaced, rest, split_on, starts_with, trimmed_start, without_cr,
};

verus! {

pub open spec fn tail(ls: Seq<Seq<char>>) -> Seq<Seq<char>> {
    ls.subrange(1, ls.len() as int)
}

/// A quoted value that begins with `cur` and goes on in `ls`, and the lines behind it.
pub open spec fn quoted_in(cur: Seq<char>, ls: Seq<Seq<char>>) -> Option<
    (Seq<char>, Seq<Seq<char>>),
>
    decreases ls.len(), cur.len(),
{
    if has_char(cur, '\'') {
        let before = before_first(cur, '\'');
        let after = after_first(cur, '\'');
        if starts_with(after, quote_tail()) {
            match quoted_in(rest(after, 3), ls) {
                Some((v, more)) => Some((before.push('\'') + v, more)),
                None => None,
            }
        } else {
            Some((before, ls))
        }
    } else if ls.len() > 0 {
        match quoted_in(ls[0], tail(ls)) {
            Some((v, more)) => Some((cur.push('\n') + v, more)),
            None => None,
        }
    } else {
        None
    }
}

/// The variables of the lines, where all of them can be read.
pub open spec fn vars_in(ls: Seq<Seq<char>>) -> Option<Seq<VarModel>>
    decreases ls.len(),
{
    if ls.len() == 0 {
        Some(Seq::empty())
    } else if is_remark(ls[0]) {
        vars_in(tail(ls))
    } else if !is_named(ls[0]) {
        None
    } else if is_quoted(ls[0]) {
        match quoted_in(rest(raw_of(ls[0]), 1), tail(ls)) {
            None => None,
            Some((v, more)) => if more.len() < ls.len() {
                match vars_in(more) {
                    Some(m) => Some(seq![(key_of(ls[0]), v)] + m),
                    None => None,
                }
            } else {
                None
            },
        }
    } else {
        match vars_in(tail(ls)) {
            Some(m) => Some(seq![(key_of(ls[0]), plain_value(raw_of(ls[0])))] + m),
            None => None,
        }
    }
}

/// The setting that a variable of this name holds.
pub open spec fn key_kind(key: Seq<char>) -> LineKind {
    if key == "BOIL_SERVERS"@ {
        LineKind::Servers
    } else if key == "BOIL_GLOBAL_TIMER"@ {
        LineKind::GlobalTimer
    } else if key == "TG_CHAT_ID"@ {
        LineKind::ChatId
    } else if key == "TG_PAIR_CODE"@ {
        LineKind::PairCode
    } else if key == "TG_PAIR_EXPIRES_AT"@ {
        LineKind::PairExpiresAt
    } else {
        LineKind::Other
    }
}

/// Lines that can be read and in which the settings are written without white space in
/// front of the equals sign.
pub open spec fn regular_lines(ls: Seq<Seq<char>>) -> bool
    decreases ls.len(),
{
    if ls.len() == 0 {
        true
    } else if is_remark(ls[0]) {
        regular_lines(tail(ls))
    } else if !is_named(ls[0]) || key_kind(key_of(ls[0])) != kind_of(ls[0]) {
        false
    } else if is_quoted(ls[0]) {
        match quoted_in(rest(raw_of(ls[0]), 1), tail(ls)) {
            None => false,
            Some((v, more)) => more.len() < ls.len() && regular_lines(more),
        }
    } else {
        regular_lines(tail(ls))
    }
}

/// The lines, each without one carriage return at its end.
pub open spec fn without_crs(ls: Seq<Seq<char>>) -> Seq<Seq<char>> {
    Seq::new(ls.len(), |i: int| without_cr(ls[i]))
}

/// No line ends with a carriage return of its own.
pub open spec fn no_bare_cr(ls: Seq<Seq<char>>) -> bool {
    forall|i: int| 0 <= i < ls.len() ==> without_cr(#[trigger] ls[i]) == ls[i]
}

/// A value without a line end of the form `\r\n`.
pub open spec fn no_crlf(s: Seq<char>) -> bool {
    forall|i: int| 0 <= i < s.len() - 1 && s[i] == '\r' ==> #[trigger] s[i + 1] != '\n'
}

pub open spec fn no_crlf_opt(o: Option<Seq<char>>) -> bool {
    o matches Some(s) ==> no_crlf(s)
}

// ---------------------------------------------------------------------------
// Reading by position and reading by remaining lines are the same
// ---------------------------------------------------------------------------

spec fn from(ls: Seq<Seq<char>>, i: int) -> Seq<Seq<char>> {
    ls.subrange(i, ls.len() as int)
}

proof fn lemma_quoted_same(cur: Seq<char>, ls: Seq<Seq<char>>, i: int)
    requires
        0 <= i <= ls.len(),
    ensures
        match quoted_value(cur, ls, i) {
            Some((v, n)) => i <= n <= ls.len() && quoted_in(cur, from(ls, i)) == Some(
                (v, from(ls, n)),
            ),
            None => quoted_in(cur, from(ls, i)) is None,
        },
    decreases ls.len() - i, cur.len(),
{
    lemma_first_index(cur, '\'');
    if has_char(cur, '\'') {
        let after = after_first(cur, '\'');
        if starts_with(after, quote_tail()) {
            lemma_quoted_same(rest(after, 3), ls, i);
        }
    } else if i < ls.len() {
        lemma_quoted_same(ls[i], ls, i + 1);
        assert(from(ls, i)[0] == ls[i]);
        assert(tail(from(ls, i)) =~= from(ls, i + 1));
    }
}

proof fn lemma_vars_same(ls: Seq<Seq<char>>, i: int)
    requires
        0 <= i <= ls.len(),
    ensures
        match vars_of_lines(ls, i) {
            Ok(m) => vars_in(from(ls, i)) == Some(m),
            Err(_) => vars_in(from(ls, i)) is None,
        },
    decreases ls.len() - i,
{
    if i < ls.len() {
        assert(from(ls, i)[0] == ls[i]);
        assert(tail(from(ls, i)) =~= from(ls, i + 1));
        lemma_vars_same(ls, i + 1);
        if !is_remark(ls[i]) && is_named(ls[i]) && is_quoted(ls[i]) {
            lemma_quoted_same(rest(raw_of(ls[i]), 1), ls, i + 1);
            match quoted_value(rest(raw_of(ls[i]), 1), ls, i + 1) {
                Some((v, n)) => {
                    lemma_vars_same(ls, n);
                },
                None => {},
            }
        }
    }
}

/// The lines behind the first entry of `ls`.
spec fn entry_rest(ls: Seq<Seq<char>>) -> Seq<Seq<char>> {
    let l = ls[0];
    if !is_remark(l) && is_named(l) && is_quoted(l) {
        match quoted_in(rest(raw_of(l), 1), tail(ls)) {
            Some((v, more)) => more,
            None => if takes_rest(kind_of(l)) {
                Seq::empty()
            } else {
                tail(ls)
            },
        }
    } else {
        tail(ls)
    }
}

/// The lines of the first entry of `ls`, where those behind it are `more`.
spec fn own_lines(ls: Seq<Seq<char>>, more: Seq<Seq<char>>) -> Seq<Seq<char>> {
    ls.subrange(0, ls.len() - more.len())
}

/// The entries of the file by what they are about, by remaining lines.
spec fn items_in(ls: Seq<Seq<char>>) -> Seq<(LineKind, Seq<char>)>
    decreases ls.len(),
{
    if ls.len() == 0 {
        Seq::empty()
    } else {
        let more = entry_rest(ls);
        if more.len() < ls.len() {
            seq![(kind_of(ls[0]), joined(own_lines(ls, more), seq!['\n']))] + items_in(more)
        } else {
            Seq::empty()
        }
    }
}

proof fn lemma_items_same(ls: Seq<Seq<char>>, i: int)
    requires
        0 <= i <= ls.len(),
    ensures
        items_of(ls, i) == items_in(from(ls, i)),
    decreases ls.len() - i,
{
    if i < ls.len() {
        let l = ls[i];
        assert(from(ls, i)[0] == l);
        assert(tail(from(ls, i)) =~= from(ls, i + 1));
        assert(from(ls, ls.len() as int) =~= Seq::empty());
        lemma_quoted_same(rest(raw_of(l), 1), ls, i + 1);
        let n = entry_end(ls, i);
        assert(entry_rest(from(ls, i)) == from(ls, n));
        assert(own_lines(from(ls, i), from(ls, n)) =~= ls.subrange(i, n));
        lemma_items_same(ls, n);
    }
}

// ---------------------------------------------------------------------------
// Entries one after the other
// ---------------------------------------------------------------------------

/// A quoted value that ends within `a` is the same whatever follows, and what is
/// behind it is the end of `a`.
proof fn lemma_quoted_append(cur: Seq<char>, a: Seq<Seq<char>>, b: Seq<Seq<char>>)
    ensures
        quoted_in(cur, a) matches Some((v, more)) ==> {
            &&& more.len() <= a.len()
            &&& more == a.subrange(a.len() - more.len(), a.len() as int)
            &&& quoted_in(cur, a + b) == Some((v, more + b))
        },
    decreases a.len(), cur.len(),
{
    lemma_first_index(cur, '\'');
    if has_char(cur, '\'') {
        let after = after_first(cur, '\'');
        if starts_with(after, quote_tail()) {
            lemma_quoted_append(rest(after, 3), a, b);
        } else {
            assert(a.subrange(0, a.len() as int) =~= a);
        }
    } else if a.len() > 0 {
        lemma_quoted_append(a[0], tail(a), b);
        assert((a + b)[0] == a[0]);
        assert(tail(a + b) =~= tail(a) + b);
        match quoted_in(a[0], tail(a)) {
            Some((v, more)) => {
                assert(tail(a).subrange(tail(a).len() - more.len(), tail(a).len() as int)
                    =~= a.subrange(a.len() - more.len(), a.len() as int));
            },
            None => {},
        }
    }
}

/// A quoted value can be read from its own lines alone.
proof fn lemma_quoted_prefix(cur: Seq<char>, ls: Seq<Seq<char>>)
    ensures
        quoted_in(cur, ls) matches Some((v, more)) ==> quoted_in(
            cur,
            ls.subrange(0, ls.len() - more.len()),
        ) == Some((v, Seq::<Seq<char>>::empty())),
    decreases ls.len(), cur.len(),
{
    lemma_first_index(cur, '\'');
    lemma_quoted_append(cur, ls, Seq::empty());
    if has_char(cur, '\'') {
        let after = after_first(cur, '\'');
        if starts_with(after, quote_tail()) {
            lemma_quoted_prefix(rest(after, 3), ls);
        } else {
            assert(ls.subrange(0, 0) =~= Seq::empty());
        }
    } else if ls.len() > 0 {
        lemma_quoted_append(ls[0], tail(ls), Seq::empty());
        lemma_quoted_prefix(ls[0], tail(ls));
        match quoted_in(ls[0], tail(ls)) {
            Some((v, more)) => {
                let own = ls.subrange(0, ls.len() - more.len());
                assert(own[0] == ls[0]);
                assert(tail(own) =~= tail(ls).subrange(0, tail(ls).len() - more.len()));
            },
            None => {},
        }
    }
}

/// Where `a` can be read, what follows it does not change that.
proof fn lemma_vars_append(a: Seq<Seq<char>>, b: Seq<Seq<char>>)
    ensures
        vars_in(a) matches Some(m) ==> match vars_in(b) {
            Some(n) => vars_in(a + b) == Some(m + n),
            None => vars_in(a + b) is None,
        },
    decreases a.len(),
{
    if a.len() == 0 {
        assert(a + b =~= b);
        match vars_in(b) {
            Some(n) => {
                assert(Seq::<VarModel>::empty() + n =~= n);
            },
            None => {},
        }
    } else {
        assert((a + b)[0] == a[0]);
        assert(tail(a + b) =~= tail(a) + b);
        lemma_vars_append(tail(a), b);
        if !is_remark(a[0]) && is_named(a[0]) {
            if is_quoted(a[0]) {
                lemma_quoted_append(rest(raw_of(a[0]), 1), tail(a), b);
                match quoted_in(rest(raw_of(a[0]), 1), tail(a)) {
                    Some((v, more)) => {
                        lemma_vars_append(more, b);
                        match (vars_in(more), vars_in(b)) {
                            (Some(m), Some(n)) => {
                                assert((seq![(key_of(a[0]), v)] + m) + n =~= seq![(key_of(a[0]), v)]
                                    + (m + n));
                            },
                            _ => {},
                        }
                    },
                    None => {},
                }
            } else {
                match (vars_in(tail(a)), vars_in(b)) {
                    (Some(m), Some(n)) => {
                        let x = (key_of(a[0]), plain_value(raw_of(a[0])));
                        assert((seq![x] + m) + n =~= seq![x] + (m + n));
                    },
                    _ => {},
                }
            }
        }
    }
}

// ---------------------------------------------------------------------------
// Lines out of joined parts
// ---------------------------------------------------------------------------

/// The lines that the parts are, each part split at its line ends.
spec fn flat(parts: Seq<Seq<char>>) -> Seq<Seq<char>>
    decreases parts.len(),
{
    if parts.len() == 0 {
        Seq::empty()
    } else {
        flat(parts.drop_last()) + split_on(parts.last(), '\n')
    }
}

proof fn lemma_flat_append(a: Seq<Seq<char>>, b: Seq<Seq<char>>)
    ensures
        flat(a + b) == flat(a) + flat(b),
    decreases b.len(),
{
    if b.len() == 0 {
        assert(a + b =~= a);
        assert(flat(a) + flat(b) =~= flat(a));
    } else {
        assert((a + b).drop_last() =~= a + b.drop_last());
        lemma_flat_append(a, b.drop_last());
        assert((flat(a) + flat(b.drop_last())) + split_on(b.last(), '\n') =~= flat(a) + flat(b));
    }
}

proof fn lemma_flat_one(p: Seq<char>)
    ensures
        flat(seq![p]) == split_on(p, '\n'),
{
    assert(seq![p].drop_last() =~= Seq::empty());
    assert(flat(Seq::empty()) =~= Seq::empty());
    assert(flat(seq![p]) =~= split_on(p, '\n'));
}

/// What follows the last line end of `p`.
proof fn lemma_split_concat(p: Seq<char>, q: Seq<char>)
    ensures
        split_on(p + seq!['\n'] + q, '\n') == split_on(p, '\n') + split_on(q, '\n'),
    decreases p.len(),
{
    let s = p + seq!['\n'] + q;
    lemma_first_index(p, '\n');
    let n = first_index(p, '\n') as int;
    assert(s[p.len() as int] == '\n');
    if n < p.len() {
        lemma_first_index_is(s, '\n', n);
        assert(before_first(s, '\n') =~= before_first(p, '\n'));
        assert(after_first(s, '\n') =~= after_first(p, '\n') + seq!['\n'] + q);
        lemma_split_concat(after_first(p, '\n'), q);
        assert(split_on(s, '\n') =~= split_on(p, '\n') + split_on(q, '\n'));
    } else {
        assert forall|i: int| 0 <= i < p.len() implies s[i] != '\n' by {
            assert(s[i] == p[i]);
        }
        lemma_first_index_is(s, '\n', p.len() as int);
        assert(before_first(s, '\n') =~= p);
        assert(after_first(s, '\n') =~= q);
    }
}

proof fn lemma_joined_split(parts: Seq<Seq<char>>)
    requires
        parts.len() > 0,
    ensures
        split_on(joined(parts, seq!['\n']), '\n') == flat(parts),
    decreases parts.len(),
{
    if parts.len() == 1 {
        assert(parts =~= seq![parts[0]]);
        lemma_flat_one(parts[0]);
    } else {
        lemma_joined_split(parts.drop_last());
        lemma_split_concat(joined(parts.drop_last(), seq!['\n']), parts.last());
    }
}

/// The lines of a text that ends with a line end are its parts between line ends, each
/// without a carriage return at its end.
proof fn lemma_lines_of_split(s: Seq<char>)
    ensures
        lines_of(s.push('\n')) == without_crs(split_on(s, '\n')),
    decreases s.len(),
{
    let t = s.push('\n');
    lemma_first_index(s, '\n');
    let n = first_index(s, '\n') as int;
    let parts = split_on(s, '\n');
    if n < s.len() {
        lemma_first_index_is(t, '\n', n);
        let u = after_first(s, '\n');
        assert(before_first(t, '\n') =~= before_first(s, '\n'));
        assert(after_first(t, '\n') =~= u.push('\n'));
        lemma_lines_of_split(u);
        assert(seq![without_cr(before_first(s, '\n'))] + without_crs(split_on(u, '\n'))
            =~= without_crs(parts));
    } else {
        assert forall|i: int| 0 <= i < s.len() implies t[i] != '\n' by {
            assert(t[i] == s[i]);
        }
        lemma_first_index_is(t, '\n', n);
        assert(before_first(t, '\n') =~= s);
        assert(after_first(t, '\n') =~= Seq::empty());
        assert(lines_of(Seq::empty()) =~= Seq::empty());
        assert(seq![without_cr(s)] + Seq::<Seq<char>>::empty() =~= without_crs(parts));
    }
}

proof fn lemma_without_crs(ls: Seq<Seq<char>>)
    ensures
        no_bare_cr(ls) ==> without_crs(ls) == ls,
{
    if no_bare_cr(ls) {
        assert(without_crs(ls) =~= ls);
    }
}

spec fn no_newline(ls: Seq<Seq<char>>) -> bool {
    forall|i: int| 0 <= i < ls.len() ==> !has_char(#[trigger] ls[i], '\n')
}

/// The lines of a text hold no line end.
proof fn lemma_lines_have_no_newline(s: Seq<char>)
    ensures
        no_newline(lines_of(s)),
    decreases s.len(),
{
    if s.len() > 0 {
        lemma_first_index(s, '\n');
        if has_char(s, '\n') {
            let b = before_first(s, '\n');
            let l = without_cr(b);
            lemma_first_index(l, '\n');
            assert(!has_char(l, '\n')) by {
                if has_char(l, '\n') {
                    let i = first_index(l, '\n') as int;
                    assert(l[i] == s[i]);
                }
            }
            let more = lines_of(after_first(s, '\n'));
            lemma_lines_have_no_newline(after_first(s, '\n'));
            assert forall|i: int| 0 <= i < lines_of(s).len() implies !has_char(
                #[trigger] lines_of(s)[i],
                '\n',
            ) by {
                if i > 0 {
                    assert(lines_of(s)[i] == more[i - 1]);
                }
            }
        }
    }
}

// ---------------------------------------------------------------------------
// A new line is read back
// ---------------------------------------------------------------------------

spec fn escaped(v: Seq<char>) -> Seq<char> {
    replaced(v, seq!['\''], seq!['\'', '\\', '\'', '\''])
}

/// The lines of a quoted value behind its opening quote.
spec fn value_lines(v: Seq<char>) -> Seq<Seq<char>> {
    split_on(escaped(v).push('\''), '\n')
}

proof fn lemma_escaped_step(v: Seq<char>)
    requires
        v.len() > 0,
    ensures
        escaped(v) == (if v[0] == '\'' {
            seq!['\'', '\\', '\'', '\'']
        } else {
            seq![v[0]]
        }) + escaped(rest(v, 1)),
{
    let p = seq!['\''];
    if v[0] == '\'' {
        assert(v.subrange(0, 1) =~= p);
    } else {
        assert(v.subrange(0, 1)[0] == v[0]);
        assert(!starts_with(v, p));
    }
}

/// Putting a text without line ends in front changes the first part only.
proof fn lemma_split_front(p: Seq<char>, s: Seq<char>)
    requires
        forall|i: int| 0 <= i < p.len() ==> p[i] != '\n',
    ensures
        split_on(s, '\n').len() > 0,
        split_on(p + s, '\n') == seq![p + split_on(s, '\n')[0]] + tail(split_on(s, '\n')),
{
    lemma_first_index(s, '\n');
    let n = first_index(s, '\n') as int;
    let t = p + s;
    assert forall|i: int| 0 <= i < p.len() + n implies t[i] != '\n' by {
        if i < p.len() {
            assert(t[i] == p[i]);
        } else {
            assert(t[i] == s[i - p.len()]);
        }
    }
    if n < s.len() {
        assert(t[p.len() + n] == s[n]);
    }
    lemma_first_index_is(t, '\n', p.len() + n);
    if n < s.len() {
        assert(before_first(t, '\n') =~= p + before_first(s, '\n'));
        assert(after_first(t, '\n') =~= after_first(s, '\n'));
        assert(tail(split_on(s, '\n')) =~= split_on(after_first(s, '\n'), '\n'));
    } else {
        assert(tail(split_on(s, '\n')) =~= Seq::empty());
        assert(split_on(t, '\n') =~= seq![p + s] + Seq::<Seq<char>>::empty());
    }
}

/// An ordinary character in front of a quoted value is its first character.
proof fn lemma_quoted_front(c: char, cur: Seq<char>, ls: Seq<Seq<char>>)
    requires
        c != '\'',
    ensures
        match quoted_in(cur, ls) {
            Some((v, more)) => quoted_in(seq![c] + cur, ls) == Some((seq![c] + v, more)),
            None => quoted_in(seq![c] + cur, ls) is None,
        },
{
    let d = seq![c] + cur;
    lemma_first_index(cur, '\'');
    let n = first_index(cur, '\'') as int;
    assert forall|i: int| 0 <= i < n + 1 implies d[i] != '\'' by {
        if i > 0 {
            assert(d[i] == cur[i - 1]);
        }
    }
    if n < cur.len() {
        assert(d[n + 1] == cur[n]);
    }
    lemma_first_index_is(d, '\'', n + 1);
    if n < cur.len() {
        assert(before_first(d, '\'') =~= seq![c] + before_first(cur, '\''));
        assert(after_first(d, '\'') =~= after_first(cur, '\''));
        if starts_with(after_first(cur, '\''), quote_tail()) {
            match quoted_in(rest(after_first(cur, '\''), 3), ls) {
                Some((v, more)) => {
                    assert((seq![c] + before_first(cur, '\'')).push('\'') + v =~= seq![c] + (
                    before_first(cur, '\'').push('\'') + v));
                },
                None => {},
            }
        }
    } else if ls.len() > 0 {
        match quoted_in(ls[0], tail(ls)) {
            Some((v, more)) => {
                assert(d.push('\n') + v =~= seq![c] + (cur.push('\n') + v));
            },
            None => {},
        }
    }
}

/// A value in quotes is read back, whatever its characters are.
proof fn lemma_value_lines(v: Seq<char>)
    ensures
        value_lines(v).len() > 0,
        quoted_in(value_lines(v)[0], tail(value_lines(v))) == Some(
            (v, Seq::<Seq<char>>::empty()),
        ),
    decreases v.len(),
{
    let ls = value_lines(v);
    if v.len() == 0 {
        let s = escaped(v).push('\'');
        assert(s =~= seq!['\'']);
        lemma_first_index_is(s, '\n', 1);
        assert(ls =~= seq![s]);
        lemma_first_index_is(s, '\'', 0);
        assert(before_first(s, '\'') =~= v);
        assert(after_first(s, '\'') =~= Seq::empty());
        assert(tail(ls) =~= Seq::empty());
    } else {
        let w = rest(v, 1);
        let ms = value_lines(w);
        lemma_value_lines(w);
        lemma_escaped_step(v);
        let s = escaped(w).push('\'');
        if v[0] == '\'' {
            let p = seq!['\'', '\\', '\'', '\''];
            assert(escaped(v).push('\'') =~= p + s);
            lemma_split_front(p, s);
            assert(ls[0] == p + ms[0]);
            assert(tail(ls) =~= tail(ms));
            lemma_first_index_is(ls[0], '\'', 0);
            assert(before_first(ls[0], '\'') =~= Seq::empty());
            let after = after_first(ls[0], '\'');
            assert(after =~= quote_tail() + ms[0]);
            assert(after.subrange(0, 3) =~= quote_tail());
            assert(rest(after, 3) =~= ms[0]);
            assert(Seq::<char>::empty().push('\'') + w =~= v);
        } else if v[0] == '\n' {
            assert(escaped(v).push('\'') =~= Seq::<char>::empty() + seq!['\n'] + s);
            lemma_split_concat(Seq::empty(), s);
            let e = Seq::<char>::empty();
            assert(split_on(e, '\n') =~= seq![e]);
            assert(ls =~= seq![e] + ms);
            assert(ls[0] == e);
            assert(tail(ls) =~= ms);
            assert(!has_char(e, '\''));
            assert(e.push('\n') + w =~= v);
        } else {
            let p = seq![v[0]];
            assert(escaped(v).push('\'') =~= p + s);
            lemma_split_front(p, s);
            assert(ls[0] == p + ms[0]);
            assert(tail(ls) =~= tail(ms));
            lemma_quoted_front(v[0], ms[0], tail(ms));
            assert(p + w =~= v);
        }
    }
}

/// The first line of a setting: its name, the equals sign, and what follows.
proof fn lemma_named_line(name: Seq<char>, r: Seq<char>)
    requires
        valid_name(name),
        r.len() > 0 ==> !is_space(r[0]),
    ensures
        !is_remark(name + seq!['='] + r),
        is_named(name + seq!['='] + r),
        key_of(name + seq!['='] + r) == name,
        raw_of(name + seq!['='] + r) == r,
{
    let l = name + seq!['='] + r;
    assert(l[0] == name[0]);
    assert(is_name_char(name[0]));
    lemma_trimmed_start_at(l, 0);
    assert(l.subrange(0, l.len() as int) =~= l);
    assert forall|i: int| 0 <= i < name.len() implies l[i] != '=' by {
        assert(l[i] == name[i]);
        assert(is_name_char(name[i]));
    }
    assert(l[name.len() as int] == '=');
    lemma_first_index_is(l, '=', name.len() as int);
    assert(before_first(l, '=') =~= name);
    assert(after_first(l, '=') =~= r);
    lemma_trimmed_start_at(name, 0);
    assert(name.subrange(0, name.len() as int) =~= name);
    assert(is_name_char(name.last()));
    lemma_trimmed_end_at(name, name.len() as int);
    lemma_trimmed_start_at(r, 0);
    assert(r.subrange(0, r.len() as int) =~= r);
}

/// A line `NAME='value'` gives the variable with this name and this value.
proof fn lemma_quoted_line(name: Seq<char>, v: Seq<char>)
    requires
        valid_name(name),
        no_crlf(v),
    ensures
        vars_in(split_on(name + seq!['='] + quoted(v), '\n')) == Some(seq![(name, v)]),
        no_bare_cr(split_on(name + seq!['='] + quoted(v), '\n')),
{
    let s = escaped(v).push('\'');
    let p = name + seq!['=', '\''];
    assert(name + seq!['='] + quoted(v) =~= p + s);
    assert forall|i: int| 0 <= i < p.len() implies p[i] != '\n' by {
        if i < name.len() {
            assert(p[i] == name[i]);
            assert(is_name_char(name[i]));
        }
    }
    lemma_split_front(p, s);
    lemma_value_lines(v);
    let vs = value_lines(v);
    let ls = split_on(p + s, '\n');
    let r = seq!['\''] + vs[0];
    assert(ls[0] =~= name + seq!['='] + r);
    assert(tail(ls) =~= tail(vs));
    assert(r[0] == '\'');
    lemma_named_line(name, r);
    assert(rest(r, 1) =~= vs[0]);
    assert(vars_in(Seq::empty()) == Some(Seq::<VarModel>::empty()));
    assert(seq![(name, v)] + Seq::<VarModel>::empty() =~= seq![(name, v)]);
    lemma_value_lines_cr(v);
    assert forall|i: int| 0 <= i < ls.len() implies without_cr(#[trigger] ls[i]) == ls[i] by {
        if i == 0 {
            if vs[0].len() > 0 {
                assert(ls[0].last() == vs[0].last());
                assert(without_cr(vs[0]) == vs[0]);
            } else {
                assert(ls[0].last() == '\'');
            }
        } else {
            assert(ls[i] == tail(vs)[i - 1]);
            assert(tail(vs)[i - 1] == vs[i]);
        }
    }
}

/// No line of a value without `\r\n` ends with a carriage return.
proof fn lemma_value_lines_cr(v: Seq<char>)
    requires
        no_crlf(v),
    ensures
        no_bare_cr(value_lines(v)),
        v.len() > 0 && v[0] == '\n' ==> value_lines(v)[0].len() == 0,
        !(v.len() > 0 && v[0] == '\n') ==> value_lines(v).len() > 0 && value_lines(v)[0].len() > 0,
    decreases v.len(),
{
    let ls = value_lines(v);
    if v.len() == 0 {
        let s = escaped(v).push('\'');
        assert(s =~= seq!['\'']);
        lemma_first_index_is(s, '\n', 1);
        assert(ls =~= seq![s]);
        assert(s.last() == '\'');
    } else {
        let w = rest(v, 1);
        let ms = value_lines(w);
        assert forall|i: int| 0 <= i < w.len() - 1 && w[i] == '\r' implies #[trigger] w[i + 1]
            != '\n' by {
            assert(v[i + 1] == w[i]);
            assert(v[i + 2] == w[i + 1]);
            assert(v[(i + 1) + 1] == w[i + 1]);
        }
        lemma_value_lines_cr(w);
        lemma_value_lines(w);
        lemma_escaped_step(v);
        let s = escaped(w).push('\'');
        if v[0] == '\n' {
            let e = Seq::<char>::empty();
            assert(escaped(v).push('\'') =~= e + seq!['\n'] + s);
            lemma_split_concat(e, s);
            assert(split_on(e, '\n') =~= seq![e]);
            assert(ls =~= seq![e] + ms);
            assert forall|i: int| 0 <= i < ls.len() implies without_cr(#[trigger] ls[i]) == ls[i] by {
                if i > 0 {
                    assert(ls[i] == ms[i - 1]);
                }
            }
        } else {
            let p = if v[0] == '\'' {
                seq!['\'', '\\', '\'', '\'']
            } else {
                seq![v[0]]
            };
            assert(escaped(v).push('\'') =~= p + s);
            lemma_split_front(p, s);
            assert forall|i: int| 0 <= i < ls.len() implies without_cr(#[trigger] ls[i]) == ls[i] by {
                if i == 0 {
                    assert(ls[0] == p + ms[0]);
                    if ms[0].len() > 0 {
                        assert(ls[0].last() == ms[0].last());
                        assert(without_cr(ms[0]) == ms[0]);
                    } else {
                        assert(w.len() > 0 && w[0] == '\n');
                        assert(v[0int + 1] == w[0]);
                        assert(ls[0].last() == p.last());
                    }
                } else {
                    assert(ls[i] == tail(ms)[i - 1]);
                    assert(tail(ms)[i - 1] == ms[i]);
                }
            }
        }
    }
}

/// A line `NAME=number` gives the variable with this name and the digits.
proof fn lemma_number_line(name: Seq<char>, n: nat)
    requires
        valid_name(name),
    ensures
        vars_in(split_on(name + seq!['='] + decimal(n), '\n')) == Some(seq![(name, decimal(n))]),
        no_bare_cr(split_on(name + seq!['='] + decimal(n), '\n')),
{
    let d = decimal(n);
    let l = name + seq!['='] + d;
    lemma_decimal_digits(n);
    assert(is_digit(d[0]));
    assert(is_digit(d.last()));
    lemma_named_line(name, d);
    assert forall|i: int| 0 <= i < l.len() implies l[i] != '\n' by {
        if i < name.len() {
            assert(l[i] == name[i]);
            assert(is_name_char(name[i]));
        } else if i > name.len() {
            assert(l[i] == d[i - name.len() - 1]);
            assert(is_digit(d[i - name.len() - 1]));
        }
    }
    lemma_first_index_is(l, '\n', l.len() as int);
    let ls = split_on(l, '\n');
    assert(ls =~= seq![l]);
    assert(tail(ls) =~= Seq::empty());
    lemma_trimmed_start_at(d, 0);
    assert(d.subrange(0, d.len() as int) =~= d);
    lemma_trimmed_end_at(d, d.len() as int);
    assert(plain_value(d) == d);
    assert(vars_in(Seq::empty()) == Some(Seq::<VarModel>::empty()));
    assert(seq![(name, d)] + Seq::<VarModel>::empty() =~= seq![(name, d)]);
    assert(l.last() == d.last());
}

// ---------------------------------------------------------------------------
// The old entries with the new ones in their places
// ---------------------------------------------------------------------------

/// The values that are saved; `None` for a setting that there is none of.
pub struct NewValues {
    pub servers: Seq<char>,
    pub global_timer: Option<Seq<char>>,
    pub chat_id: Option<Seq<char>>,
    pub pair_code: Option<Seq<char>>,
    pub pair_expires_at: Option<Seq<char>>,
}

spec fn new_value(nv: NewValues, k: LineKind) -> Option<Seq<char>> {
    match k {
        LineKind::Servers => Some(nv.servers),
        LineKind::GlobalTimer => nv.global_timer,
        LineKind::ChatId => nv.chat_id,
        LineKind::PairCode => nv.pair_code,
        LineKind::PairExpiresAt => nv.pair_expires_at,
        LineKind::Other => None,
    }
}

spec fn new_line(new: ConfigLinesModel, k: LineKind) -> Option<Seq<char>> {
    match k {
        LineKind::Servers => Some(new.servers),
        LineKind::GlobalTimer => new.global_timer,
        LineKind::ChatId => new.chat_id,
        LineKind::PairCode => new.pair_code,
        LineKind::PairExpiresAt => new.pair_expires_at,
        LineKind::Other => None,
    }
}

spec fn name_of(k: LineKind) -> Seq<char> {
    match k {
        LineKind::Servers => "BOIL_SERVERS"@,
        LineKind::GlobalTimer => "BOIL_GLOBAL_TIMER"@,
        LineKind::ChatId => "TG_CHAT_ID"@,
        LineKind::PairCode => "TG_PAIR_CODE"@,
        LineKind::PairExpiresAt => "TG_PAIR_EXPIRES_AT"@,
        LineKind::Other => Seq::empty(),
    }
}

/// Each new line is one entry, with the new value.
spec fn lines_give(new: ConfigLinesModel, nv: NewValues) -> bool {
    forall|k: LineKind|
        match #[trigger] new_line(new, k) {
            Some(l) => new_value(nv, k) is Some && vars_in(split_on(l, '\n')) == Some(
                seq![(name_of(k), new_value(nv, k).unwrap())],
            ) && no_bare_cr(split_on(l, '\n')),
            None => new_value(nv, k) is None,
        }
}

proof fn lemma_names()
    ensures
        forall|k: LineKind| k != LineKind::Other ==> #[trigger] key_kind(name_of(k)) == k,
        forall|k: LineKind| k != LineKind::Other ==> valid_name(#[trigger] name_of(k)),
        forall|key: Seq<char>|
            key_kind(key) != LineKind::Other ==> key == name_of(#[trigger] key_kind(key)),
{
    reveal_strlit("BOIL_SERVERS");
    reveal_strlit("BOIL_GLOBAL_TIMER");
    reveal_strlit("TG_CHAT_ID");
    reveal_strlit("TG_PAIR_CODE");
    reveal_strlit("TG_PAIR_EXPIRES_AT");
    assert("BOIL_SERVERS"@.len() == 12 && "BOIL_SERVERS"@[0] == 'B');
    assert("BOIL_GLOBAL_TIMER"@.len() == 17);
    assert("TG_CHAT_ID"@.len() == 10);
    assert("TG_PAIR_CODE"@.len() == 12 && "TG_PAIR_CODE"@[0] == 'T');
    assert("TG_PAIR_EXPIRES_AT"@.len() == 18);
}

/// A remark is never a setting.
proof fn lemma_remark_kind(line: Seq<char>)
    requires
        is_remark(line),
    ensures
        kind_of(line) == LineKind::Other,
{
    reveal_strlit("BOIL_SERVERS=");
    reveal_strlit("BOIL_GLOBAL_TIMER=");
    reveal_strlit("TG_CHAT_ID=");
    reveal_strlit("TG_PAIR_CODE=");
    reveal_strlit("TG_PAIR_EXPIRES_AT=");
    let t = trimmed_start(line);
    if starts_with(t, "BOIL_SERVERS="@) {
        assert(t[0] == t.subrange(0, "BOIL_SERVERS="@.len() as int)[0]);
    }
    if starts_with(t, "BOIL_GLOBAL_TIMER="@) {
        assert(t[0] == t.subrange(0, "BOIL_GLOBAL_TIMER="@.len() as int)[0]);
    }
    if starts_with(t, "TG_CHAT_ID="@) {
        assert(t[0] == t.subrange(0, "TG_CHAT_ID="@.len() as int)[0]);
    }
    if starts_with(t, "TG_PAIR_CODE="@) {
        assert(t[0] == t.subrange(0, "TG_PAIR_CODE="@.len() as int)[0]);
    }
    if starts_with(t, "TG_PAIR_EXPIRES_AT="@) {
        assert(t[0] == t.subrange(0, "TG_PAIR_EXPIRES_AT="@.len() as int)[0]);
    }
}

spec fn updated_var(x: VarModel, nv: NewValues) -> Seq<VarModel> {
    let k = key_kind(x.0);
    match new_value(nv, k) {
        Some(v) => seq![(x.0, v)],
        None => if k == LineKind::Other || k == LineKind::ChatId {
            seq![x]
        } else {
            Seq::empty()
        },
    }
}

spec fn updated_vars(vars: Seq<VarModel>, nv: NewValues) -> Seq<VarModel>
    decreases vars.len(),
{
    if vars.len() == 0 {
        Seq::empty()
    } else {
        updated_var(vars[0], nv) + updated_vars(vars.subrange(1, vars.len() as int), nv)
    }
}

proof fn lemma_updated_cons(x: VarModel, vars: Seq<VarModel>, nv: NewValues)
    ensures
        updated_vars(seq![x] + vars, nv) == updated_var(x, nv) + updated_vars(vars, nv),
{
    let s = seq![x] + vars;
    assert(s.subrange(1, s.len() as int) =~= vars);
}

proof fn lemma_rewritten_append(
    a: Seq<(LineKind, Seq<char>)>,
    b: Seq<(LineKind, Seq<char>)>,
    new: ConfigLinesModel,
)
    ensures
        rewritten(a + b, new) == rewritten(a, new) + rewritten(b, new),
    decreases b.len(),
{
    if b.len() == 0 {
        assert(a + b =~= a);
        assert(rewritten(a, new) + rewritten(b, new) =~= rewritten(a, new));
    } else {
        assert((a + b).drop_last() =~= a + b.drop_last());
        lemma_rewritten_append(a, b.drop_last(), new);
        match line_for(b.last(), new) {
            Some(l) => {
                assert((rewritten(a, new) + rewritten(b.drop_last(), new)).push(l) =~= rewritten(
                    a,
                    new,
                ) + rewritten(b.drop_last(), new).push(l));
            },
            None => {},
        }
    }
}

proof fn lemma_rewritten_one(x: (LineKind, Seq<char>), new: ConfigLinesModel)
    ensures
        rewritten(seq![x], new) == (match line_for(x, new) {
            Some(l) => seq![l],
            None => Seq::empty(),
        }),
{
    assert(seq![x].drop_last() =~= Seq::empty());
    assert(rewritten(Seq::empty(), new) =~= Seq::empty());
    assert(rewritten(seq![x], new) =~= (match line_for(x, new) {
        Some(l) => seq![l],
        None => Seq::empty(),
    }));
}

/// Lines that hold no line end are their own parts.
proof fn lemma_flat_plain(ls: Seq<Seq<char>>)
    requires
        no_newline(ls),
    ensures
        flat(ls) == ls,
    decreases ls.len(),
{
    if ls.len() > 0 {
        let d = ls.drop_last();
        assert forall|i: int| 0 <= i < d.len() implies !has_char(#[trigger] d[i], '\n') by {
            assert(d[i] == ls[i]);
        }
        lemma_flat_plain(d);
        assert(!has_char(ls[ls.len() - 1], '\n'));
        assert(flat(ls) =~= ls);
    }
}

/// The lines of an entry come out of its text.
proof fn lemma_entry_split(own: Seq<Seq<char>>)
    requires
        own.len() > 0,
        no_newline(own),
    ensures
        split_on(joined(own, seq!['\n']), '\n') == own,
{
    lemma_joined_split(own);
    lemma_flat_plain(own);
}

proof fn lemma_has_kind_append(
    a: Seq<(LineKind, Seq<char>)>,
    b: Seq<(LineKind, Seq<char>)>,
    k: LineKind,
)
    ensures
        has_kind(a + b, k) == (has_kind(a, k) || has_kind(b, k)),
{
    let c = a + b;
    if has_kind(a, k) {
        let i = choose|i: int| 0 <= i < a.len() && (#[trigger] a[i]).0 == k;
        assert(c[i].0 == k);
    }
    if has_kind(b, k) {
        let i = choose|i: int| 0 <= i < b.len() && (#[trigger] b[i]).0 == k;
        assert(c[a.len() + i].0 == k);
    }
    if has_kind(c, k) {
        let i = choose|i: int| 0 <= i < c.len() && (#[trigger] c[i]).0 == k;
        if i < a.len() {
            assert(a[i].0 == k);
        } else {
            assert(b[i - a.len()].0 == k);
        }
    }
}

proof fn lemma_value_append(a: Seq<VarModel>, b: Seq<VarModel>, key: Seq<char>)
    ensures
        var_value(a + b, key) == (match var_value(a, key) {
            Some(v) => Some(v),
            None => var_value(b, key),
        }),
    decreases a.len(),
{
    if a.len() == 0 {
        assert(a + b =~= b);
    } else {
        assert((a + b)[0] == a[0]);
        assert((a + b).subrange(1, (a + b).len() as int) =~= a.subrange(1, a.len() as int) + b);
        lemma_value_append(a.subrange(1, a.len() as int), b, key);
    }
}

proof fn lemma_value_one(x: VarModel, key: Seq<char>)
    ensures
        var_value(seq![x], key) == (if x.0 == key {
            Some(x.1)
        } else {
            None::<Seq<char>>
        }),
{
    let s = seq![x];
    assert(s.subrange(1, 1) =~= Seq::empty());
    assert(var_value(Seq::empty(), key) is None);
}

proof fn lemma_no_bare_cr_append(a: Seq<Seq<char>>, b: Seq<Seq<char>>)
    requires
        no_bare_cr(a),
        no_bare_cr(b),
    ensures
        no_bare_cr(a + b),
{
    assert forall|i: int| 0 <= i < (a + b).len() implies without_cr(#[trigger] (a + b)[i]) == (a
        + b)[i] by {
        if i < a.len() {
            assert((a + b)[i] == a[i]);
        } else {
            assert((a + b)[i] == b[i - a.len()]);
        }
    }
}

/// Each setting has an item exactly where it has a variable.
spec fn kinds_agree(items: Seq<(LineKind, Seq<char>)>, vars: Seq<VarModel>) -> bool {
    forall|k: LineKind|
        k != LineKind::Other ==> (#[trigger] has_kind(items, k) <==> var_value(vars, name_of(k))
            is Some)
}

proof fn lemma_kinds_cons(
    x: (LineKind, Seq<char>),
    items: Seq<(LineKind, Seq<char>)>,
    key: Seq<char>,
    v: Seq<char>,
    vars: Seq<VarModel>,
)
    requires
        kinds_agree(items, vars),
        key_kind(key) == x.0,
    ensures
        kinds_agree(seq![x] + items, seq![(key, v)] + vars),
{
    lemma_names();
    assert forall|k: LineKind| k != LineKind::Other implies (#[trigger] has_kind(
        seq![x] + items,
        k,
    ) <==> var_value(seq![(key, v)] + vars, name_of(k)) is Some) by {
        lemma_has_kind_append(seq![x], items, k);
        lemma_value_append(seq![(key, v)], vars, name_of(k));
        lemma_value_one((key, v), name_of(k));
        assert(has_kind(seq![x], k) == (x.0 == k)) by {
            assert(seq![x][0].0 == x.0);
        }
        assert(key_kind(name_of(k)) == k);
    }
}

/// The first line of a kept entry, the lines over which it goes on, and what follows.
proof fn lemma_entry_kept(
    l: Seq<char>,
    span: Seq<Seq<char>>,
    v: Seq<char>,
    f: Seq<Seq<char>>,
    u: Seq<VarModel>,
)
    requires
        !is_remark(l),
        is_named(l),
        if is_quoted(l) {
            quoted_in(rest(raw_of(l), 1), span) == Some((v, Seq::<Seq<char>>::empty()))
        } else {
            span.len() == 0 && v == plain_value(raw_of(l))
        },
        vars_in(f) == Some(u),
    ensures
        vars_in(seq![l] + span + f) == Some(seq![(key_of(l), v)] + u),
{
    let ls = seq![l] + span + f;
    assert(ls[0] == l);
    assert(tail(ls) =~= span + f);
    if is_quoted(l) {
        lemma_quoted_append(rest(raw_of(l), 1), span, f);
        assert(Seq::<Seq<char>>::empty() + f =~= f);
    } else {
        assert(span + f =~= f);
    }
}

/// Each part can be read alone.
spec fn whole_entries(parts: Seq<Seq<char>>) -> bool {
    forall|i: int| 0 <= i < parts.len() ==> vars_in(split_on(#[trigger] parts[i], '\n')) is Some
}

proof fn lemma_whole_cons(
    x: (LineKind, Seq<char>),
    items: Seq<(LineKind, Seq<char>)>,
    new: ConfigLinesModel,
)
    requires
        whole_entries(rewritten(items, new)),
        line_for(x, new) matches Some(l) ==> vars_in(split_on(l, '\n')) is Some,
    ensures
        whole_entries(rewritten(seq![x] + items, new)),
{
    let a = rewritten(seq![x], new);
    let b = rewritten(items, new);
    lemma_rewritten_append(seq![x], items, new);
    lemma_rewritten_one(x, new);
    assert forall|i: int| 0 <= i < (a + b).len() implies vars_in(
        split_on(#[trigger] (a + b)[i], '\n'),
    ) is Some by {
        if i >= a.len() {
            assert((a + b)[i] == b[i - a.len()]);
        }
    }
}

/// What the file becomes whose first entry is the remark `ls[0]`.
proof fn lemma_rewrite_remark(
    ls: Seq<Seq<char>>,
    new: ConfigLinesModel,
    vars: Seq<VarModel>,
    u: Seq<VarModel>,
)
    requires
        ls.len() > 0,
        is_remark(ls[0]),
        no_newline(ls),
        vars_in(tail(ls)) == Some(vars),
        vars_in(flat(rewritten(items_in(tail(ls)), new))) == Some(u),
        whole_entries(rewritten(items_in(tail(ls)), new)),
        kinds_agree(items_in(tail(ls)), vars),
    ensures
        vars_in(flat(rewritten(items_in(ls), new))) == Some(u),
        whole_entries(rewritten(items_in(ls), new)),
        kinds_agree(items_in(ls), vars),
{
    let l = ls[0];
    let t = tail(ls);
    lemma_remark_kind(l);
    assert(own_lines(ls, t) =~= seq![l]);
    let x = (LineKind::Other, l);
    assert(items_in(ls) == seq![x] + items_in(t));
    let f = flat(rewritten(items_in(t), new));
    lemma_one_line(x, items_in(t), new);
    assert(!has_char(ls[0], '\n'));
    assert(split_on(l, '\n') == seq![l]);
    assert((seq![l] + f)[0] == l);
    assert(tail(seq![l] + f) =~= f);
    assert(tail(seq![l]) =~= Seq::empty());
    assert(vars_in(Seq::empty()) == Some(Seq::<VarModel>::empty()));
    assert(vars_in(seq![l]) is Some);
    lemma_whole_cons(x, items_in(t), new);
    assert forall|k: LineKind| k != LineKind::Other implies (#[trigger] has_kind(items_in(ls), k)
        <==> var_value(vars, name_of(k)) is Some) by {
        lemma_has_kind_append(seq![x], items_in(t), k);
        assert(has_kind(items_in(t), k) <==> var_value(vars, name_of(k)) is Some);
    }
}

/// What the file becomes whose first entry gives a variable with the value `v` and has
/// the lines `more` behind it.
proof fn lemma_rewrite_entry(
    ls: Seq<Seq<char>>,
    more: Seq<Seq<char>>,
    v: Seq<char>,
    vars: Seq<VarModel>,
    new: ConfigLinesModel,
    nv: NewValues,
)
    requires
        ls.len() > 0,
        !is_remark(ls[0]),
        is_named(ls[0]),
        key_kind(key_of(ls[0])) == kind_of(ls[0]),
        no_newline(ls),
        lines_give(new, nv),
        if is_quoted(ls[0]) {
            quoted_in(rest(raw_of(ls[0]), 1), tail(ls)) == Some((v, more))
        } else {
            more == tail(ls) && v == plain_value(raw_of(ls[0]))
        },
        vars_in(flat(rewritten(items_in(more), new))) == Some(updated_vars(vars, nv)),
        whole_entries(rewritten(items_in(more), new)),
        kinds_agree(items_in(more), vars),
    ensures
        vars_in(flat(rewritten(items_in(ls), new))) == Some(
            updated_vars(seq![(key_of(ls[0]), v)] + vars, nv),
        ),
        whole_entries(rewritten(items_in(ls), new)),
        kinds_agree(items_in(ls), seq![(key_of(ls[0]), v)] + vars),
{
    let l = ls[0];
    let t = tail(ls);
    let k = kind_of(l);
    let key = key_of(l);
    let cur = rest(raw_of(l), 1);
    lemma_quoted_append(cur, t, Seq::empty());
    lemma_quoted_prefix(cur, t);
    let span = t.subrange(0, t.len() - more.len());
    let own = own_lines(ls, more);
    assert(own =~= seq![l] + span);
    assert forall|i: int| 0 <= i < own.len() implies !has_char(#[trigger] own[i], '\n') by {
        assert(own[i] == ls[i]);
    }
    lemma_entry_split(own);
    let x = (k, joined(own, seq!['\n']));
    assert(items_in(ls) == seq![x] + items_in(more));
    let f = flat(rewritten(items_in(more), new));
    let u = updated_vars(vars, nv);
    lemma_one_line(x, items_in(more), new);
    lemma_kinds_cons(x, items_in(more), key, v, vars);
    lemma_updated_cons((key, v), vars, nv);
    lemma_names();
    assert(vars_in(Seq::empty()) == Some(Seq::<VarModel>::empty()));
    lemma_entry_kept(l, span, v, f, u);
    lemma_entry_kept(l, span, v, Seq::empty(), Seq::empty());
    assert(own + Seq::<Seq<char>>::empty() =~= own);
    match new_line(new, k) {
        Some(nl) => {
            assert(key == name_of(k));
            lemma_vars_append(split_on(nl, '\n'), f);
        },
        None => {
            assert(Seq::<Seq<char>>::empty() + f =~= f);
            assert(Seq::<VarModel>::empty() + u =~= u);
        },
    }
    lemma_whole_cons(x, items_in(more), new);
}

proof fn lemma_rewrite(ls: Seq<Seq<char>>, new: ConfigLinesModel, nv: NewValues)
    requires
        regular_lines(ls),
        no_newline(ls),
        lines_give(new, nv),
    ensures
        vars_in(ls) is Some,
        vars_in(flat(rewritten(items_in(ls), new))) == Some(updated_vars(vars_in(ls).unwrap(), nv)),
        whole_entries(rewritten(items_in(ls), new)),
        kinds_agree(items_in(ls), vars_in(ls).unwrap()),
    decreases ls.len(),
{
    if ls.len() == 0 {
        assert(rewritten(items_in(ls), new) =~= Seq::empty());
        assert(flat(rewritten(items_in(ls), new)) =~= Seq::empty());
        assert(updated_vars(Seq::empty(), nv) =~= Seq::empty());
        assert(vars_in(Seq::empty()) == Some(Seq::<VarModel>::empty()));
    } else {
        let l = ls[0];
        let t = tail(ls);
        if is_remark(l) {
            assert forall|i: int| 0 <= i < t.len() implies !has_char(#[trigger] t[i], '\n') by {
                assert(t[i] == ls[i + 1]);
            }
            lemma_rewrite(t, new, nv);
            let vars = vars_in(t).unwrap();
            lemma_rewrite_remark(ls, new, vars, updated_vars(vars, nv));
        } else {
            let cur = rest(raw_of(l), 1);
            let more = if is_quoted(l) {
                quoted_in(cur, t).unwrap().1
            } else {
                t
            };
            let v = if is_quoted(l) {
                quoted_in(cur, t).unwrap().0
            } else {
                plain_value(raw_of(l))
            };
            lemma_quoted_append(cur, t, Seq::empty());
            let m = t.len() - more.len();
            assert(more =~= from(t, m));
            assert forall|i: int| 0 <= i < more.len() implies !has_char(#[trigger] more[i], '\n') by {
                assert(more[i] == ls[i + m + 1]);
            }
            lemma_rewrite(more, new, nv);
            lemma_rewrite_entry(ls, more, v, vars_in(more).unwrap(), new, nv);
        }
    }
}

/// What one item and the items behind it become.
proof fn lemma_one_line(
    x: (LineKind, Seq<char>),
    items: Seq<(LineKind, Seq<char>)>,
    new: ConfigLinesModel,
)
    ensures
        flat(rewritten(seq![x] + items, new)) == (match line_for(x, new) {
            Some(l) => split_on(l, '\n'),
            None => Seq::empty(),
        }) + flat(rewritten(items, new)),
{
    lemma_rewritten_append(seq![x], items, new);
    lemma_rewritten_one(x, new);
    lemma_flat_append(rewritten(seq![x], new), rewritten(items, new));
    match line_for(x, new) {
        Some(l) => {
            lemma_flat_one(l);
        },
        None => {
            assert(flat(Seq::empty()) =~= Seq::empty());
        },
    }
}

// ---------------------------------------------------------------------------
// The whole file
// ---------------------------------------------------------------------------

/// A new variable among the others is found, and the others are found as before.
proof fn lemma_value_insert(a: Seq<VarModel>, b: Seq<VarModel>, x: VarModel, key: Seq<char>)
    requires
        var_value(a + b, x.0) is None,
    ensures
        var_value(a + seq![x] + b, key) == (if key == x.0 {
            Some(x.1)
        } else {
            var_value(a + b, key)
        }),
{
    lemma_value_append(a, b, key);
    lemma_value_append(a, b, x.0);
    lemma_value_append(a + seq![x], b, key);
    lemma_value_append(a, seq![x], key);
    lemma_value_one(x, key);
}

/// What the old variables are after the update.
proof fn lemma_updated_value(vars: Seq<VarModel>, nv: NewValues, key: Seq<char>)
    ensures
        var_value(updated_vars(vars, nv), key) == (match var_value(vars, key) {
            None => None,
            Some(old) => match new_value(nv, key_kind(key)) {
                Some(v) => Some(v),
                None => if key_kind(key) == LineKind::Other || key_kind(key)
                    == LineKind::ChatId {
                    Some(old)
                } else {
                    None
                },
            },
        }),
    decreases vars.len(),
{
    if vars.len() > 0 {
        let more = vars.subrange(1, vars.len() as int);
        lemma_updated_value(more, nv, key);
        let u = updated_var(vars[0], nv);
        lemma_value_append(u, updated_vars(more, nv), key);
        match new_value(nv, key_kind(vars[0].0)) {
            Some(v) => {
                lemma_value_one((vars[0].0, v), key);
            },
            None => {
                lemma_value_one(vars[0], key);
                assert(var_value(Seq::empty(), key) is None);
            },
        }
        if vars[0].0 == key && u.len() == 0 {
            lemma_dropped(vars, nv, key);
        }
    }
}

/// A setting that is dropped is dropped everywhere.
proof fn lemma_dropped(vars: Seq<VarModel>, nv: NewValues, key: Seq<char>)
    requires
        new_value(nv, key_kind(key)) is None,
        key_kind(key) != LineKind::Other,
        key_kind(key) != LineKind::ChatId,
    ensures
        var_value(updated_vars(vars, nv), key) is None,
    decreases vars.len(),
{
    if vars.len() > 0 {
        let more = vars.subrange(1, vars.len() as int);
        lemma_dropped(more, nv, key);
        lemma_value_append(updated_var(vars[0], nv), updated_vars(more, nv), key);
        match new_value(nv, key_kind(vars[0].0)) {
            Some(v) => {
                lemma_value_one((vars[0].0, v), key);
            },
            None => {
                lemma_value_one(vars[0], key);
                assert(var_value(Seq::empty(), key) is None);
            },
        }
    }
}

/// The lines `parts` can be read, and give `vars`.
spec fn reads(parts: Seq<Seq<char>>, vars: Seq<VarModel>) -> bool {
    vars_in(flat(parts)) == Some(vars)
}

proof fn lemma_reads_push(
    parts: Seq<Seq<char>>,
    vars: Seq<VarModel>,
    new: ConfigLinesModel,
    nv: NewValues,
    k: LineKind,
)
    requires
        reads(parts, vars),
        lines_give(new, nv),
        k != LineKind::Other,
        new_line(new, k) is Some,
        var_value(vars, name_of(k)) is None,
    ensures
        reads(
            parts.push(new_line(new, k).unwrap()),
            vars.push((name_of(k), new_value(nv, k).unwrap())),
        ),
        forall|key: Seq<char>| #[trigger]
            var_value(vars.push((name_of(k), new_value(nv, k).unwrap())), key) == (if key
                == name_of(k) {
                new_value(nv, k)
            } else {
                var_value(vars, key)
            }),
{
    let l = new_line(new, k).unwrap();
    let x = (name_of(k), new_value(nv, k).unwrap());
    assert(parts.push(l) =~= parts + seq![l]);
    lemma_flat_append(parts, seq![l]);
    lemma_flat_one(l);
    lemma_vars_append(flat(parts), split_on(l, '\n'));
    assert(vars + seq![x] =~= vars.push(x));
    assert forall|key: Seq<char>| #[trigger] var_value(vars.push(x), key) == (if key == name_of(
        k,
    ) {
        new_value(nv, k)
    } else {
        var_value(vars, key)
    }) by {
        let e = Seq::<VarModel>::empty();
        assert(vars + e =~= vars);
        assert(vars + seq![x] + e =~= vars.push(x));
        lemma_value_insert(vars, e, x, key);
    }
}

/// A line that is put between `a`, which can be read alone, and `b`.
proof fn lemma_reads_insert(
    a: Seq<Seq<char>>,
    b: Seq<Seq<char>>,
    vars: Seq<VarModel>,
    new: ConfigLinesModel,
    nv: NewValues,
    k: LineKind,
) -> (r: Seq<VarModel>)
    requires
        reads(a + b, vars),
        vars_in(flat(a)) is Some,
        lines_give(new, nv),
        k != LineKind::Other,
        new_line(new, k) is Some,
        var_value(vars, name_of(k)) is None,
    ensures
        reads(a + seq![new_line(new, k).unwrap()] + b, r),
        forall|key: Seq<char>| #[trigger]
            var_value(r, key) == (if key == name_of(k) {
                new_value(nv, k)
            } else {
                var_value(vars, key)
            }),
{
    let l = new_line(new, k).unwrap();
    let x = (name_of(k), new_value(nv, k).unwrap());
    let va = vars_in(flat(a)).unwrap();
    lemma_flat_append(a, b);
    lemma_vars_append(flat(a), flat(b));
    let vb = vars_in(flat(b)).unwrap();
    assert(vars == va + vb);
    lemma_flat_append(a + seq![l], b);
    lemma_flat_append(a, seq![l]);
    lemma_flat_one(l);
    let sp = split_on(l, '\n');
    lemma_vars_append(flat(a), sp);
    lemma_vars_append(flat(a) + sp, flat(b));
    let r = va + seq![x] + vb;
    assert forall|key: Seq<char>| #[trigger] var_value(r, key) == (if key == name_of(k) {
        new_value(nv, k)
    } else {
        var_value(vars, key)
    }) by {
        lemma_value_insert(va, vb, x, key);
    }
    r
}

/// The value of each variable after saving.
pub open spec fn saved_value(vars: Seq<VarModel>, nv: NewValues, key: Seq<char>) -> Option<
    Seq<char>,
> {
    match key_kind(key) {
        LineKind::Servers => Some(nv.servers),
        LineKind::GlobalTimer => nv.global_timer,
        LineKind::ChatId => match nv.chat_id {
            Some(c) => Some(c),
            None => var_value(vars, key),
        },
        LineKind::PairCode => nv.pair_code,
        LineKind::PairExpiresAt => nv.pair_expires_at,
        LineKind::Other => var_value(vars, key),
    }
}

/// The values that a configuration saves.
pub open spec fn values_of(
    config: ConfigModel,
    servers_json: Seq<char>,
    timer_json: Option<Seq<char>>,
) -> NewValues {
    NewValues {
        servers: servers_json,
        global_timer: timer_json,
        chat_id: config.tg_chat_id,
        pair_code: config.tg_pair_code,
        pair_expires_at: match config.tg_pair_expires_at {
            Some(t) => Some(decimal(t as nat)),
            None => None,
        },
    }
}

proof fn lemma_lines_give(
    config: ConfigModel,
    servers_json: Seq<char>,
    timer_json: Option<Seq<char>>,
)
    requires
        no_crlf(servers_json),
        no_crlf_opt(timer_json),
        no_crlf_opt(config.tg_chat_id),
        no_crlf_opt(config.tg_pair_code),
    ensures
        lines_give(
            lines_for(config, servers_json, timer_json),
            values_of(config, servers_json, timer_json),
        ),
{
    let new = lines_for(config, servers_json, timer_json);
    let nv = values_of(config, servers_json, timer_json);
    lemma_names();
    reveal_strlit("BOIL_SERVERS");
    reveal_strlit("BOIL_GLOBAL_TIMER");
    reveal_strlit("TG_CHAT_ID");
    reveal_strlit("TG_PAIR_CODE");
    reveal_strlit("TG_PAIR_EXPIRES_AT");
    reveal_strlit("BOIL_SERVERS=");
    reveal_strlit("BOIL_GLOBAL_TIMER=");
    reveal_strlit("TG_CHAT_ID=");
    reveal_strlit("TG_PAIR_CODE=");
    reveal_strlit("TG_PAIR_EXPIRES_AT=");
    assert("BOIL_SERVERS="@ =~= "BOIL_SERVERS"@ + seq!['=']);
    assert("BOIL_GLOBAL_TIMER="@ =~= "BOIL_GLOBAL_TIMER"@ + seq!['=']);
    assert("TG_CHAT_ID="@ =~= "TG_CHAT_ID"@ + seq!['=']);
    assert("TG_PAIR_CODE="@ =~= "TG_PAIR_CODE"@ + seq!['=']);
    assert("TG_PAIR_EXPIRES_AT="@ =~= "TG_PAIR_EXPIRES_AT"@ + seq!['=']);
    assert forall|k: LineKind|
        match #[trigger] new_line(new, k) {
            Some(l) => new_value(nv, k) is Some && vars_in(split_on(l, '\n')) == Some(
                seq![(name_of(k), new_value(nv, k).unwrap())],
            ) && no_bare_cr(split_on(l, '\n')),
            None => new_value(nv, k) is None,
        } by {
        if k != LineKind::Other && new_value(nv, k) is Some {
            assert(valid_name(name_of(k)));
            if k == LineKind::PairExpiresAt {
                lemma_number_line(name_of(k), config.tg_pair_expires_at.unwrap() as nat);
            } else {
                lemma_quoted_line(name_of(k), new_value(nv, k).unwrap());
            }
        }
    }
}

/// The old variables give what is kept of them.
spec fn kept_value(old: Seq<VarModel>, nv: NewValues, key: Seq<char>) -> Option<Seq<char>> {
    match var_value(old, key) {
        None => None,
        Some(v) => match new_value(nv, key_kind(key)) {
            Some(w) => Some(w),
            None => if key_kind(key) == LineKind::Other || key_kind(key) == LineKind::ChatId {
                Some(v)
            } else {
                None
            },
        },
    }
}

/// The servers are put in front where there was no line for them.
proof fn lemma_place_servers(
    items: Seq<(LineKind, Seq<char>)>,
    parts: Seq<Seq<char>>,
    vars: Seq<VarModel>,
    new: ConfigLinesModel,
    nv: NewValues,
) -> (r: Seq<VarModel>)
    requires
        reads(parts, vars),
        lines_give(new, nv),
        has_kind(items, LineKind::Servers) ==> var_value(vars, name_of(LineKind::Servers)) == Some(
            nv.servers,
        ),
        !has_kind(items, LineKind::Servers) ==> var_value(vars, name_of(LineKind::Servers)) is None,
    ensures
        reads(
            if has_kind(items, LineKind::Servers) {
                parts
            } else {
                parts.insert(0, new.servers)
            },
            r,
        ),
        forall|key: Seq<char>| #[trigger]
            var_value(r, key) == (if key == name_of(LineKind::Servers) {
                Some(nv.servers)
            } else {
                var_value(vars, key)
            }),
{
    if has_kind(items, LineKind::Servers) {
        vars
    } else {
        let empty = Seq::<Seq<char>>::empty();
        assert(flat(empty) =~= empty);
        assert(vars_in(empty) == Some(Seq::<VarModel>::empty()));
        assert(empty + parts =~= parts);
        assert(new_line(new, LineKind::Servers) == Some(new.servers));
        assert(empty + seq![new.servers] + parts =~= parts.insert(0, new.servers));
        lemma_reads_insert(empty, parts, vars, new, nv, LineKind::Servers)
    }
}

/// The global timer is put behind the first entry where there was no line for it.
proof fn lemma_place_timer(
    items: Seq<(LineKind, Seq<char>)>,
    parts: Seq<Seq<char>>,
    vars: Seq<VarModel>,
    new: ConfigLinesModel,
    nv: NewValues,
) -> (r: Seq<VarModel>)
    requires
        reads(parts, vars),
        lines_give(new, nv),
        parts.len() > 0,
        vars_in(split_on(parts[0], '\n')) is Some,
        has_kind(items, LineKind::GlobalTimer) ==> var_value(vars, name_of(LineKind::GlobalTimer))
            == nv.global_timer,
        !has_kind(items, LineKind::GlobalTimer) ==> var_value(vars, name_of(LineKind::GlobalTimer))
            is None,
    ensures
        reads(
            match new.global_timer {
                Some(g) => if has_kind(items, LineKind::GlobalTimer) {
                    parts
                } else {
                    parts.insert(1, g)
                },
                None => parts,
            },
            r,
        ),
        forall|key: Seq<char>| #[trigger]
            var_value(r, key) == (if key == name_of(LineKind::GlobalTimer) {
                nv.global_timer
            } else {
                var_value(vars, key)
            }),
{
    assert(new_line(new, LineKind::GlobalTimer) == new.global_timer);
    match new.global_timer {
        Some(g) => if has_kind(items, LineKind::GlobalTimer) {
            vars
        } else {
            let a = parts.subrange(0, 1);
            let b = parts.subrange(1, parts.len() as int);
            assert(a =~= seq![parts[0]]);
            assert(a + b =~= parts);
            assert(a + seq![g] + b =~= parts.insert(1, g));
            lemma_flat_one(parts[0]);
            lemma_reads_insert(a, b, vars, new, nv, LineKind::GlobalTimer)
        },
        None => vars,
    }
}

/// A Telegram setting is put at the end where there was no line for it.
proof fn lemma_place_last(
    items: Seq<(LineKind, Seq<char>)>,
    parts: Seq<Seq<char>>,
    vars: Seq<VarModel>,
    new: ConfigLinesModel,
    nv: NewValues,
    k: LineKind,
) -> (r: Seq<VarModel>)
    requires
        reads(parts, vars),
        lines_give(new, nv),
        k != LineKind::Other,
        !has_kind(items, k) ==> var_value(vars, name_of(k)) is None,
    ensures
        reads(
            if has_kind(items, k) {
                parts
            } else {
                push_opt(parts, new_line(new, k))
            },
            r,
        ),
        forall|key: Seq<char>| #[trigger]
            var_value(r, key) == (if key == name_of(k) && !has_kind(items, k) {
                new_value(nv, k)
            } else {
                var_value(vars, key)
            }),
{
    if has_kind(items, k) {
        vars
    } else {
        match new_line(new, k) {
            Some(l) => {
                lemma_reads_push(parts, vars, new, nv, k);
                vars.push((name_of(k), new_value(nv, k).unwrap()))
            },
            None => vars,
        }
    }
}

/// All settings in their places.
proof fn lemma_place_all(
    items: Seq<(LineKind, Seq<char>)>,
    old: Seq<VarModel>,
    vars: Seq<VarModel>,
    new: ConfigLinesModel,
    nv: NewValues,
) -> (r: Seq<VarModel>)
    requires
        reads(rewritten(items, new), vars),
        lines_give(new, nv),
        kinds_agree(items, old),
        forall|key: Seq<char>| #[trigger] var_value(vars, key) == kept_value(old, nv, key),
        whole_entries(rewritten(items, new)),
    ensures
        reads(merged_lines(items, new), r),
        merged_lines(items, new).len() > 0,
        forall|key: Seq<char>| #[trigger] var_value(r, key) == saved_value(old, nv, key),
{
    lemma_names();
    let parts0 = rewritten(items, new);
    assert forall|k: LineKind| k != LineKind::Other implies #[trigger] key_kind(name_of(k)) == k
        && (has_kind(items, k) <==> var_value(old, name_of(k)) is Some) by {
        assert(has_kind(items, k) <==> var_value(old, name_of(k)) is Some);
    }
    assert(key_kind(name_of(LineKind::Servers)) == LineKind::Servers);
    assert(key_kind(name_of(LineKind::GlobalTimer)) == LineKind::GlobalTimer);
    assert(key_kind(name_of(LineKind::ChatId)) == LineKind::ChatId);
    assert(key_kind(name_of(LineKind::PairCode)) == LineKind::PairCode);
    assert(key_kind(name_of(LineKind::PairExpiresAt)) == LineKind::PairExpiresAt);
    let v1 = lemma_place_servers(items, parts0, vars, new, nv);
    let parts1 = if has_kind(items, LineKind::Servers) {
        parts0
    } else {
        parts0.insert(0, new.servers)
    };
    assert(parts1.len() > 0) by {
        if parts1.len() == 0 {
            assert(flat(parts1) =~= Seq::empty());
            assert(vars_in(Seq::empty()) == Some(Seq::<VarModel>::empty()));
            assert(var_value(v1, name_of(LineKind::Servers)) is Some);
            assert(var_value(Seq::empty(), name_of(LineKind::Servers)) is None);
        }
    }
    assert(new_line(new, LineKind::Servers) == Some(new.servers));
    let v2 = lemma_place_timer(items, parts1, v1, new, nv);
    let parts2 = match new.global_timer {
        Some(g) => if has_kind(items, LineKind::GlobalTimer) {
            parts1
        } else {
            parts1.insert(1, g)
        },
        None => parts1,
    };
    let v3 = lemma_place_last(items, parts2, v2, new, nv, LineKind::ChatId);
    let parts3 = if has_kind(items, LineKind::ChatId) {
        parts2
    } else {
        push_opt(parts2, new.chat_id)
    };
    assert(new_line(new, LineKind::ChatId) == new.chat_id);
    let v4 = lemma_place_last(items, parts3, v3, new, nv, LineKind::PairCode);
    let parts4 = if has_kind(items, LineKind::PairCode) {
        parts3
    } else {
        push_opt(parts3, new.pair_code)
    };
    assert(new_line(new, LineKind::PairCode) == new.pair_code);
    let v5 = lemma_place_last(items, parts4, v4, new, nv, LineKind::PairExpiresAt);
    assert(new_line(new, LineKind::PairExpiresAt) == new.pair_expires_at);
    assert(reads(merged_lines(items, new), v5));
    assert forall|key: Seq<char>| #[trigger] var_value(v5, key) == saved_value(old, nv, key) by {
        assert(var_value(v4, key) == var_value(v4, key));
        assert(var_value(v3, key) == var_value(v3, key));
        assert(var_value(v2, key) == var_value(v2, key));
        assert(var_value(v1, key) == var_value(v1, key));
        assert(var_value(vars, key) == kept_value(old, nv, key));
        if key_kind(key) != LineKind::Other {
            assert(key == name_of(key_kind(key)));
        }
    }
    v5
}

// ---------------------------------------------------------------------------
// Carriage returns at the ends of lines
// ---------------------------------------------------------------------------

/// The parts are those of `a`, with a carriage return less at the end of each line.
spec fn parts_without_crs(a: Seq<Seq<char>>, b: Seq<Seq<char>>) -> bool {
    a.len() == b.len() && forall|i: int|
        0 <= i < a.len() ==> split_on(#[trigger] b[i], '\n') == without_crs(split_on(a[i], '\n'))
}

proof fn lemma_flat_without_crs(a: Seq<Seq<char>>, b: Seq<Seq<char>>)
    requires
        parts_without_crs(a, b),
    ensures
        flat(b) == without_crs(flat(a)),
    decreases a.len(),
{
    if a.len() == 0 {
        assert(flat(b) =~= without_crs(flat(a)));
    } else {
        let c = a.drop_last();
        let d = b.drop_last();
        assert forall|i: int| 0 <= i < c.len() implies split_on(#[trigger] d[i], '\n')
            == without_crs(split_on(c[i], '\n')) by {
            assert(d[i] == b[i]);
        }
        lemma_flat_without_crs(c, d);
        assert(split_on(b[b.len() - 1], '\n') == without_crs(split_on(a[a.len() - 1], '\n')));
        assert(flat(b) =~= without_crs(flat(a)));
    }
}

/// Items of the same kinds, the text of each with a carriage return less at the end of
/// each line.
spec fn items_without_crs(a: Seq<(LineKind, Seq<char>)>, b: Seq<(LineKind, Seq<char>)>) -> bool {
    a.len() == b.len() && forall|i: int|
        0 <= i < a.len() ==> (#[trigger] b[i]).0 == a[i].0 && split_on(b[i].1, '\n')
            == without_crs(split_on(a[i].1, '\n'))
}

proof fn lemma_rewritten_without_crs(
    a: Seq<(LineKind, Seq<char>)>,
    b: Seq<(LineKind, Seq<char>)>,
    new: ConfigLinesModel,
    nv: NewValues,
)
    requires
        items_without_crs(a, b),
        lines_give(new, nv),
    ensures
        parts_without_crs(rewritten(a, new), rewritten(b, new)),
    decreases a.len(),
{
    if a.len() > 0 {
        let c = a.drop_last();
        let d = b.drop_last();
        assert forall|i: int| 0 <= i < c.len() implies (#[trigger] d[i]).0 == c[i].0 && split_on(
            d[i].1,
            '\n',
        ) == without_crs(split_on(c[i].1, '\n')) by {
            assert(d[i] == b[i]);
        }
        lemma_rewritten_without_crs(c, d, new, nv);
        let x = a[a.len() - 1];
        let y = b[b.len() - 1];
        assert(y.0 == x.0 && split_on(y.1, '\n') == without_crs(split_on(x.1, '\n')));
        match new_line(new, x.0) {
            Some(l) => {
                lemma_without_crs(split_on(l, '\n'));
            },
            None => {},
        }
    }
}

proof fn lemma_has_kind_without_crs(
    a: Seq<(LineKind, Seq<char>)>,
    b: Seq<(LineKind, Seq<char>)>,
    k: LineKind,
)
    requires
        items_without_crs(a, b),
    ensures
        has_kind(a, k) == has_kind(b, k),
{
    if has_kind(a, k) {
        let i = choose|i: int| 0 <= i < a.len() && (#[trigger] a[i]).0 == k;
        assert(b[i].0 == k);
    }
    if has_kind(b, k) {
        let i = choose|i: int| 0 <= i < b.len() && (#[trigger] b[i]).0 == k;
        assert(a[i].0 == k);
    }
}

/// New lines at the same places of both.
proof fn lemma_insert_without_crs(a: Seq<Seq<char>>, b: Seq<Seq<char>>, i: int, l: Seq<char>)
    requires
        parts_without_crs(a, b),
        no_bare_cr(split_on(l, '\n')),
        0 <= i <= a.len(),
    ensures
        parts_without_crs(a.insert(i, l), b.insert(i, l)),
{
    lemma_without_crs(split_on(l, '\n'));
    let c = a.insert(i, l);
    let d = b.insert(i, l);
    assert forall|j: int| 0 <= j < c.len() implies split_on(#[trigger] d[j], '\n') == without_crs(
        split_on(c[j], '\n'),
    ) by {
        if j < i {
            assert(d[j] == b[j]);
        } else if j > i {
            assert(d[j] == b[j - 1]);
        }
    }
}

proof fn lemma_push_without_crs(
    a: Seq<Seq<char>>,
    b: Seq<Seq<char>>,
    new: ConfigLinesModel,
    nv: NewValues,
    k: LineKind,
)
    requires
        parts_without_crs(a, b),
        lines_give(new, nv),
    ensures
        parts_without_crs(push_opt(a, new_line(new, k)), push_opt(b, new_line(new, k))),
{
    match new_line(new, k) {
        Some(l) => {
            assert(a.insert(a.len() as int, l) =~= a.push(l));
            assert(b.insert(b.len() as int, l) =~= b.push(l));
            lemma_insert_without_crs(a, b, a.len() as int, l);
        },
        None => {},
    }
}

proof fn lemma_merged_without_crs(
    a: Seq<(LineKind, Seq<char>)>,
    b: Seq<(LineKind, Seq<char>)>,
    new: ConfigLinesModel,
    nv: NewValues,
)
    requires
        items_without_crs(a, b),
        lines_give(new, nv),
    ensures
        parts_without_crs(merged_lines(a, new), merged_lines(b, new)),
{
    lemma_rewritten_without_crs(a, b, new, nv);
    lemma_has_kind_without_crs(a, b, LineKind::Servers);
    lemma_has_kind_without_crs(a, b, LineKind::GlobalTimer);
    lemma_has_kind_without_crs(a, b, LineKind::ChatId);
    lemma_has_kind_without_crs(a, b, LineKind::PairCode);
    lemma_has_kind_without_crs(a, b, LineKind::PairExpiresAt);
    assert(new_line(new, LineKind::Servers) == Some(new.servers));
    assert(new_line(new, LineKind::GlobalTimer) == new.global_timer);
    assert(new_line(new, LineKind::ChatId) == new.chat_id);
    assert(new_line(new, LineKind::PairCode) == new.pair_code);
    assert(new_line(new, LineKind::PairExpiresAt) == new.pair_expires_at);
    let a0 = rewritten(a, new);
    let b0 = rewritten(b, new);
    lemma_insert_without_crs(a0, b0, 0, new.servers);
    let had = has_kind(a, LineKind::Servers);
    let a1 = if had {
        a0
    } else {
        a0.insert(0, new.servers)
    };
    let b1 = if had {
        b0
    } else {
        b0.insert(0, new.servers)
    };
    let had = has_kind(a, LineKind::GlobalTimer);
    let at: int = if a1.len() >= 1 {
        1
    } else {
        0
    };
    let (a2, b2) = match new.global_timer {
        Some(g) => {
            lemma_insert_without_crs(a1, b1, at, g);
            if had {
                (a1, b1)
            } else {
                (a1.insert(at, g), b1.insert(at, g))
            }
        },
        None => (a1, b1),
    };
    let had = has_kind(a, LineKind::ChatId);
    lemma_push_without_crs(a2, b2, new, nv, LineKind::ChatId);
    let a3 = if had {
        a2
    } else {
        push_opt(a2, new.chat_id)
    };
    let b3 = if had {
        b2
    } else {
        push_opt(b2, new.chat_id)
    };
    let had = has_kind(a, LineKind::PairCode);
    lemma_push_without_crs(a3, b3, new, nv, LineKind::PairCode);
    let a4 = if had {
        a3
    } else {
        push_opt(a3, new.pair_code)
    };
    let b4 = if had {
        b3
    } else {
        push_opt(b3, new.pair_code)
    };
    lemma_push_without_crs(a4, b4, new, nv, LineKind::PairExpiresAt);
}

/// A carriage return at the end does not matter to what a line begins with.
proof fn lemma_trimmed_without_cr(s: Seq<char>)
    ensures
        trimmed_start(without_cr(s)) == without_cr(trimmed_start(s)),
        trimmed_start(s).len() > 0 ==> without_cr(trimmed_start(s)).len() > 0 && without_cr(
            trimmed_start(s),
        )[0] == trimmed_start(s)[0],
    decreases s.len(),
{
    if s.len() > 0 && is_space(s[0]) {
        let t = s.subrange(1, s.len() as int);
        lemma_trimmed_without_cr(t);
        if s.len() == 1 {
            assert(t =~= Seq::empty());
            if s[0] == '\r' {
                assert(without_cr(s) =~= Seq::empty());
            }
        } else {
            assert(t.last() == s.last());
            let u = without_cr(s);
            assert(u[0] == s[0]);
            assert(u.subrange(1, u.len() as int) =~= without_cr(t));
        }
    } else if s.len() > 0 && s.last() == '\r' {
        assert(is_space('\r'));
        assert(s.len() > 1);
        assert(without_cr(s)[0] == s[0]);
    }
}

/// A character other than the carriage return is found at the same place.
proof fn lemma_found_without_cr(s: Seq<char>, c: char)
    requires
        c != '\r',
    ensures
        has_char(without_cr(s), c) == has_char(s, c),
        has_char(s, c) ==> before_first(without_cr(s), c) == before_first(s, c) && after_first(
            without_cr(s),
            c,
        ) == without_cr(after_first(s, c)),
{
    let t = without_cr(s);
    lemma_first_index(s, c);
    lemma_first_index(t, c);
    if has_char(s, c) {
        let n = first_index(s, c) as int;
        assert(t[n] == s[n]);
        assert forall|i: int| 0 <= i < n implies t[i] != c by {
            assert(t[i] == s[i]);
        }
        lemma_first_index_is(t, c, n);
        assert(before_first(t, c) =~= before_first(s, c));
        assert(after_first(t, c) =~= without_cr(after_first(s, c)));
    } else if has_char(t, c) {
        assert(s[first_index(t, c) as int] == c);
    }
}

/// A beginning that does not end with a carriage return is there with it or without.
proof fn lemma_begins_without_cr(s: Seq<char>, p: Seq<char>)
    requires
        p.len() > 0,
        p.last() != '\r',
    ensures
        starts_with(without_cr(s), p) == starts_with(s, p),
{
    let t = without_cr(s);
    if starts_with(s, p) {
        if s.len() == p.len() {
            assert(s.subrange(0, p.len() as int) =~= s);
        }
        assert(t.subrange(0, p.len() as int) =~= s.subrange(0, p.len() as int));
    } else if starts_with(t, p) {
        assert(t.subrange(0, p.len() as int) =~= s.subrange(0, p.len() as int));
    }
}

proof fn lemma_kind_without_cr(l: Seq<char>)
    ensures
        kind_of(without_cr(l)) == kind_of(l),
{
    reveal_strlit("BOIL_SERVERS=");
    reveal_strlit("BOIL_GLOBAL_TIMER=");
    reveal_strlit("TG_CHAT_ID=");
    reveal_strlit("TG_PAIR_CODE=");
    reveal_strlit("TG_PAIR_EXPIRES_AT=");
    let t = trimmed_start(l);
    lemma_trimmed_without_cr(l);
    lemma_begins_without_cr(t, "BOIL_SERVERS="@);
    lemma_begins_without_cr(t, "BOIL_GLOBAL_TIMER="@);
    lemma_begins_without_cr(t, "TG_CHAT_ID="@);
    lemma_begins_without_cr(t, "TG_PAIR_CODE="@);
    lemma_begins_without_cr(t, "TG_PAIR_EXPIRES_AT="@);
}

/// A line is the same sort of line, with the same name, without a carriage return at
/// its end.
proof fn lemma_line_without_cr(l: Seq<char>)
    ensures
        is_remark(without_cr(l)) == is_remark(l),
        is_named(l) ==> is_named(without_cr(l)) && key_of(without_cr(l)) == key_of(l),
        is_named(l) ==> raw_of(without_cr(l)) == without_cr(raw_of(l)),
        is_named(l) ==> is_quoted(without_cr(l)) == is_quoted(l),
        is_named(l) && is_quoted(l) ==> rest(raw_of(without_cr(l)), 1) == without_cr(
            rest(raw_of(l), 1),
        ),
{
    let t = trimmed_start(l);
    lemma_trimmed_without_cr(l);
    lemma_found_without_cr(t, '=');
    if is_named(l) {
        let a = after_first(t, '=');
        lemma_trimmed_without_cr(a);
        let raw = raw_of(l);
        if is_quoted(l) {
            assert(rest(without_cr(raw), 1) =~= without_cr(rest(raw, 1)));
        }
    }
}

/// A quoted value ends in the same line.
proof fn lemma_quoted_without_crs(cur: Seq<char>, ls: Seq<Seq<char>>) -> (v: Seq<char>)
    requires
        quoted_in(cur, ls) is Some,
    ensures
        quoted_in(without_cr(cur), without_crs(ls)) == Some(
            (v, without_crs(quoted_in(cur, ls).unwrap().1)),
        ),
    decreases ls.len(), cur.len(),
{
    let d = without_cr(cur);
    lemma_first_index(cur, '\'');
    lemma_found_without_cr(cur, '\'');
    if has_char(cur, '\'') {
        let before = before_first(cur, '\'');
        let after = after_first(cur, '\'');
        lemma_begins_without_cr(after, quote_tail());
        if starts_with(after, quote_tail()) {
            assert(rest(without_cr(after), 3) =~= without_cr(rest(after, 3))) by {
                assert(after.subrange(0, 3)[2] == '\'');
            }
            let w = lemma_quoted_without_crs(rest(after, 3), ls);
            before.push('\'') + w
        } else {
            before
        }
    } else {
        let ms = without_crs(ls);
        assert(ms[0] == without_cr(ls[0]));
        assert(tail(ms) =~= without_crs(tail(ls)));
        let w = lemma_quoted_without_crs(ls[0], tail(ls));
        d.push('\n') + w
    }
}

proof fn lemma_own_without_crs(ls: Seq<Seq<char>>, more: Seq<Seq<char>>)
    requires
        no_newline(ls),
        more.len() < ls.len(),
    ensures
        split_on(joined(own_lines(without_crs(ls), without_crs(more)), seq!['\n']), '\n')
            == without_crs(split_on(joined(own_lines(ls, more), seq!['\n']), '\n')),
{
    let a = own_lines(ls, more);
    let b = own_lines(without_crs(ls), without_crs(more));
    assert(b =~= without_crs(a));
    assert forall|i: int| 0 <= i < a.len() implies !has_char(#[trigger] a[i], '\n') by {
        assert(a[i] == ls[i]);
    }
    assert forall|i: int| 0 <= i < b.len() implies !has_char(#[trigger] b[i], '\n') by {
        assert(!has_char(a[i], '\n'));
        lemma_found_without_cr(a[i], '\n');
    }
    lemma_entry_split(a);
    lemma_entry_split(b);
}

/// The entries are the same ones without the carriage returns.
proof fn lemma_regular_without_crs(ls: Seq<Seq<char>>)
    requires
        regular_lines(ls),
        no_newline(ls),
    ensures
        regular_lines(without_crs(ls)),
        no_newline(without_crs(ls)),
        items_without_crs(items_in(ls), items_in(without_crs(ls))),
    decreases ls.len(),
{
    let ms = without_crs(ls);
    assert forall|i: int| 0 <= i < ms.len() implies !has_char(#[trigger] ms[i], '\n') by {
        assert(!has_char(ls[i], '\n'));
        lemma_found_without_cr(ls[i], '\n');
    }
    if ls.len() > 0 {
        let l = ls[0];
        assert(ms[0] == without_cr(l));
        assert(tail(ms) =~= without_crs(tail(ls)));
        lemma_line_without_cr(l);
        lemma_kind_without_cr(l);
        let cur = rest(raw_of(l), 1);
        if !is_remark(l) && is_quoted(l) {
            let w = lemma_quoted_without_crs(cur, tail(ls));
        }
        lemma_quoted_append(cur, tail(ls), Seq::empty());
        let more = entry_rest(ls);
        assert(entry_rest(ms) == without_crs(more));
        let m = ls.len() - more.len();
        assert forall|i: int| 0 <= i < more.len() implies !has_char(#[trigger] more[i], '\n') by {
            assert(more[i] == ls[i + m]);
        }
        lemma_regular_without_crs(more);
        lemma_own_without_crs(ls, more);
        let x = (kind_of(l), joined(own_lines(ls, more), seq!['\n']));
        let y = (kind_of(l), joined(own_lines(ms, without_crs(more)), seq!['\n']));
        let a = items_in(more);
        let b = items_in(without_crs(more));
        assert(items_in(ls) == seq![x] + a);
        assert(items_in(ms) == seq![y] + b);
        assert forall|i: int| 0 <= i < (seq![x] + a).len() implies (#[trigger] (seq![y] + b)[i]).0
            == (seq![x] + a)[i].0 && split_on((seq![y] + b)[i].1, '\n') == without_crs(
            split_on((seq![x] + a)[i].1, '\n'),
        ) by {
            if i > 0 {
                assert((seq![y] + b)[i] == b[i - 1]);
                assert((seq![x] + a)[i] == a[i - 1]);
            }
        }
    }
}

/// The lines of the saved file are those that the old lines give without the carriage
/// returns at their ends.
proof fn lemma_saved_lines(existing: Seq<char>, new: ConfigLinesModel, nv: NewValues)
    requires
        regular_lines(lines_of(existing)),
        lines_give(new, nv),
        merged_lines(items_of(lines_of(existing), 0), new).len() > 0,
    ensures
        lines_of(merged_content(existing, new)) == flat(
            merged_lines(items_in(without_crs(lines_of(existing))), new),
        ),
{
    let ls = lines_of(existing);
    assert(from(ls, 0) =~= ls);
    lemma_items_same(ls, 0);
    lemma_lines_have_no_newline(existing);
    lemma_regular_without_crs(ls);
    let a = merged_lines(items_in(ls), new);
    let b = merged_lines(items_in(without_crs(ls)), new);
    lemma_merged_without_crs(items_in(ls), items_in(without_crs(ls)), new, nv);
    lemma_joined_split(a);
    lemma_lines_of_split(joined(a, seq!['\n']));
    lemma_flat_without_crs(a, b);
}

// ---------------------------------------------------------------------------
// The laws
// ---------------------------------------------------------------------------

/// What is saved is read back. After a configuration has been saved in a file that can
/// be read, the file can be read, and its variables have these values: the servers, the
/// global timer and the pairing code are those of the configuration; so is the chat id,
/// or it is the old one where the configuration has none; and every other variable has
/// the value that the old lines give without a carriage return at the end of a line,
/// which is the old value where no line ends with one.
pub proof fn saved_config_reads_back(
    existing: Seq<char>,
    config: ConfigModel,
    servers_json: Seq<char>,
    timer_json: Option<Seq<char>>,
    key: Seq<char>,
)
    requires
        regular_lines(lines_of(existing)),
        no_crlf(servers_json),
        no_crlf_opt(timer_json),
        no_crlf_opt(config.tg_chat_id),
        no_crlf_opt(config.tg_pair_code),
    ensures
        vars_of(existing) is Ok,
        vars_of_lines(without_crs(lines_of(existing)), 0) is Ok,
        vars_of(merged_content(existing, lines_for(config, servers_json, timer_json))) is Ok,
        var_value(
            vars_of(merged_content(existing, lines_for(config, servers_json, timer_json)))->Ok_0,
            key,
        ) == saved_value(
            vars_of_lines(without_crs(lines_of(existing)), 0)->Ok_0,
            values_of(config, servers_json, timer_json),
            key,
        ),
        no_bare_cr(lines_of(existing)) ==> without_crs(lines_of(existing)) == lines_of(existing),
{
    let new = lines_for(config, servers_json, timer_json);
    let nv = values_of(config, servers_json, timer_json);
    let ls = lines_of(existing);
    let ms = without_crs(ls);
    lemma_without_crs(ls);
    lemma_lines_give(config, servers_json, timer_json);
    lemma_lines_have_no_newline(existing);
    lemma_regular_without_crs(ls);
    lemma_rewrite(ls, new, nv);
    lemma_rewrite(ms, new, nv);
    assert(from(ls, 0) =~= ls);
    assert(from(ms, 0) =~= ms);
    lemma_vars_same(ls, 0);
    lemma_vars_same(ms, 0);
    let old = vars_in(ms).unwrap();
    let v0 = updated_vars(old, nv);
    assert forall|k: Seq<char>| #[trigger] var_value(v0, k) == kept_value(old, nv, k) by {
        lemma_updated_value(old, nv, k);
    }
    let v5 = lemma_place_all(items_in(ms), old, v0, new, nv);
    lemma_items_same(ls, 0);
    lemma_merged_without_crs(items_in(ls), items_in(ms), new, nv);
    lemma_saved_lines(existing, new, nv);
    let out = lines_of(merged_content(existing, new));
    lemma_vars_same(out, 0);
    assert(from(out, 0) =~= out);
    assert(var_value(v5, key) == saved_value(old, nv, key));
}

/// A setting that is saved has the value that was saved, whatever the old lines end
/// with: the servers, the global timer, the pairing code and its end, and the chat id
/// of a configuration that has one.
pub proof fn saved_setting_reads_back(
    existing: Seq<char>,
    config: ConfigModel,
    servers_json: Seq<char>,
    timer_json: Option<Seq<char>>,
)
    requires
        regular_lines(lines_of(existing)),
        no_crlf(servers_json),
        no_crlf_opt(timer_json),
        no_crlf_opt(config.tg_chat_id),
        no_crlf_opt(config.tg_pair_code),
    ensures
        vars_of(merged_content(existing, lines_for(config, servers_json, timer_json))) matches Ok(
            vars,
        ) && {
            &&& var_value(vars, "BOIL_SERVERS"@) == Some(servers_json)
            &&& var_value(vars, "BOIL_GLOBAL_TIMER"@) == timer_json
            &&& config.tg_chat_id is Some ==> var_value(vars, "TG_CHAT_ID"@) == config.tg_chat_id
            &&& var_value(vars, "TG_PAIR_CODE"@) == config.tg_pair_code
            &&& var_value(vars, "TG_PAIR_EXPIRES_AT"@) == (match config.tg_pair_expires_at {
                Some(t) => Some(decimal(t as nat)),
                None => None,
            })
        },
{
    lemma_names();
    assert(key_kind(name_of(LineKind::Servers)) == LineKind::Servers);
    assert(key_kind(name_of(LineKind::GlobalTimer)) == LineKind::GlobalTimer);
    assert(key_kind(name_of(LineKind::ChatId)) == LineKind::ChatId);
    assert(key_kind(name_of(LineKind::PairCode)) == LineKind::PairCode);
    assert(key_kind(name_of(LineKind::PairExpiresAt)) == LineKind::PairExpiresAt);
    saved_config_reads_back(existing, config, servers_json, timer_json, "BOIL_SERVERS"@);
    saved_config_reads_back(existing, config, servers_json, timer_json, "BOIL_GLOBAL_TIMER"@);
    saved_config_reads_back(existing, config, servers_json, timer_json, "TG_CHAT_ID"@);
    saved_config_reads_back(existing, config, servers_json, timer_json, "TG_PAIR_CODE"@);
    saved_config_reads_back(existing, config, servers_json, timer_json, "TG_PAIR_EXPIRES_AT"@);
}

/// The configuration that a saved one is read back as: with the bot token of the file, and
/// with its chat id where the configuration has none.
pub open spec fn saved_config(existing: Seq<char>, config: ConfigModel) -> ConfigModel {
    let old = vars_of_lines(without_crs(lines_of(existing)), 0)->Ok_0;
    ConfigModel {
        tg_token: var_value(old, "TG_TOKEN"@),
        tg_chat_id: match config.tg_chat_id {
            Some(c) => Some(c),
            None => var_value(old, "TG_CHAT_ID"@),
        },
        change_ip_cooldown: None,
        migration_notice: None,
        ..config
    }
}

/// A configuration that was saved is loaded again. Its text is read, and where the JSON
/// texts of the servers and of the global timer decode to what they were made of, the
/// variables describe the configuration that was saved.
pub proof fn saved_config_loads(
    existing: Seq<char>,
    config: ConfigModel,
    servers_json: Seq<char>,
    timer_json: Option<Seq<char>>,
)
    requires
        regular_lines(lines_of(existing)),
        no_crlf(servers_json),
        no_crlf_opt(timer_json),
        no_crlf_opt(config.tg_chat_id),
        no_crlf_opt(config.tg_pair_code),
        valid_servers(config.servers),
        valid_opt_timer(config.global_timer),
        config.tg_pair_code matches Some(c) ==> valid_code(c),
        timer_json is Some <==> config.global_timer is Some,
        timer_json matches Some(j) ==> !is_blank(j),
    ensures
        vars_of(merged_content(existing, lines_for(config, servers_json, timer_json))) matches Ok(
            vars,
        ) && forall|r: Result<ConfigModel, ConfigFault>| #[trigger]
            is_described(vars, Some(config.servers), config.global_timer, r) <==> r == Ok::<
                _,
                ConfigFault,
            >(saved_config(existing, config)),
{
    saved_setting_reads_back(existing, config, servers_json, timer_json);
    saved_config_reads_back(existing, config, servers_json, timer_json, "TG_TOKEN"@);
    saved_config_reads_back(existing, config, servers_json, timer_json, "TG_CHAT_ID"@);
    lemma_names();
    assert(key_kind(name_of(LineKind::ChatId)) == LineKind::ChatId);
    assert(key_kind("TG_TOKEN"@) == LineKind::Other) by {
        reveal_strlit("TG_TOKEN");
        reveal_strlit("BOIL_SERVERS");
        reveal_strlit("BOIL_GLOBAL_TIMER");
        reveal_strlit("TG_CHAT_ID");
        reveal_strlit("TG_PAIR_CODE");
        reveal_strlit("TG_PAIR_EXPIRES_AT");
        assert("TG_TOKEN"@.len() == 8);
        assert("BOIL_SERVERS"@.len() == 12);
        assert("BOIL_GLOBAL_TIMER"@.len() == 17);
        assert("TG_CHAT_ID"@.len() == 10);
        assert("TG_PAIR_CODE"@.len() == 12);
        assert("TG_PAIR_EXPIRES_AT"@.len() == 18);
    }
    let vars = vars_of(merged_content(existing, lines_for(config, servers_json, timer_json)))->Ok_0;
    match config.tg_pair_expires_at {
        Some(t) => {
            let d = decimal(t as nat);
            lemma_decimal_digits(t as nat);
            assert(is_digit(d[0]));
            assert(is_digit(d.last()));
            lemma_trimmed_start_at(d, 0);
            assert(d.subrange(0, d.len() as int) =~= d);
            lemma_trimmed_end_at(d, d.len() as int);
            decimal_reads_back(t as nat, u64::MAX as nat);
        },
        None => {},
    }
    assert(global_timer_of(vars, config.global_timer) == Ok::<_, ConfigFault>(config.global_timer));
    assert(pairing_code_of(vars) == Ok::<_, ConfigFault>(config.tg_pair_code));
    assert(pair_expiry_of(vars) == Ok::<_, ConfigFault>(config.tg_pair_expires_at));
    assert(config_with(vars, config.servers, config.global_timer, None) == Ok::<_, ConfigFault>(
        saved_config(existing, config),
    ));
}

/// A text that can be read and holds one variable at most.
pub open spec fn is_one_entry(text: Seq<char>) -> bool {
    vars_of_lines(split_on(text, '\n'), 0) matches Ok(vars) && vars.len() <= 1
}

proof fn lemma_entries_whole(ls: Seq<Seq<char>>)
    requires
        vars_in(ls) is Some,
        no_newline(ls),
    ensures
        forall|i: int| 0 <= i < items_in(ls).len() ==> is_one_entry((#[trigger] items_in(ls)[i]).1),
    decreases ls.len(),
{
    if ls.len() > 0 {
        let l = ls[0];
        let t = tail(ls);
        let cur = rest(raw_of(l), 1);
        lemma_quoted_append(cur, t, Seq::empty());
        lemma_quoted_prefix(cur, t);
        let more = entry_rest(ls);
        let own = own_lines(ls, more);
        let span = t.subrange(0, t.len() - more.len());
        assert(own =~= seq![l] + span);
        let m = ls.len() - more.len();
        assert forall|i: int| 0 <= i < more.len() implies !has_char(#[trigger] more[i], '\n') by {
            assert(more[i] == ls[i + m]);
        }
        assert forall|i: int| 0 <= i < own.len() implies !has_char(#[trigger] own[i], '\n') by {
            assert(own[i] == ls[i]);
        }
        lemma_entry_split(own);
        assert(vars_in(Seq::empty()) == Some(Seq::<VarModel>::empty()));
        if is_remark(l) {
            assert(tail(own) =~= Seq::empty());
        } else {
            let v = if is_quoted(l) {
                quoted_in(cur, t).unwrap().0
            } else {
                plain_value(raw_of(l))
            };
            lemma_entry_kept(l, span, v, Seq::empty(), Seq::empty());
            assert(own + Seq::<Seq<char>>::empty() =~= own);
        }
        assert(from(own, 0) =~= own);
        lemma_vars_same(own, 0);
        let text = joined(own, seq!['\n']);
        assert(is_one_entry(text));
        lemma_entries_whole(more);
        assert(items_in(ls) == seq![(kind_of(l), text)] + items_in(more));
        assert forall|i: int| 0 <= i < items_in(ls).len() implies is_one_entry(
            (#[trigger] items_in(ls)[i]).1,
        ) by {
            if i > 0 {
                assert(items_in(ls)[i] == items_in(more)[i - 1]);
            }
        }
    }
}

/// The entries that saving keeps or replaces are whole: where a file can be read, each
/// of them can be read alone, and none holds two variables.
pub proof fn entries_are_whole(existing: Seq<char>)
    requires
        vars_of(existing) is Ok,
    ensures
        forall|i: int|
            0 <= i < items_of(lines_of(existing), 0).len() ==> is_one_entry(
                (#[trigger] items_of(lines_of(existing), 0)[i]).1,
            ),
{
    let ls = lines_of(existing);
    assert(from(ls, 0) =~= ls);
    lemma_vars_same(ls, 0);
    lemma_items_same(ls, 0);
    lemma_lines_have_no_newline(existing);
    lemma_entries_whole(ls);
}

/// A value that is written in quotes behind a name and an equals sign is read back as
/// the value of that name, whatever its characters are but for `\r\n`.
pub proof fn quoted_value_reads_back(name: Seq<char>, v: Seq<char>)
    requires
        valid_name(name),
        no_crlf(v),
    ensures
        vars_of(name + seq!['='] + quoted(v) + seq!['\n']) == Ok::<_, ConfigFault>(
            seq![(name, v)],
        ),
{
    let s = name + seq!['='] + quoted(v);
    assert(s + seq!['\n'] =~= s.push('\n'));
    lemma_quoted_line(name, v);
    lemma_lines_of_split(s);
    lemma_without_crs(split_on(s, '\n'));
    let out = lines_of(s + seq!['\n']);
    assert(from(out, 0) =~= out);
    lemma_vars_same(out, 0);
}

/// The text `l` is one entry, of the variable `x`.
spec fn reads_alone(l: Seq<char>, x: VarModel) -> bool {
    vars_in(split_on(l, '\n')) == Some(seq![x]) && no_bare_cr(split_on(l, '\n'))
}

/// Four entries one below the other.
proof fn lemma_four_lines(
    l1: Seq<char>,
    l2: Seq<char>,
    l3: Seq<char>,
    l4: Seq<char>,
    x1: VarModel,
    x2: VarModel,
    x3: VarModel,
    x4: VarModel,
)
    requires
        reads_alone(l1, x1),
        reads_alone(l2, x2),
        reads_alone(l3, x3),
        reads_alone(l4, x4),
    ensures
        vars_of(l1 + seq!['\n'] + l2 + seq!['\n'] + l3 + seq!['\n'] + l4 + seq!['\n']) == Ok::<
            _,
            ConfigFault,
        >(seq![x1, x2, x3, x4]),
{
    let nl = seq!['\n'];
    let s = l1 + nl + l2 + nl + l3 + nl + l4;
    assert(s + nl =~= s.push('\n'));
    lemma_split_concat(l1 + nl + l2 + nl + l3, l4);
    lemma_split_concat(l1 + nl + l2, l3);
    lemma_split_concat(l1, l2);
    let p1 = split_on(l1, '\n');
    let p2 = split_on(l2, '\n');
    let p3 = split_on(l3, '\n');
    let p4 = split_on(l4, '\n');
    lemma_vars_append(p1, p2);
    lemma_vars_append(p1 + p2, p3);
    lemma_vars_append(p1 + p2 + p3, p4);
    lemma_no_bare_cr_append(p1, p2);
    lemma_no_bare_cr_append(p1 + p2, p3);
    lemma_no_bare_cr_append(p1 + p2 + p3, p4);
    lemma_lines_of_split(s);
    lemma_without_crs(p1 + p2 + p3 + p4);
    let out = lines_of(s + nl);
    assert(from(out, 0) =~= out);
    lemma_vars_same(out, 0);
    assert(seq![x1] + seq![x2] + seq![x3] + seq![x4] =~= seq![x1, x2, x3, x4]);
}

/// A line with a quoted value, as it is written.
proof fn lemma_reads_quoted(written: Seq<char>, name: Seq<char>, v: Seq<char>)
    requires
        valid_name(name),
        no_crlf(v),
        written == name.push('='),
    ensures
        reads_alone(written + quoted(v), (name, v)),
{
    assert(written =~= name + seq!['=']);
    lemma_quoted_line(name, v);
}

/// The file that the setup writes gives the servers, the bot token and the pairing
/// code back, and nothing else.
pub proof fn setup_content_reads_back(
    servers_json: Seq<char>,
    token: Seq<char>,
    code: Seq<char>,
    expires_at: nat,
)
    requires
        no_crlf(servers_json),
        no_crlf(token),
        no_crlf(code),
    ensures
        vars_of(setup_content(servers_json, token, code, expires_at)) == Ok::<_, ConfigFault>(
            seq![
                ("BOIL_SERVERS"@, servers_json),
                ("TG_TOKEN"@, token),
                ("TG_PAIR_CODE"@, code),
                ("TG_PAIR_EXPIRES_AT"@, decimal(expires_at)),
            ],
        ),
{
    lemma_names();
    assert(valid_name(name_of(LineKind::Servers)));
    assert(valid_name(name_of(LineKind::PairCode)));
    assert(valid_name(name_of(LineKind::PairExpiresAt)));
    assert(valid_name("TG_TOKEN"@)) by {
        reveal_strlit("TG_TOKEN");
    }
    assert("BOIL_SERVERS="@ == "BOIL_SERVERS"@.push('=')) by {
        reveal_strlit("BOIL_SERVERS");
        reveal_strlit("BOIL_SERVERS=");
    }
    assert("TG_TOKEN="@ == "TG_TOKEN"@.push('=')) by {
        reveal_strlit("TG_TOKEN");
        reveal_strlit("TG_TOKEN=");
    }
    assert("TG_PAIR_CODE="@ == "TG_PAIR_CODE"@.push('=')) by {
        reveal_strlit("TG_PAIR_CODE");
        reveal_strlit("TG_PAIR_CODE=");
    }
    assert("TG_PAIR_EXPIRES_AT="@ == "TG_PAIR_EXPIRES_AT"@.push('=')) by {
        reveal_strlit("TG_PAIR_EXPIRES_AT");
        reveal_strlit("TG_PAIR_EXPIRES_AT=");
    }
    assert("\n"@ == seq!['\n']) by {
        reveal_strlit("\n");
    }
    lemma_reads_quoted("BOIL_SERVERS="@, "BOIL_SERVERS"@, servers_json);
    lemma_reads_quoted("TG_TOKEN="@, "TG_TOKEN"@, token);
    lemma_reads_quoted("TG_PAIR_CODE="@, "TG_PAIR_CODE"@, code);
    let name = "TG_PAIR_EXPIRES_AT"@;
    let last = "TG_PAIR_EXPIRES_AT="@ + decimal(expires_at);
    assert("TG_PAIR_EXPIRES_AT="@ =~= name + seq!['=']);
    lemma_number_line(name, expires_at);
    lemma_four_lines(
        "BOIL_SERVERS="@ + quoted(servers_json),
        "TG_TOKEN="@ + quoted(token),
        "TG_PAIR_CODE="@ + quoted(code),
        last,
        ("BOIL_SERVERS"@, servers_json),
        ("TG_TOKEN"@, token),
        ("TG_PAIR_CODE"@, code),
        (name, decimal(expires_at)),
    );
}

} // verus!
