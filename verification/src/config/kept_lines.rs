//! What saving leaves alone in the configuration file.

use vstd::prelude::*;
use crate::config::env_file::{
    entry_end, has_kind, is_named, is_quoted, is_remark, items_of, lemma_quoted_value_end, line_for,
    merged_lines, push_opt, raw_of, rewritten, ConfigLinesModel, LineKind,
};
use crate::text::{joined, lines_of, rest};

verus! {

/// Saving leaves the entry alone: it holds none of the settings that are written, or
/// it is the chat id and there is no new one.
pub open spec fn is_kept(k: LineKind, new: ConfigLinesModel) -> bool {
    k == LineKind::Other || (k == LineKind::ChatId && new.chat_id is None)
}

/// The entries that saving leaves alone, each with all of its lines.
pub open spec fn kept_entries(items: Seq<(LineKind, Seq<char>)>, new: ConfigLinesModel) -> Seq<
    Seq<char>,
>
    decreases items.len(),
{
    if items.len() == 0 {
        Seq::empty()
    } else if is_kept(items.last().0, new) {
        kept_entries(items.drop_last(), new).push(items.last().1)
    } else {
        kept_entries(items.drop_last(), new)
    }
}

pub open spec fn item_texts(items: Seq<(LineKind, Seq<char>)>) -> Seq<Seq<char>> {
    Seq::new(items.len(), |i: int| items[i].1)
}

/// The elements of `a` stand in `b` in the same order, perhaps with others between them.
pub open spec fn within(a: Seq<Seq<char>>, b: Seq<Seq<char>>) -> bool
    decreases b.len(),
{
    a.len() == 0 || (b.len() > 0 && ((a.last() == b.last() && within(a.drop_last(), b.drop_last()))
        || within(a, b.drop_last())))
}

proof fn lemma_within_push(a: Seq<Seq<char>>, b: Seq<Seq<char>>, x: Seq<char>)
    requires
        within(a, b),
    ensures
        within(a, b.push(x)),
        within(a.push(x), b.push(x)),
{
    assert(b.push(x).drop_last() =~= b);
    assert(a.push(x).drop_last() =~= a);
}

proof fn lemma_within_insert(a: Seq<Seq<char>>, b: Seq<Seq<char>>, i: int, x: Seq<char>)
    requires
        within(a, b),
        0 <= i <= b.len(),
    ensures
        within(a, b.insert(i, x)),
    decreases b.len(),
{
    let c = b.insert(i, x);
    if i == b.len() {
        lemma_within_push(a, b, x);
        assert(c =~= b.push(x));
    } else if a.len() > 0 {
        assert(c.last() == b.last());
        assert(c.drop_last() =~= b.drop_last().insert(i, x));
        if a.last() == b.last() && within(a.drop_last(), b.drop_last()) {
            lemma_within_insert(a.drop_last(), b.drop_last(), i, x);
        } else {
            lemma_within_insert(a, b.drop_last(), i, x);
        }
    }
}

proof fn lemma_within_push_opt(a: Seq<Seq<char>>, b: Seq<Seq<char>>, x: Option<Seq<char>>)
    requires
        within(a, b),
    ensures
        within(a, push_opt(b, x)),
{
    if let Some(line) = x {
        lemma_within_push(a, b, line);
    }
}

proof fn lemma_rewriting_keeps(items: Seq<(LineKind, Seq<char>)>, new: ConfigLinesModel)
    ensures
        within(kept_entries(items, new), rewritten(items, new)),
    decreases items.len(),
{
    if items.len() > 0 {
        lemma_rewriting_keeps(items.drop_last(), new);
        let a = kept_entries(items.drop_last(), new);
        let b = rewritten(items.drop_last(), new);
        if is_kept(items.last().0, new) {
            lemma_within_push(a, b, items.last().1);
        } else {
            lemma_within_push_opt(a, b, line_for(items.last(), new));
        }
    }
}

proof fn lemma_joined_append(a: Seq<Seq<char>>, b: Seq<Seq<char>>, sep: Seq<char>)
    requires
        a.len() > 0,
        b.len() > 0,
    ensures
        joined(a + b, sep) == joined(a, sep) + sep + joined(b, sep),
    decreases b.len(),
{
    let c = a + b;
    assert(c.last() == b.last());
    assert(c.drop_last() =~= a + b.drop_last());
    if b.len() == 1 {
        assert(c.drop_last() =~= a);
    } else {
        lemma_joined_append(a, b.drop_last(), sep);
        assert(joined(c, sep) =~= joined(a, sep) + sep + joined(b, sep));
    }
}

proof fn lemma_entry_end(lines: Seq<Seq<char>>, i: int)
    requires
        0 <= i < lines.len(),
    ensures
        i < entry_end(lines, i) <= lines.len(),
{
    let l = lines[i];
    if !is_remark(l) && is_named(l) && is_quoted(l) {
        lemma_quoted_value_end(rest(raw_of(l), 1), lines, i + 1);
    }
}

/// The entries from line `i` on, put together, are the lines from there on.
proof fn lemma_entries_join(lines: Seq<Seq<char>>, i: int)
    requires
        0 <= i <= lines.len(),
    ensures
        joined(item_texts(items_of(lines, i)), seq!['\n']) == joined(
            lines.subrange(i, lines.len() as int),
            seq!['\n'],
        ),
        i < lines.len() ==> items_of(lines, i).len() > 0,
    decreases lines.len() - i,
{
    let sep = seq!['\n'];
    let all = lines.subrange(i, lines.len() as int);
    if i < lines.len() {
        lemma_entry_end(lines, i);
        let n = entry_end(lines, i);
        lemma_entries_join(lines, n);
        let own = lines.subrange(i, n);
        let more = lines.subrange(n, lines.len() as int);
        let text = joined(own, sep);
        let b = item_texts(items_of(lines, n));
        assert(item_texts(items_of(lines, i)) =~= seq![text] + b);
        assert(all =~= own + more);
        if n < lines.len() {
            lemma_joined_append(own, more, sep);
            lemma_joined_append(seq![text], b, sep);
        } else {
            assert(all =~= own);
            assert(seq![text] + b =~= seq![text]);
        }
    } else {
        assert(item_texts(items_of(lines, i)) =~= all);
    }
}

/// The entries that saving keeps or replaces are all of the file: put together, they
/// are its lines.
pub proof fn entries_are_the_lines(existing: Seq<char>)
    ensures
        joined(item_texts(items_of(lines_of(existing), 0)), seq!['\n']) == joined(
            lines_of(existing),
            seq!['\n'],
        ),
{
    let ls = lines_of(existing);
    lemma_entries_join(ls, 0);
    assert(ls.subrange(0, ls.len() as int) =~= ls);
}

/// Saving keeps every entry of the file that holds none of the settings it writes, the
/// comments and the blank lines too, and the chat id where there is no new one. Each
/// stays whole, with all lines of its value, and they stay in their order.
pub proof fn saving_keeps_other_lines(existing: Seq<char>, new: ConfigLinesModel)
    ensures
        within(
            kept_entries(items_of(lines_of(existing), 0), new),
            merged_lines(items_of(lines_of(existing), 0), new),
        ),
{
    let items = items_of(lines_of(existing), 0);
    let a = kept_entries(items, new);
    lemma_rewriting_keeps(items, new);
    let l0 = rewritten(items, new);
    lemma_within_insert(a, l0, 0, new.servers);
    let l1 = if has_kind(items, LineKind::Servers) {
        l0
    } else {
        l0.insert(0, new.servers)
    };
    let l2 = match new.global_timer {
        Some(g) => {
            let i: int = if l1.len() >= 1 {
                1
            } else {
                0
            };
            lemma_within_insert(a, l1, i, g);
            if has_kind(items, LineKind::GlobalTimer) {
                l1
            } else {
                l1.insert(i, g)
            }
        },
        None => l1,
    };
    lemma_within_push_opt(a, l2, new.chat_id);
    let l3 = if has_kind(items, LineKind::ChatId) {
        l2
    } else {
        push_opt(l2, new.chat_id)
    };
    lemma_within_push_opt(a, l3, new.pair_code);
    let l4 = if has_kind(items, LineKind::PairCode) {
        l3
    } else {
        push_opt(l3, new.pair_code)
    };
    lemma_within_push_opt(a, l4, new.pair_expires_at);
}

} // verus!
