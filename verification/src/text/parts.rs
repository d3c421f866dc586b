//! How the parts of a text make the whole.

use vstd::prelude::*;
use crate::text::{
    after_first, before_first, contains_text, has_char, is_space, joined,
    lemma_first_index, lemma_first_index_is, lines_of, mapped, replaced, rest, split_on,
    starts_with, upper_ascii, word_len, words_of,
};

verus! {

proof fn lemma_joined_from_the_front(first: Seq<char>, more: Seq<Seq<char>>, sep: Seq<char>)
    requires
        more.len() > 0,
    ensures
        joined(seq![first] + more, sep) == first + sep + joined(more, sep),
    decreases more.len(),
{
    let all = seq![first] + more;
    assert(all.last() == more.last());
    if more.len() == 1 {
        assert(all.drop_last() =~= seq![first]);
        assert(joined(seq![first], sep) == first);
        assert(joined(more, sep) == more.last());
        assert(joined(all, sep) =~= first + sep + joined(more, sep));
    } else {
        lemma_joined_from_the_front(first, more.drop_last(), sep);
        assert(all.drop_last() =~= seq![first] + more.drop_last());
        assert(joined(all, sep) =~= first + sep + joined(more, sep));
    }
}

/// The parts of a text between the occurrences of a character hold none of it, and joined with
/// it they are the text again.
pub proof fn split_parts_make_the_whole(s: Seq<char>, c: char)
    ensures
        split_on(s, c).len() > 0,
        forall|i: int, k: int|
            0 <= i < split_on(s, c).len() && 0 <= k < split_on(s, c)[i].len() ==> #[trigger] split_on(
                s,
                c,
            )[i][k] != c,
        joined(split_on(s, c), seq![c]) == s,
    decreases s.len(),
{
    lemma_first_index(s, c);
    let parts = split_on(s, c);
    if has_char(s, c) {
        let first = before_first(s, c);
        let after = after_first(s, c);
        let more = split_on(after, c);
        split_parts_make_the_whole(after, c);
        lemma_joined_from_the_front(first, more, seq![c]);
        assert(s =~= first + seq![c] + after);
        assert forall|i: int, k: int| 0 <= i < parts.len() && 0 <= k < parts[i].len() implies
            #[trigger] parts[i][k] != c by {
            if i == 0 {
                assert(parts[i] == first);
                assert(first[k] == s[k]);
            } else {
                assert(parts[i] == more[i - 1]);
                assert(more[i - 1][k] != c);
            }
        }
    } else {
        assert forall|i: int, k: int| 0 <= i < parts.len() && 0 <= k < parts[i].len() implies
            #[trigger] parts[i][k] != c by {
            assert(parts[i] == s);
        }
    }
}

/// What stands before the first occurrence of a character, the character, and what follows it
/// are the text.
pub proof fn first_occurrence_splits_in_two(a: Seq<char>, c: char, b: Seq<char>)
    requires
        forall|i: int| 0 <= i < a.len() ==> #[trigger] a[i] != c,
    ensures
        has_char(a + seq![c] + b, c),
        before_first(a + seq![c] + b, c) == a,
        after_first(a + seq![c] + b, c) == b,
        !has_char(a, c),
        before_first(a, c) == a,
{
    let s = a + seq![c] + b;
    assert forall|i: int| 0 <= i < a.len() implies s[i] != c by {
        assert(s[i] == a[i]);
    }
    assert(s[a.len() as int] == c);
    lemma_first_index_is(s, c, a.len() as int);
    lemma_first_index_is(a, c, a.len() as int);
    assert(before_first(s, c) =~= a);
    assert(after_first(s, c) =~= b);
    assert(before_first(a, c) =~= a);
}

proof fn lemma_word_ends(w: Seq<char>, s: Seq<char>)
    requires
        forall|i: int| 0 <= i < w.len() ==> !is_space(#[trigger] w[i]),
        s.len() == 0 || is_space(s[0]),
    ensures
        word_len(w + s) == w.len(),
    decreases w.len(),
{
    let t = w + s;
    if w.len() == 0 {
        assert(t =~= s);
    } else {
        let v = rest(w, 1);
        assert(t[0] == w[0]);
        assert(rest(t, 1) =~= v + s);
        assert forall|i: int| 0 <= i < v.len() implies !is_space(#[trigger] v[i]) by {
            assert(v[i] == w[i + 1]);
        }
        lemma_word_ends(v, s);
    }
}

/// The words of a text stand between white space: white space in front takes no part in them,
/// and what goes up to the next white space is a word.
pub proof fn words_stand_between_white_space(w: Seq<char>, c: char, s: Seq<char>)
    requires
        w.len() > 0,
        forall|i: int| 0 <= i < w.len() ==> !is_space(#[trigger] w[i]),
        is_space(c),
    ensures
        words_of(Seq::<char>::empty()).len() == 0,
        words_of(seq![c] + s) == words_of(s),
        words_of(w) == seq![w],
        words_of(w + seq![c] + s) == seq![w] + words_of(s),
{
    let u = seq![c] + s;
    assert(rest(u, 1) =~= s);
    let t = w + seq![c] + s;
    assert(t =~= w + u);
    lemma_word_ends(w, u);
    assert(!is_space(w[0]));
    assert(t[0] == w[0]);
    assert(t.subrange(0, w.len() as int) =~= w);
    assert(rest(t, w.len() as int) =~= u);
    let e = Seq::<char>::empty();
    assert(w + e =~= w);
    lemma_word_ends(w, e);
    assert(w.subrange(0, w.len() as int) =~= w);
    assert(rest(w, w.len() as int) =~= e);
    assert(words_of(e) =~= Seq::empty());
    assert(words_of(w) =~= seq![w]);
}

/// The lines of a text stand between line ends, be they a line feed or a carriage return with
/// a line feed. The last line needs none.
pub proof fn lines_stand_between_line_ends(l: Seq<char>, s: Seq<char>)
    requires
        forall|i: int| 0 <= i < l.len() ==> #[trigger] l[i] != '\n',
        l.len() > 0 ==> l.last() != '\r',
    ensures
        lines_of(Seq::<char>::empty()).len() == 0,
        l.len() > 0 ==> lines_of(l) == seq![l],
        lines_of(l + seq!['\n'] + s) == seq![l] + lines_of(s),
        lines_of(l + seq!['\r', '\n'] + s) == seq![l] + lines_of(s),
{
    first_occurrence_splits_in_two(l, '\n', s);
    let r = l.push('\r');
    assert forall|i: int| 0 <= i < r.len() implies #[trigger] r[i] != '\n' by {
        if i < l.len() {
            assert(r[i] == l[i]);
        }
    }
    first_occurrence_splits_in_two(r, '\n', s);
    assert(l + seq!['\r', '\n'] + s =~= r + seq!['\n'] + s);
    assert(r.drop_last() =~= l);
}

/// The first occurrence of a text is replaced, what stands before it stays, and what follows
/// is gone through in the same way. Where there is none, all stays.
pub proof fn occurrences_are_replaced(
    before: Seq<char>,
    p: Seq<char>,
    after: Seq<char>,
    by: Seq<char>,
)
    requires
        p.len() > 0,
        forall|i: int|
            0 <= i < before.len() ==> !starts_with(#[trigger] rest(before + p + after, i), p),
    ensures
        replaced(before + p + after, p, by) == before + by + replaced(after, p, by),
        contains_text(before + p + after, p),
    decreases before.len(),
{
    let v = before + p + after;
    assert(rest(v, before.len() as int) =~= p + after);
    assert((p + after).subrange(0, p.len() as int) =~= p);
    assert(starts_with(rest(v, before.len() as int), p));
    if before.len() == 0 {
        assert(v =~= p + after);
        assert(rest(v, p.len() as int) =~= after);
        assert(replaced(v, p, by) =~= before + by + replaced(after, p, by));
    } else {
        let b = rest(before, 1);
        let w = b + p + after;
        assert(rest(v, 0) =~= v);
        assert(rest(v, 1) =~= w);
        assert forall|i: int| 0 <= i < b.len() implies !starts_with(#[trigger] rest(w, i), p) by {
            assert(rest(w, i) =~= rest(v, i + 1));
        }
        occurrences_are_replaced(b, p, after, by);
        assert(before =~= seq![v[0]] + b);
        assert(replaced(v, p, by) =~= before + by + replaced(after, p, by));
    }
}

/// A text that does not hold another one stays as it is where that is replaced.
pub proof fn nothing_else_is_replaced(s: Seq<char>, p: Seq<char>, by: Seq<char>)
    requires
        !contains_text(s, p),
    ensures
        replaced(s, p, by) == s,
    decreases s.len(),
{
    assert(rest(s, 0) =~= s);
    if p.len() > 0 && s.len() >= p.len() {
        assert(!starts_with(rest(s, 0), p));
        let t = rest(s, 1);
        assert forall|i: int| 0 <= i <= t.len() implies !starts_with(#[trigger] rest(t, i), p) by {
            assert(rest(t, i) =~= rest(s, i + 1));
        }
        nothing_else_is_replaced(t, p, by);
        assert(seq![s[0]] + t =~= s);
    }
}

/// Two texts are gone through character by character as one.
pub proof fn characters_are_mapped_one_by_one(
    a: Seq<char>,
    b: Seq<char>,
    c: char,
    f: spec_fn(char) -> Seq<char>,
)
    ensures
        mapped(a + b, f) == mapped(a, f) + mapped(b, f),
        mapped(seq![c], f) == f(c),
        mapped(Seq::empty(), f).len() == 0,
    decreases b.len(),
{
    assert(seq![c].drop_last() =~= Seq::<char>::empty());
    assert(mapped(Seq::<char>::empty(), f) =~= Seq::<char>::empty());
    assert(mapped(seq![c], f) == mapped(Seq::<char>::empty(), f) + f(c));
    assert(mapped(seq![c], f) =~= f(c));
    if b.len() == 0 {
        assert(a + b =~= a);
        assert(mapped(a, f) + mapped(b, f) =~= mapped(a, f));
    } else {
        characters_are_mapped_one_by_one(a, b.drop_last(), c, f);
        assert((a + b).drop_last() =~= a + b.drop_last());
        assert(mapped(a + b, f) =~= mapped(a, f) + mapped(b, f));
    }
}

/// Letters without accents are put in upper case, all else stays; once is enough.
pub proof fn upper_case_changes_small_letters_only(s: Seq<char>, i: int)
    ensures
        upper_ascii(s).len() == s.len(),
        0 <= i < s.len() ==> {
            let c = upper_ascii(s)[i];
            &&& 'a' <= s[i] <= 'z' ==> c as int == s[i] as int - 'a' as int + 'A' as int
            &&& !('a' <= s[i] <= 'z') ==> c == s[i]
        },
        upper_ascii(upper_ascii(s)) == upper_ascii(s),
{
    let u = upper_ascii(s);
    assert forall|k: int| 0 <= k < s.len() implies upper_ascii(u)[k] == u[k] by {
        assert('a' <= s[k] <= 'z' ==> 'A' <= u[k] <= 'Z');
    }
    assert(upper_ascii(u) =~= u);
}

/// The parts stand one after the other, with the separator between neighbours.
pub proof fn joined_parts_stand_in_order(first: Seq<char>, more: Seq<Seq<char>>, sep: Seq<char>)
    ensures
        joined(Seq::empty(), sep).len() == 0,
        joined(seq![first], sep) == first,
        more.len() > 0 ==> joined(seq![first] + more, sep) == first + sep + joined(more, sep),
{
    if more.len() > 0 {
        lemma_joined_from_the_front(first, more, sep);
    }
}

/// A text that is in one of two is in both together.
pub proof fn lemma_parts_are_in_the_whole()
    ensures
        forall|p: Seq<char>| #[trigger] contains_text(p, p),
        forall|x: Seq<char>, y: Seq<char>, p: Seq<char>|
            (contains_text(x, p) || contains_text(y, p)) ==> #[trigger] contains_text(x + y, p),
{
    assert forall|p: Seq<char>| #[trigger] contains_text(p, p) by {
        assert(rest(p, 0) =~= p);
        assert(starts_with(rest(p, 0), p));
    }
    assert forall|x: Seq<char>, y: Seq<char>, p: Seq<char>|
        (contains_text(x, p) || contains_text(y, p)) implies #[trigger] contains_text(x + y, p) by {
        if contains_text(x, p) {
            let i = choose|i: int| 0 <= i <= x.len() && starts_with(#[trigger] rest(x, i), p);
            assert(rest(x + y, i) =~= rest(x, i) + y);
            assert(rest(x + y, i).subrange(0, p.len() as int) =~= rest(x, i).subrange(
                0,
                p.len() as int,
            ));
            assert(starts_with(rest(x + y, i), p));
        } else {
            let i = choose|i: int| 0 <= i <= y.len() && starts_with(#[trigger] rest(y, i), p);
            let j = x.len() + i;
            assert(rest(x + y, j) =~= rest(y, i));
            assert(starts_with(rest(x + y, j), p));
        }
    }
}

} // verus!
