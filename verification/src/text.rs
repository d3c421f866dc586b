//! Text as sequences of characters: what trimming, splitting, searching and
//! replacing mean, and the functions that do it.

use vstd::prelude::*;

pub mod parts;

verus! {

/// `String::push` of std appends one character to the end of the string.
pub assume_specification[ String::push ](s: &mut String, c: char)
    ensures
        final(s)@ == old(s)@.push(c),
;

// ---------------------------------------------------------------------------
// What the operations mean
// ---------------------------------------------------------------------------

/// The characters with the Unicode property `White_Space`.
pub open spec fn is_space(c: char) -> bool {
    let v = c as u32;
    ||| 0x9 <= v <= 0xd
    ||| v == 0x20
    ||| v == 0x85
    ||| v == 0xa0
    ||| v == 0x1680
    ||| 0x2000 <= v <= 0x200a
    ||| v == 0x2028
    ||| v == 0x2029
    ||| v == 0x202f
    ||| v == 0x205f
    ||| v == 0x3000
}

pub open spec fn is_digit(c: char) -> bool {
    '0' <= c <= '9'
}

pub open spec fn is_ascii_letter_or_digit(c: char) -> bool {
    '0' <= c <= '9' || 'a' <= c <= 'z' || 'A' <= c <= 'Z'
}

/// `s` without its leading white space.
pub open spec fn trimmed_start(s: Seq<char>) -> Seq<char>
    decreases s.len(),
{
    if s.len() > 0 && is_space(s[0]) {
        trimmed_start(s.subrange(1, s.len() as int))
    } else {
        s
    }
}

/// `s` without its trailing white space.
pub open spec fn trimmed_end(s: Seq<char>) -> Seq<char>
    decreases s.len(),
{
    if s.len() > 0 && is_space(s.last()) {
        trimmed_end(s.drop_last())
    } else {
        s
    }
}

/// `s` without white space at either end.
pub open spec fn trimmed(s: Seq<char>) -> Seq<char> {
    trimmed_end(trimmed_start(s))
}

/// `s` holds nothing but white space.
pub open spec fn is_blank(s: Seq<char>) -> bool {
    forall|i: int| 0 <= i < s.len() ==> is_space(#[trigger] s[i])
}

/// The position of the first `c` in `s`, or the length of `s` where it has none.
pub open spec fn first_index(s: Seq<char>, c: char) -> nat
    decreases s.len(),
{
    if s.len() == 0 || s[0] == c {
        0
    } else {
        1 + first_index(s.subrange(1, s.len() as int), c)
    }
}

pub open spec fn before_first(s: Seq<char>, c: char) -> Seq<char> {
    s.subrange(0, first_index(s, c) as int)
}

/// What follows the first `c` of `s`; only for a `c` that occurs.
pub open spec fn after_first(s: Seq<char>, c: char) -> Seq<char> {
    s.subrange(first_index(s, c) as int + 1, s.len() as int)
}

pub open spec fn has_char(s: Seq<char>, c: char) -> bool {
    first_index(s, c) < s.len()
}

pub open spec fn starts_with(s: Seq<char>, p: Seq<char>) -> bool {
    s.len() >= p.len() && s.subrange(0, p.len() as int) == p
}

pub open spec fn ends_with(s: Seq<char>, p: Seq<char>) -> bool {
    s.len() >= p.len() && s.subrange(s.len() - p.len(), s.len() as int) == p
}

/// What follows the first `n` characters.
pub open spec fn rest(s: Seq<char>, n: int) -> Seq<char> {
    s.subrange(n, s.len() as int)
}

/// `p` occurs in `s`.
pub open spec fn contains_text(s: Seq<char>, p: Seq<char>) -> bool {
    exists|i: int| 0 <= i <= s.len() && starts_with(#[trigger] rest(s, i), p)
}

/// `s` with every occurrence of `p`, taken from the left and without overlap,
/// replaced by `r`. For an empty `p`, which never occurs in such a search, it is `s`.
pub open spec fn replaced(s: Seq<char>, p: Seq<char>, r: Seq<char>) -> Seq<char>
    decreases s.len(),
{
    if p.len() == 0 || s.len() < p.len() {
        s
    } else if starts_with(s, p) {
        r + replaced(rest(s, p.len() as int), p, r)
    } else {
        seq![s[0]] + replaced(rest(s, 1), p, r)
    }
}

/// `s` with each character `c` replaced by the text `f(c)`.
pub open spec fn mapped(s: Seq<char>, f: spec_fn(char) -> Seq<char>) -> Seq<char>
    decreases s.len(),
{
    if s.len() == 0 {
        s
    } else {
        mapped(s.drop_last(), f) + f(s.last())
    }
}

/// `s` without one final carriage return.
pub open spec fn without_cr(s: Seq<char>) -> Seq<char> {
    if s.len() > 0 && s.last() == '\r' {
        s.drop_last()
    } else {
        s
    }
}

/// The lines of `s`: a line ends with `\n` or `\r\n`, which do not belong to it,
/// and the end of a text that ends in `\n` is no further line.
pub open spec fn lines_of(s: Seq<char>) -> Seq<Seq<char>>
    decreases s.len(),
{
    if s.len() == 0 {
        Seq::empty()
    } else if !has_char(s, '\n') {
        seq![s]
    } else {
        seq![without_cr(before_first(s, '\n'))] + lines_of(after_first(s, '\n'))
    }
}

/// The length of the first word of `s`: up to its first white space.
pub open spec fn word_len(s: Seq<char>) -> nat
    decreases s.len(),
{
    if s.len() == 0 || is_space(s[0]) {
        0
    } else {
        1 + word_len(rest(s, 1))
    }
}

/// The words of `s`: what stands between white space.
pub open spec fn words_of(s: Seq<char>) -> Seq<Seq<char>>
    decreases s.len(),
{
    if s.len() == 0 {
        Seq::empty()
    } else if is_space(s[0]) {
        words_of(rest(s, 1))
    } else {
        let n = word_len(s) as int;
        if 0 < n <= s.len() {
            seq![s.subrange(0, n)] + words_of(rest(s, n))
        } else {
            Seq::empty()
        }
    }
}

/// The parts of `s` between the occurrences of `c`.
pub open spec fn split_on(s: Seq<char>, c: char) -> Seq<Seq<char>>
    decreases s.len(),
{
    if !has_char(s, c) {
        seq![s]
    } else {
        seq![before_first(s, c)] + split_on(after_first(s, c), c)
    }
}

/// The parts, one after the other, with `sep` between neighbours.
pub open spec fn joined(parts: Seq<Seq<char>>, sep: Seq<char>) -> Seq<char>
    decreases parts.len(),
{
    if parts.len() == 0 {
        Seq::empty()
    } else if parts.len() == 1 {
        parts[0]
    } else {
        joined(parts.drop_last(), sep) + sep + parts.last()
    }
}

pub open spec fn upper_char(c: char) -> char {
    if 'a' <= c <= 'z' {
        ((c as u8 - 32) as u8) as char
    } else {
        c
    }
}

/// `s` with the ASCII letters in upper case.
pub open spec fn upper_ascii(s: Seq<char>) -> Seq<char> {
    Seq::new(s.len(), |i: int| upper_char(s[i]))
}

/// The first `n` characters of `s`, or all of it.
pub open spec fn at_most(s: Seq<char>, n: nat) -> Seq<char> {
    if s.len() <= n {
        s
    } else {
        s.subrange(0, n as int)
    }
}

// ---------------------------------------------------------------------------
// Views of optional and repeated text
// ---------------------------------------------------------------------------

pub open spec fn opt_text(o: Option<String>) -> Option<Seq<char>> {
    match o {
        Some(s) => Some(s@),
        None => None,
    }
}

pub open spec fn texts(v: Seq<String>) -> Seq<Seq<char>> {
    Seq::new(v.len(), |i: int| v[i]@)
}

// ---------------------------------------------------------------------------
// Characters in and out of strings
// ---------------------------------------------------------------------------

pub fn chars_of(s: &str) -> (r: Vec<char>)
    ensures
        r@ == s@,
{
    let mut r: Vec<char> = Vec::new();
    for c in it: s.chars()
        invariant
            it.seq() == s@,
            r@ == s@.subrange(0, it.index() as int),
    {
        r.push(c);
        assert(r@ =~= s@.subrange(0, it.index() + 1));
    }
    assert(r@ =~= s@);
    r
}

/// The characters from `i` up to `j` as a string.
pub fn slice_text(cs: &Vec<char>, i: usize, j: usize) -> (r: String)
    requires
        i <= j <= cs@.len(),
    ensures
        r@ == cs@.subrange(i as int, j as int),
{
    let mut r = String::new();
    let mut k: usize = i;
    while k < j
        invariant
            i <= k <= j <= cs@.len(),
            r@ == cs@.subrange(i as int, k as int),
        decreases j - k,
    {
        r.push(cs[k]);
        k += 1;
        assert(r@ =~= cs@.subrange(i as int, k as int));
    }
    assert(r@ =~= cs@.subrange(i as int, j as int));
    r
}

pub fn same_text(a: &str, b: &str) -> (r: bool)
    ensures
        r == (a@ == b@),
{
    a.to_owned() == b.to_owned()
}

pub fn clone_opt(o: &Option<String>) -> (r: Option<String>)
    ensures
        r == *o,
        opt_text(r) == opt_text(*o),
{
    match o {
        Some(s) => Some(s.clone()),
        None => None,
    }
}

// ---------------------------------------------------------------------------
// Facts about the operations
// ---------------------------------------------------------------------------

pub proof fn lemma_first_index(s: Seq<char>, c: char)
    ensures
        first_index(s, c) <= s.len(),
        first_index(s, c) < s.len() ==> s[first_index(s, c) as int] == c,
        forall|i: int| 0 <= i < first_index(s, c) ==> s[i] != c,
    decreases s.len(),
{
    if s.len() == 0 || s[0] == c {
    } else {
        let t = s.subrange(1, s.len() as int);
        lemma_first_index(t, c);
        assert forall|i: int| 0 <= i < first_index(s, c) implies s[i] != c by {
            if i > 0 {
                assert(t[i - 1] == s[i]);
            }
        }
    }
}

/// A position that holds `c` with no `c` before it is the first one.
pub proof fn lemma_first_index_is(s: Seq<char>, c: char, n: int)
    requires
        0 <= n <= s.len(),
        n < s.len() ==> s[n] == c,
        forall|i: int| 0 <= i < n ==> s[i] != c,
    ensures
        first_index(s, c) == n,
{
    lemma_first_index(s, c);
}

pub proof fn lemma_trimmed_start_at(s: Seq<char>, n: int)
    requires
        0 <= n <= s.len(),
        forall|i: int| 0 <= i < n ==> is_space(s[i]),
        n < s.len() ==> !is_space(s[n]),
    ensures
        trimmed_start(s) == s.subrange(n, s.len() as int),
    decreases s.len(),
{
    if n == 0 {
        assert(s.subrange(0, s.len() as int) =~= s);
    } else {
        let t = s.subrange(1, s.len() as int);
        assert forall|i: int| 0 <= i < n - 1 implies is_space(t[i]) by {
            assert(t[i] == s[i + 1]);
        }
        lemma_trimmed_start_at(t, n - 1);
        assert(t.subrange(n - 1, t.len() as int) =~= s.subrange(n, s.len() as int));
    }
}

pub proof fn lemma_trimmed_end_at(s: Seq<char>, n: int)
    requires
        0 <= n <= s.len(),
        forall|i: int| n <= i < s.len() ==> is_space(s[i]),
        n > 0 ==> !is_space(s[n - 1]),
    ensures
        trimmed_end(s) == s.subrange(0, n),
    decreases s.len(),
{
    if n == s.len() {
        assert(s.subrange(0, s.len() as int) =~= s);
    } else {
        lemma_trimmed_end_at(s.drop_last(), n);
        assert(s.drop_last().subrange(0, n) =~= s.subrange(0, n));
    }
}

/// Trimming leaves nothing exactly of what is blank.
pub proof fn lemma_trimmed_blank(s: Seq<char>)
    ensures
        trimmed(s).len() == 0 <==> is_blank(s),
        trimmed_start(s).len() == 0 <==> is_blank(s),
    decreases s.len(),
{
    if s.len() > 0 && is_space(s[0]) {
        let t = s.subrange(1, s.len() as int);
        lemma_trimmed_blank(t);
        if is_blank(t) {
            assert forall|i: int| 0 <= i < s.len() implies is_space(s[i]) by {
                if i > 0 {
                    assert(t[i - 1] == s[i]);
                }
            }
        }
        if is_blank(s) {
            assert forall|i: int| 0 <= i < t.len() implies is_space(t[i]) by {
                assert(t[i] == s[i + 1]);
            }
        }
    } else if s.len() > 0 {
        assert(!is_blank(s)) by {
            assert(!is_space(s[0]));
        }
        lemma_trimmed_end_keeps(s);
    }
}

/// What is left after trimming begins and ends with something.
pub proof fn lemma_trimmed_ends(s: Seq<char>)
    requires
        !is_blank(s),
    ensures
        trimmed(s).len() > 0,
        !is_space(trimmed(s)[0]),
        !is_space(trimmed(s).last()),
{
    lemma_trimmed_blank(s);
    lemma_trimmed_start_first(s);
    lemma_trimmed_end_last(trimmed_start(s));
}

/// Trimming takes white space away at both ends, all of it and nothing else; once is enough.
pub proof fn trimming_takes_the_ends_away(s: Seq<char>) -> (r: (Seq<char>, Seq<char>))
    ensures
        s == r.0 + trimmed(s) + r.1,
        is_blank(r.0),
        is_blank(r.1),
        trimmed(s).len() > 0 ==> !is_space(trimmed(s)[0]) && !is_space(trimmed(s).last()),
        trimmed(trimmed(s)) == trimmed(s),
    decreases s.len(),
{
    let t = trimmed_start(s);
    let r = (lemma_start_taken(s), lemma_end_taken(t));
    assert(s =~= r.0 + trimmed(s) + r.1);
    if is_blank(s) {
        lemma_trimmed_blank(s);
        assert(trimmed(s) =~= Seq::empty());
    } else {
        lemma_trimmed_ends(s);
    }
    r
}

proof fn lemma_start_taken(s: Seq<char>) -> (r: Seq<char>)
    ensures
        s == r + trimmed_start(s),
        is_blank(r),
    decreases s.len(),
{
    if s.len() > 0 && is_space(s[0]) {
        let t = s.subrange(1, s.len() as int);
        let r = lemma_start_taken(t);
        let all = seq![s[0]] + r;
        assert(s =~= seq![s[0]] + t);
        assert(s =~= all + trimmed_start(s));
        assert forall|i: int| 0 <= i < all.len() implies is_space(#[trigger] all[i]) by {
            if i > 0 {
                assert(all[i] == r[i - 1]);
            }
        }
        all
    } else {
        assert(s =~= Seq::<char>::empty() + s);
        Seq::empty()
    }
}

proof fn lemma_end_taken(s: Seq<char>) -> (r: Seq<char>)
    ensures
        s == trimmed_end(s) + r,
        is_blank(r),
    decreases s.len(),
{
    if s.len() > 0 && is_space(s.last()) {
        let t = s.drop_last();
        let r = lemma_end_taken(t);
        let all = r.push(s.last());
        assert(s =~= t.push(s.last()));
        assert(s =~= trimmed_end(s) + all);
        assert forall|i: int| 0 <= i < all.len() implies is_space(#[trigger] all[i]) by {
            if i < r.len() {
                assert(all[i] == r[i]);
            }
        }
        all
    } else {
        assert(s =~= s + Seq::<char>::empty());
        Seq::empty()
    }
}

proof fn lemma_trimmed_start_first(s: Seq<char>)
    ensures
        trimmed_start(s).len() > 0 ==> !is_space(trimmed_start(s)[0]),
    decreases s.len(),
{
    if s.len() > 0 && is_space(s[0]) {
        lemma_trimmed_start_first(s.subrange(1, s.len() as int));
    }
}

proof fn lemma_trimmed_end_last(s: Seq<char>)
    ensures
        trimmed_end(s).len() > 0 ==> !is_space(trimmed_end(s).last()) && trimmed_end(s)[0] == s[0],
    decreases s.len(),
{
    if s.len() > 0 && is_space(s.last()) {
        lemma_trimmed_end_last(s.drop_last());
    }
}

proof fn lemma_trimmed_end_keeps(s: Seq<char>)
    requires
        s.len() > 0,
        !is_space(s[0]),
    ensures
        trimmed_end(s).len() > 0,
    decreases s.len(),
{
    if is_space(s.last()) {
        lemma_trimmed_end_keeps(s.drop_last());
    }
}

// ---------------------------------------------------------------------------
// The operations
// ---------------------------------------------------------------------------

pub fn is_whitespace(c: char) -> (r: bool)
    ensures
        r == is_space(c),
{
    let v: u32 = c as u32;
    (0x9 <= v && v <= 0xd) || v == 0x20 || v == 0x85 || v == 0xa0 || v == 0x1680 || (0x2000 <= v
        && v <= 0x200a) || v == 0x2028 || v == 0x2029 || v == 0x202f || v == 0x205f || v == 0x3000
}

/// The number of white-space characters at `from` and after it.
fn skip_space(cs: &Vec<char>, from: usize) -> (r: usize)
    requires
        from <= cs@.len(),
    ensures
        from <= r <= cs@.len(),
        forall|i: int| from <= i < r ==> is_space(cs@[i]),
        r < cs@.len() ==> !is_space(cs@[r as int]),
{
    let mut i: usize = from;
    while i < cs.len() && is_whitespace(cs[i])
        invariant
            from <= i <= cs@.len(),
            forall|k: int| from <= k < i ==> is_space(cs@[k]),
        decreases cs@.len() - i,
    {
        i += 1;
    }
    i
}

pub fn trim_start(s: &str) -> (r: String)
    ensures
        r@ == trimmed_start(s@),
{
    let cs = chars_of(s);
    let n = skip_space(&cs, 0);
    proof {
        lemma_trimmed_start_at(s@, n as int);
    }
    slice_text(&cs, n, cs.len())
}

pub fn trim(s: &str) -> (r: String)
    ensures
        r@ == trimmed(s@),
{
    let cs = chars_of(s);
    let n = skip_space(&cs, 0);
    let mut j: usize = cs.len();
    while j > n && is_whitespace(cs[j - 1])
        invariant
            n <= j <= cs@.len(),
            forall|k: int| j <= k < cs@.len() ==> is_space(cs@[k]),
        decreases j,
    {
        j -= 1;
    }
    proof {
        lemma_trimmed_start_at(s@, n as int);
        let t = trimmed_start(s@);
        assert forall|i: int| j - n <= i < t.len() implies is_space(t[i]) by {
            assert(t[i] == s@[i + n]);
        }
        if j > n {
            assert(t[j - n - 1] == s@[j - 1]);
        }
        lemma_trimmed_end_at(t, j - n);
        assert(t.subrange(0, j - n) =~= s@.subrange(n as int, j as int));
    }
    slice_text(&cs, n, j)
}

pub fn is_blank_text(s: &str) -> (r: bool)
    ensures
        r == is_blank(s@),
        r == (trimmed(s@).len() == 0),
{
    let cs = chars_of(s);
    let n = skip_space(&cs, 0);
    proof {
        lemma_trimmed_blank(s@);
        if n < cs@.len() {
            assert(!is_space(s@[n as int]));
        }
    }
    n == cs.len()
}

/// The position of the first `c` at `from` or after it, or the number of characters.
pub fn index_from(cs: &Vec<char>, c: char, from: usize) -> (r: usize)
    requires
        from <= cs@.len(),
    ensures
        from <= r <= cs@.len(),
        r == from + first_index(rest(cs@, from as int), c),
        r < cs@.len() ==> cs@[r as int] == c,
        forall|i: int| from <= i < r ==> cs@[i] != c,
{
    let mut i: usize = from;
    while i < cs.len() && cs[i] != c
        invariant
            from <= i <= cs@.len(),
            forall|k: int| from <= k < i ==> cs@[k] != c,
        decreases cs@.len() - i,
    {
        i += 1;
    }
    proof {
        let t = rest(cs@, from as int);
        assert forall|k: int| 0 <= k < i - from implies t[k] != c by {
            assert(t[k] == cs@[k + from]);
        }
        if i < cs@.len() {
            assert(t[i - from] == cs@[i as int]);
        }
        lemma_first_index_is(t, c, i - from);
    }
    i
}

/// `s` split at its first `c`, which belongs to neither part.
pub fn split_once(s: &str, c: char) -> (r: Option<(String, String)>)
    ensures
        match r {
            Some((a, b)) => has_char(s@, c) && a@ == before_first(s@, c) && b@ == after_first(s@, c),
            None => !has_char(s@, c),
        },
{
    let cs = chars_of(s);
    let n = index_from(&cs, c, 0);
    assert(rest(s@, 0) =~= s@);
    if n < cs.len() {
        Some((slice_text(&cs, 0, n), slice_text(&cs, n + 1, cs.len())))
    } else {
        None
    }
}

/// The parts of `s` between the occurrences of `c`.
pub fn split(s: &str, c: char) -> (r: Vec<String>)
    ensures
        texts(r@) == split_on(s@, c),
{
    let mut r: Vec<String> = Vec::new();
    let cs = chars_of(s);
    let mut i: usize = 0;
    proof {
        assert(rest(s@, 0) =~= s@);
        assert(texts(r@) + split_on(s@, c) =~= split_on(s@, c));
    }
    loop
        invariant
            cs@ == s@,
            i <= cs@.len(),
            texts(r@) + split_on(rest(s@, i as int), c) == split_on(s@, c),
        decreases cs@.len() - i,
    {
        let ghost cur = rest(s@, i as int);
        let ghost before = r@;
        let n = index_from(&cs, c, i);
        proof {
            lemma_first_index(cur, c);
        }
        let part = slice_text(&cs, i, n);
        r.push(part);
        assert(texts(r@) =~= texts(before).push(part@));
        if n == cs.len() {
            assert(part@ =~= cur);
            assert(texts(before) + seq![cur] =~= texts(before).push(cur));
            return r;
        }
        proof {
            assert(part@ =~= before_first(cur, c));
            assert(rest(s@, n + 1) =~= after_first(cur, c));
            let more = split_on(after_first(cur, c), c);
            assert(texts(before) + (seq![part@] + more) =~= texts(before).push(part@) + more);
        }
        i = n + 1;
    }
}

/// Whether `p` stands in `cs` at the position `at`.
fn stands_at(cs: &Vec<char>, p: &Vec<char>, at: usize) -> (r: bool)
    requires
        at <= cs@.len(),
    ensures
        r == starts_with(rest(cs@, at as int), p@),
{
    let total: usize = cs.len();
    if total - at < p.len() {
        return false;
    }
    let mut i: usize = 0;
    let ghost t = rest(cs@, at as int);
    while i < p.len()
        invariant
            i <= p@.len(),
            at + p@.len() <= total,
            total == cs@.len(),
            t == rest(cs@, at as int),
            forall|k: int| 0 <= k < i ==> t[k] == p@[k],
        decreases p@.len() - i,
    {
        if cs[at + i] != p[i] {
            assert(t[i as int] == cs@[at + i]);
            assert(t.subrange(0, p@.len() as int)[i as int] != p@[i as int]);
            return false;
        }
        assert(t[i as int] == cs@[at + i]);
        i += 1;
    }
    assert(t.subrange(0, p@.len() as int) =~= p@);
    true
}

pub fn has_prefix(s: &str, p: &str) -> (r: bool)
    ensures
        r == starts_with(s@, p@),
{
    let cs = chars_of(s);
    let ps = chars_of(p);
    assert(rest(s@, 0) =~= s@);
    stands_at(&cs, &ps, 0)
}

/// What follows the prefix `p` of `s`.
pub fn strip_prefix(s: &str, p: &str) -> (r: Option<String>)
    ensures
        match r {
            Some(t) => starts_with(s@, p@) && t@ == rest(s@, p@.len() as int),
            None => !starts_with(s@, p@),
        },
{
    let cs = chars_of(s);
    let ps = chars_of(p);
    assert(rest(s@, 0) =~= s@);
    if stands_at(&cs, &ps, 0) {
        Some(slice_text(&cs, ps.len(), cs.len()))
    } else {
        None
    }
}

pub fn has_suffix(s: &str, p: &str) -> (r: bool)
    ensures
        r == ends_with(s@, p@),
{
    let cs = chars_of(s);
    let ps = chars_of(p);
    if cs.len() < ps.len() {
        return false;
    }
    let at: usize = cs.len() - ps.len();
    let ghost t = rest(s@, at as int);
    assert(t.subrange(0, ps@.len() as int) =~= t);
    stands_at(&cs, &ps, at)
}

pub fn contains_str(s: &str, p: &str) -> (r: bool)
    ensures
        r == contains_text(s@, p@),
{
    let cs = chars_of(s);
    let ps = chars_of(p);
    let mut i: usize = 0;
    loop
        invariant
            cs@ == s@,
            ps@ == p@,
            i <= cs@.len(),
            forall|k: int| 0 <= k < i ==> !starts_with(#[trigger] rest(s@, k), p@),
        decreases cs@.len() - i,
    {
        if stands_at(&cs, &ps, i) {
            assert(starts_with(rest(s@, i as int), p@));
            return true;
        }
        if i == cs.len() {
            return false;
        }
        i += 1;
    }
}

pub fn replace_text(s: &str, p: &str, by: &str) -> (r: String)
    ensures
        r@ == replaced(s@, p@, by@),
{
    let cs = chars_of(s);
    let ps = chars_of(p);
    let mut r = String::new();
    let mut i: usize = 0;
    if ps.len() == 0 {
        return s.to_owned();
    }
    assert(rest(s@, 0) =~= s@);
    while cs.len() - i >= ps.len()
        invariant
            cs@ == s@,
            ps@ == p@,
            p@.len() > 0,
            i <= cs@.len(),
            r@ + replaced(rest(s@, i as int), p@, by@) == replaced(s@, p@, by@),
        decreases cs@.len() - i,
    {
        let ghost t = rest(s@, i as int);
        if stands_at(&cs, &ps, i) {
            proof {
                assert(rest(t, p@.len() as int) =~= rest(s@, i + p@.len()));
                assert(r@ + (by@ + replaced(rest(s@, i + p@.len()), p@, by@)) =~= (r@ + by@)
                    + replaced(rest(s@, i + p@.len()), p@, by@));
            }
            r.append(by);
            i += ps.len();
        } else {
            proof {
                assert(t[0] == s@[i as int]);
                assert(rest(t, 1) =~= rest(s@, i + 1));
                assert(r@ + (seq![s@[i as int]] + replaced(rest(s@, i + 1), p@, by@)) =~= r@.push(
                    s@[i as int],
                ) + replaced(rest(s@, i + 1), p@, by@));
            }
            r.push(cs[i]);
            i += 1;
        }
    }
    let tail = slice_text(&cs, i, cs.len());
    r.append(tail.as_str());
    r
}

/// The characters of `cs` from `from` on without a final carriage return.
fn line_text(cs: &Vec<char>, from: usize, to: usize) -> (r: String)
    requires
        from <= to <= cs@.len(),
    ensures
        r@ == without_cr(cs@.subrange(from as int, to as int)),
{
    if from < to && cs[to - 1] == '\r' {
        assert(cs@.subrange(from as int, to as int).drop_last() =~= cs@.subrange(
            from as int,
            to - 1,
        ));
        slice_text(cs, from, to - 1)
    } else {
        slice_text(cs, from, to)
    }
}

pub fn lines(s: &str) -> (r: Vec<String>)
    ensures
        texts(r@) == lines_of(s@),
{
    let cs = chars_of(s);
    let mut r: Vec<String> = Vec::new();
    let mut i: usize = 0;
    assert(rest(s@, 0) =~= s@);
    assert(texts(r@) + lines_of(s@) =~= lines_of(s@));
    while i < cs.len()
        invariant
            cs@ == s@,
            i <= cs@.len(),
            texts(r@) + lines_of(rest(s@, i as int)) == lines_of(s@),
        decreases cs@.len() - i,
    {
        let n = index_from(&cs, '\n', i);
        let ghost t = rest(s@, i as int);
        let ghost before = r@;
        if n < cs.len() {
            let line = line_text(&cs, i, n);
            proof {
                assert(before_first(t, '\n') =~= s@.subrange(i as int, n as int));
                assert(after_first(t, '\n') =~= rest(s@, n + 1));
                assert(texts(before.push(line)) =~= texts(before).push(line@));
                assert(texts(before) + (seq![line@] + lines_of(rest(s@, n + 1))) =~= texts(
                    before,
                ).push(line@) + lines_of(rest(s@, n + 1)));
            }
            r.push(line);
            i = n + 1;
        } else {
            let line = slice_text(&cs, i, n);
            proof {
                assert(line@ =~= t);
                assert(texts(before.push(line)) =~= texts(before).push(line@));
                assert(rest(s@, n as int) =~= Seq::empty());
                assert(texts(before) + seq![line@] =~= texts(before).push(line@));
                assert(texts(before).push(line@) + lines_of(rest(s@, n as int)) =~= texts(
                    before,
                ).push(line@));
            }
            r.push(line);
            i = n;
        }
    }
    assert(rest(s@, i as int) =~= Seq::empty());
    assert(texts(r@) + lines_of(rest(s@, i as int)) =~= texts(r@));
    r
}

/// The end of the word that begins at `from`.
fn word_end(cs: &Vec<char>, from: usize) -> (r: usize)
    requires
        from <= cs@.len(),
    ensures
        from <= r <= cs@.len(),
        r == from + word_len(rest(cs@, from as int)),
{
    let mut i: usize = from;
    assert(from + word_len(rest(cs@, from as int)) == i + word_len(rest(cs@, i as int)));
    while i < cs.len() && !is_whitespace(cs[i])
        invariant
            from <= i <= cs@.len(),
            from + word_len(rest(cs@, from as int)) == i + word_len(rest(cs@, i as int)),
        decreases cs@.len() - i,
    {
        let ghost t = rest(cs@, i as int);
        proof {
            assert(t[0] == cs@[i as int]);
            assert(rest(t, 1) =~= rest(cs@, i + 1));
        }
        i += 1;
    }
    proof {
        let t = rest(cs@, i as int);
        if i < cs@.len() {
            assert(t[0] == cs@[i as int]);
        }
    }
    i
}

pub fn words(s: &str) -> (r: Vec<String>)
    ensures
        texts(r@) == words_of(s@),
{
    let cs = chars_of(s);
    let mut r: Vec<String> = Vec::new();
    let mut i: usize = 0;
    assert(rest(s@, 0) =~= s@);
    assert(texts(r@) + words_of(s@) =~= words_of(s@));
    while i < cs.len()
        invariant
            cs@ == s@,
            i <= cs@.len(),
            texts(r@) + words_of(rest(s@, i as int)) == words_of(s@),
        decreases cs@.len() - i,
    {
        let ghost t = rest(s@, i as int);
        let ghost before = r@;
        assert(t[0] == s@[i as int]);
        if is_whitespace(cs[i]) {
            assert(rest(t, 1) =~= rest(s@, i + 1));
            i += 1;
        } else {
            let n = word_end(&cs, i);
            let word = slice_text(&cs, i, n);
            proof {
                assert(word_len(t) == 1 + word_len(rest(t, 1)));
                assert(t.subrange(0, n - i) =~= word@);
                assert(rest(t, n - i) =~= rest(s@, n as int));
                assert(texts(before.push(word)) =~= texts(before).push(word@));
                assert(texts(before) + (seq![word@] + words_of(rest(s@, n as int))) =~= texts(
                    before,
                ).push(word@) + words_of(rest(s@, n as int)));
            }
            r.push(word);
            i = n;
        }
    }
    assert(rest(s@, i as int) =~= Seq::empty());
    assert(texts(r@) + words_of(rest(s@, i as int)) =~= texts(r@));
    r
}

pub fn join(parts: &Vec<String>, sep: &str) -> (r: String)
    ensures
        r@ == joined(texts(parts@), sep@),
{
    let mut r = String::new();
    let mut i: usize = 0;
    while i < parts.len()
        invariant
            i <= parts@.len(),
            r@ == joined(texts(parts@).subrange(0, i as int), sep@),
        decreases parts@.len() - i,
    {
        let ghost t = texts(parts@).subrange(0, i + 1);
        assert(t.drop_last() =~= texts(parts@).subrange(0, i as int));
        assert(t.last() == parts@[i as int]@);
        if i > 0 {
            r.append(sep);
        }
        r.append(parts[i].as_str());
        if i == 0 {
            assert(r@ =~= parts@[0]@);
        }
        i += 1;
    }
    assert(texts(parts@).subrange(0, parts@.len() as int) =~= texts(parts@));
    r
}

pub fn to_upper_char(c: char) -> (r: char)
    ensures
        r == upper_char(c),
{
    if 'a' <= c && c <= 'z' {
        (c as u8 - 32) as char
    } else {
        c
    }
}

pub fn to_upper_ascii(s: &str) -> (r: String)
    ensures
        r@ == upper_ascii(s@),
{
    let cs = chars_of(s);
    let mut r = String::new();
    let mut i: usize = 0;
    while i < cs.len()
        invariant
            cs@ == s@,
            i <= cs@.len(),
            r@ == upper_ascii(s@).subrange(0, i as int),
        decreases cs@.len() - i,
    {
        r.push(to_upper_char(cs[i]));
        i += 1;
        assert(r@ =~= upper_ascii(s@).subrange(0, i as int));
    }
    assert(r@ =~= upper_ascii(s@));
    r
}

pub fn take_chars(s: &str, n: usize) -> (r: String)
    ensures
        r@ == at_most(s@, n as nat),
{
    let cs = chars_of(s);
    if cs.len() <= n {
        s.to_owned()
    } else {
        slice_text(&cs, 0, n)
    }
}

/// A line, where there is something to say.
pub open spec fn opt_part(before: Seq<char>, value: Option<Seq<char>>, after: Seq<char>) -> Seq<
    char,
> {
    match value {
        Some(v) => before + v + after,
        None => Seq::empty(),
    }
}

pub fn append_part(r: &mut String, before: &str, value: Option<&str>, after: &str)
    ensures
        final(r)@ == old(r)@ + opt_part(
            before@,
            match value {
                Some(v) => Some(v@),
                None => None,
            },
            after@,
        ),
{
    match value {
        Some(v) => {
            let mut p = before.to_owned();
            p.append(v);
            p.append(after);
            r.append(p.as_str());
        },
        None => {
            assert(r@ =~= old(r)@ + Seq::<char>::empty());
        },
    }
}

} // verus!
