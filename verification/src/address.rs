//! Addresses of servers as texts.

use vstd::prelude::*;
use crate::number::{decimal, decimal_is_in_base_ten, lemma_decimal_digits};
use crate::text::parts::{
    first_occurrence_splits_in_two, joined_parts_stand_in_order, split_parts_make_the_whole,
};
use crate::text::{
    after_first, before_first, chars_of, first_index, has_char, is_digit, joined,
    lemma_first_index, rest, slice_text, split, split_on, texts,
};

verus! {

// ---------------------------------------------------------------------------
// IPv4
// ---------------------------------------------------------------------------

pub open spec fn digit(c: char) -> int {
    c as int - '0' as int
}

/// A number up to 255 in decimal, without leading zeros.
pub open spec fn is_octet(s: Seq<char>) -> bool {
    &&& 1 <= s.len() <= 3
    &&& forall|i: int| 0 <= i < s.len() ==> is_digit(#[trigger] s[i])
    &&& s.len() > 1 ==> s[0] != '0'
    &&& s.len() == 3 ==> 100 * digit(s[0]) + 10 * digit(s[1]) + digit(s[2]) <= 255
}

/// Four such numbers with points between them.
pub open spec fn is_ipv4(s: Seq<char>) -> bool {
    let parts = split_on(s, '.');
    parts.len() == 4 && is_octet(parts[0]) && is_octet(parts[1]) && is_octet(parts[2]) && is_octet(
        parts[3],
    )
}

fn octet(s: &str) -> (r: bool)
    ensures
        r == is_octet(s@),
{
    let cs = chars_of(s);
    let n: usize = cs.len();
    if n < 1 || n > 3 {
        return false;
    }
    let mut i: usize = 0;
    while i < n
        invariant
            cs@ == s@,
            n == cs@.len(),
            i <= n,
            forall|k: int| 0 <= k < i ==> is_digit(#[trigger] s@[k]),
        decreases n - i,
    {
        let c = cs[i];
        if !('0' <= c && c <= '9') {
            assert(!is_digit(s@[i as int]));
            return false;
        }
        i += 1;
    }
    if n > 1 && cs[0] == '0' {
        return false;
    }
    if n < 3 {
        return true;
    }
    assert(is_digit(s@[0]) && is_digit(s@[1]) && is_digit(s@[2]));
    let a: u32 = cs[0] as u32 - 48;
    let b: u32 = cs[1] as u32 - 48;
    let c: u32 = cs[2] as u32 - 48;
    100 * a + 10 * b + c <= 255
}

pub fn is_ipv4_text(s: &str) -> (r: bool)
    ensures
        r == is_ipv4(s@),
{
    let parts = split(s, '.');
    let ghost all = texts(parts@);
    if parts.len() != 4 {
        return false;
    }
    assert(all[0] == parts@[0]@ && all[1] == parts@[1]@ && all[2] == parts@[2]@ && all[3]
        == parts@[3]@);
    octet(parts[0].as_str()) && octet(parts[1].as_str()) && octet(parts[2].as_str()) && octet(
        parts[3].as_str(),
    )
}

/// Of the addresses that a name has, the first IPv4 address.
pub fn first_ipv4(found: &Vec<String>) -> (r: Option<String>)
    ensures
        match r {
            Some(ip) => exists|i: int|
                0 <= i < found@.len() && ip@ == (#[trigger] found@[i])@ && is_ipv4(ip@)
                    && forall|j: int| 0 <= j < i ==> !is_ipv4((#[trigger] found@[j])@),
            None => forall|j: int| 0 <= j < found@.len() ==> !is_ipv4((#[trigger] found@[j])@),
        },
{
    let mut i: usize = 0;
    while i < found.len()
        invariant
            i <= found@.len(),
            forall|j: int| 0 <= j < i ==> !is_ipv4((#[trigger] found@[j])@),
        decreases found@.len() - i,
    {
        if is_ipv4_text(found[i].as_str()) {
            let ip = found[i].clone();
            assert(ip@ == found@[i as int]@);
            return Some(ip);
        }
        i += 1;
    }
    None
}

// ---------------------------------------------------------------------------
// IPv6
// ---------------------------------------------------------------------------

pub open spec fn is_hex_char(c: char) -> bool {
    '0' <= c <= '9' || 'a' <= c <= 'f' || 'A' <= c <= 'F'
}

/// One to four hexadecimal digits.
pub open spec fn is_group(s: Seq<char>) -> bool {
    1 <= s.len() <= 4 && forall|i: int| 0 <= i < s.len() ==> is_hex_char(#[trigger] s[i])
}

pub open spec fn all_groups(parts: Seq<Seq<char>>) -> bool {
    forall|i: int| 0 <= i < parts.len() ==> is_group(#[trigger] parts[i])
}

/// How many groups a text stands for: groups with colons between them, of which an IPv4
/// address at the end stands for two. `None` for another text, and none for an empty one.
pub open spec fn group_count(s: Seq<char>) -> Option<nat> {
    let parts = split_on(s, ':');
    if s.len() == 0 {
        Some(0)
    } else if all_groups(parts) {
        Some(parts.len())
    } else if all_groups(parts.drop_last()) && is_ipv4(parts.last()) {
        Some(parts.len() + 1)
    } else {
        None
    }
}

/// Where the first two colons in a row stand, or the length of a text without such.
pub open spec fn double_colon(s: Seq<char>) -> nat
    decreases s.len(),
{
    if s.len() < 2 {
        s.len()
    } else if s[0] == ':' && s[1] == ':' {
        0
    } else {
        1 + double_colon(rest(s, 1))
    }
}

/// Eight groups, or fewer with two colons where groups of zeros are left out; an IPv4
/// address can only stand at the end.
pub open spec fn is_ipv6(s: Seq<char>) -> bool {
    let n = double_colon(s) as int;
    if n < s.len() {
        let head = s.subrange(0, n);
        match (group_count(head), group_count(rest(s, n + 2))) {
            (Some(a), Some(b)) => a + b <= 7 && (n == 0 || all_groups(split_on(head, ':'))),
            _ => false,
        }
    } else {
        group_count(s) == Some(8nat)
    }
}

fn group(s: &str) -> (r: bool)
    ensures
        r == is_group(s@),
{
    let cs = chars_of(s);
    let n: usize = cs.len();
    if n < 1 || n > 4 {
        return false;
    }
    let mut i: usize = 0;
    while i < n
        invariant
            cs@ == s@,
            n == cs@.len(),
            i <= n,
            forall|k: int| 0 <= k < i ==> is_hex_char(#[trigger] s@[k]),
        decreases n - i,
    {
        let c = cs[i];
        if !(('0' <= c && c <= '9') || ('a' <= c && c <= 'f') || ('A' <= c && c <= 'F')) {
            assert(!is_hex_char(s@[i as int]));
            return false;
        }
        i += 1;
    }
    true
}

/// The number of parts that are groups, from the first on.
fn leading_groups(parts: &Vec<String>) -> (r: usize)
    ensures
        r <= parts@.len(),
        forall|i: int| 0 <= i < r ==> is_group((#[trigger] parts@[i])@),
        r < parts@.len() ==> !is_group(parts@[r as int]@),
{
    let mut i: usize = 0;
    while i < parts.len() && group(parts[i].as_str())
        invariant
            i <= parts@.len(),
            forall|k: int| 0 <= k < i ==> is_group((#[trigger] parts@[k])@),
        decreases parts@.len() - i,
    {
        i += 1;
    }
    i
}

/// The groups that a text stands for, and whether an IPv4 address is among them.
fn count_groups(s: &str) -> (r: Option<(u128, bool)>)
    ensures
        match r {
            Some((n, v4)) => group_count(s@) == Some(n as nat) && v4 == (s@.len() > 0
                && !all_groups(split_on(s@, ':'))),
            None => group_count(s@) is None,
        },
{
    if s.is_empty() {
        return Some((0, false));
    }
    let parts = split(s, ':');
    let ghost all = texts(parts@);
    let n: usize = parts.len();
    let k = leading_groups(&parts);
    proof {
        assert forall|i: int| 0 <= i < k implies is_group(#[trigger] all[i]) by {
            assert(all[i] == parts@[i]@);
        }
        if k < n {
            assert(all[k as int] == parts@[k as int]@);
            assert(!all_groups(all));
        }
    }
    if k == n {
        return Some((n as u128, false));
    }
    if k == n - 1 {
        assert(all.last() == parts@[k as int]@);
        assert(all_groups(all.drop_last()));
        if is_ipv4_text(parts[k].as_str()) {
            return Some((n as u128 + 1, true));
        }
    } else {
        assert(all.drop_last()[k as int] == all[k as int]);
        assert(!all_groups(all.drop_last()));
    }
    None
}

fn find_double_colon(cs: &Vec<char>) -> (r: usize)
    ensures
        r == double_colon(cs@),
        r <= cs@.len(),
        r < cs@.len() ==> r + 2 <= cs@.len(),
{
    let n: usize = cs.len();
    let mut i: usize = 0;
    assert(rest(cs@, 0) =~= cs@);
    while i < n
        invariant
            n == cs@.len(),
            i <= n,
            double_colon(cs@) == i + double_colon(rest(cs@, i as int)),
        decreases n - i,
    {
        let ghost t = rest(cs@, i as int);
        assert(rest(t, 1) =~= rest(cs@, i + 1));
        if n - i < 2 {
            return n;
        }
        assert(t[0] == cs@[i as int] && t[1] == cs@[i + 1]);
        if cs[i] == ':' && cs[i + 1] == ':' {
            return i;
        }
        i += 1;
    }
    n
}

pub fn is_ipv6_text(s: &str) -> (r: bool)
    ensures
        r == is_ipv6(s@),
{
    let cs = chars_of(s);
    let n = find_double_colon(&cs);
    if n < cs.len() {
        let head = slice_text(&cs, 0, n);
        let end = slice_text(&cs, n + 2, cs.len());
        match (count_groups(head.as_str()), count_groups(end.as_str())) {
            (Some((a, v4)), Some((b, _))) => !v4 && a <= 7 && b <= 7 - a,
            _ => false,
        }
    } else {
        match count_groups(s) {
            Some((k, _)) => k == 8,
            None => false,
        }
    }
}

// ---------------------------------------------------------------------------
// What addresses are made of
// ---------------------------------------------------------------------------

/// A character that can stand in an address.
pub open spec fn is_address_char(c: char) -> bool {
    is_hex_char(c) || c == '.' || c == ':'
}

pub open spec fn has_address_chars(s: Seq<char>) -> bool {
    forall|i: int| 0 <= i < s.len() ==> is_address_char(#[trigger] s[i])
}

/// A text is made of its parts and of what stands between them.
proof fn lemma_parts_chars(s: Seq<char>, c: char)
    requires
        is_address_char(c),
        forall|j: int|
            0 <= j < split_on(s, c).len() ==> has_address_chars(#[trigger] split_on(s, c)[j]),
    ensures
        has_address_chars(s),
    decreases s.len(),
{
    lemma_first_index(s, c);
    let parts = split_on(s, c);
    assert(has_address_chars(parts[0]));
    if has_char(s, c) {
        let n = first_index(s, c) as int;
        let after = after_first(s, c);
        assert forall|j: int| 0 <= j < split_on(after, c).len() implies has_address_chars(
            #[trigger] split_on(after, c)[j],
        ) by {
            assert(parts[j + 1] == split_on(after, c)[j]);
        }
        lemma_parts_chars(after, c);
        assert forall|i: int| 0 <= i < s.len() implies is_address_char(#[trigger] s[i]) by {
            if i < n {
                assert(s[i] == before_first(s, c)[i]);
            } else if i > n {
                assert(s[i] == after[i - n - 1]);
            }
        }
    }
}

pub proof fn lemma_ipv4_chars(s: Seq<char>)
    requires
        is_ipv4(s),
    ensures
        s.len() > 0,
        has_address_chars(s),
{
    let parts = split_on(s, '.');
    assert forall|j: int| 0 <= j < parts.len() implies has_address_chars(#[trigger] parts[j]) by {
        assert(is_octet(parts[j]));
        assert forall|i: int| 0 <= i < parts[j].len() implies is_address_char(
            #[trigger] parts[j][i],
        ) by {
            assert(is_digit(parts[j][i]));
        }
    }
    lemma_parts_chars(s, '.');
    lemma_first_index(s, '.');
}

proof fn lemma_group_chars(s: Seq<char>)
    requires
        is_group(s),
    ensures
        has_address_chars(s),
{
    assert forall|i: int| 0 <= i < s.len() implies is_address_char(#[trigger] s[i]) by {
        assert(is_hex_char(s[i]));
    }
}

proof fn lemma_groups_chars(s: Seq<char>)
    requires
        group_count(s) is Some,
    ensures
        has_address_chars(s),
{
    if s.len() > 0 {
        let parts = split_on(s, ':');
        assert forall|j: int| 0 <= j < parts.len() implies has_address_chars(#[trigger] parts[j]) by {
            if all_groups(parts) {
                lemma_group_chars(parts[j]);
            } else if j < parts.len() - 1 {
                assert(parts.drop_last()[j] == parts[j]);
                lemma_group_chars(parts[j]);
            } else {
                lemma_ipv4_chars(parts[j]);
            }
        }
        lemma_parts_chars(s, ':');
    }
}

proof fn lemma_double_colon(s: Seq<char>)
    ensures
        double_colon(s) <= s.len(),
        double_colon(s) < s.len() ==> double_colon(s) + 2 <= s.len() && s[double_colon(s) as int]
            == ':' && s[double_colon(s) as int + 1] == ':',
    decreases s.len(),
{
    if s.len() >= 2 && !(s[0] == ':' && s[1] == ':') {
        lemma_double_colon(rest(s, 1));
    }
}

pub proof fn lemma_ipv6_chars(s: Seq<char>)
    requires
        is_ipv6(s),
    ensures
        s.len() > 0,
        has_address_chars(s),
{
    lemma_double_colon(s);
    let n = double_colon(s) as int;
    if n < s.len() {
        let head = s.subrange(0, n);
        let end = rest(s, n + 2);
        lemma_groups_chars(head);
        lemma_groups_chars(end);
        assert forall|i: int| 0 <= i < s.len() implies is_address_char(#[trigger] s[i]) by {
            if i < n {
                assert(s[i] == head[i]);
            } else if i >= n + 2 {
                assert(s[i] == end[i - n - 2]);
            }
        }
    } else {
        lemma_groups_chars(s);
    }
}

/// An IPv4 address has no colon.
pub proof fn lemma_ipv4_has_no_colon(s: Seq<char>)
    requires
        is_ipv4(s),
    ensures
        !has_char(s, ':'),
{
    let parts = split_on(s, '.');
    assert forall|j: int| 0 <= j < parts.len() implies no_colon(#[trigger] parts[j]) by {
        assert(is_octet(parts[j]));
        assert forall|i: int| 0 <= i < parts[j].len() implies #[trigger] parts[j][i] != ':' by {
            assert(is_digit(parts[j][i]));
        }
    }
    lemma_parts_colon(s);
    lemma_first_index(s, ':');
}

spec fn no_colon(s: Seq<char>) -> bool {
    forall|i: int| 0 <= i < s.len() ==> #[trigger] s[i] != ':'
}

proof fn lemma_parts_colon(s: Seq<char>)
    requires
        forall|j: int| 0 <= j < split_on(s, '.').len() ==> no_colon(#[trigger] split_on(s, '.')[j]),
    ensures
        no_colon(s),
    decreases s.len(),
{
    lemma_first_index(s, '.');
    let parts = split_on(s, '.');
    assert(no_colon(parts[0]));
    if has_char(s, '.') {
        let n = first_index(s, '.') as int;
        let after = after_first(s, '.');
        assert forall|j: int| 0 <= j < split_on(after, '.').len() implies no_colon(
            #[trigger] split_on(after, '.')[j],
        ) by {
            assert(parts[j + 1] == split_on(after, '.')[j]);
        }
        lemma_parts_colon(after);
        assert forall|i: int| 0 <= i < s.len() implies #[trigger] s[i] != ':' by {
            if i < n {
                assert(s[i] == before_first(s, '.')[i]);
            } else if i > n {
                assert(s[i] == after[i - n - 1]);
            }
        }
    }
}

proof fn lemma_octet_of(n: nat)
    ensures
        is_octet(decimal(n)) <==> n <= 255,
{
    lemma_decimal_digits(n);
    if n >= 1000 {
        lemma_long_decimal(n);
    } else {
        reveal_with_fuel(decimal, 4);
    }
}

proof fn lemma_long_decimal(n: nat)
    requires
        n >= 1000,
    ensures
        decimal(n).len() >= 4,
    decreases n,
{
    if n < 10_000 {
        reveal_with_fuel(decimal, 5);
    } else {
        lemma_long_decimal(n / 10);
    }
}

proof fn lemma_octet_value(s: Seq<char>) -> (n: nat)
    requires
        is_octet(s),
    ensures
        n <= 255,
        s == decimal(n),
{
    assert(is_digit(s[0]));
    if s.len() == 1 {
        let n = digit(s[0]) as nat;
        assert(decimal(n) =~= s);
        n
    } else if s.len() == 2 {
        assert(is_digit(s[1]));
        let n = (10 * digit(s[0]) + digit(s[1])) as nat;
        decimal_is_in_base_ten(digit(s[0]) as nat, digit(s[1]) as nat);
        decimal_is_in_base_ten(0, digit(s[0]) as nat);
        assert(decimal(n) =~= s);
        n
    } else {
        assert(is_digit(s[1]) && is_digit(s[2]));
        let high = (10 * digit(s[0]) + digit(s[1])) as nat;
        let n = (10 * high + digit(s[2])) as nat;
        decimal_is_in_base_ten(high, digit(s[2]) as nat);
        decimal_is_in_base_ten(digit(s[0]) as nat, digit(s[1]) as nat);
        decimal_is_in_base_ten(0, digit(s[0]) as nat);
        assert(decimal(n) =~= s);
        n
    }
}

/// Four numbers with points between them.
pub open spec fn dotted(a: nat, b: nat, c: nat, d: nat) -> Seq<char> {
    decimal(a) + seq!['.'] + (decimal(b) + seq!['.'] + (decimal(c) + seq!['.'] + decimal(d)))
}

proof fn lemma_first_part(a: Seq<char>, more: Seq<char>)
    requires
        forall|i: int| 0 <= i < a.len() ==> #[trigger] a[i] != '.',
    ensures
        split_on(a + seq!['.'] + more, '.') == seq![a] + split_on(more, '.'),
        split_on(a, '.') == seq![a],
{
    first_occurrence_splits_in_two(a, '.', more);
}

#[verifier::spinoff_prover]
proof fn lemma_dotted_parts(a: Seq<char>, b: Seq<char>, c: Seq<char>, d: Seq<char>)
    requires
        forall|i: int| 0 <= i < a.len() ==> #[trigger] a[i] != '.',
        forall|i: int| 0 <= i < b.len() ==> #[trigger] b[i] != '.',
        forall|i: int| 0 <= i < c.len() ==> #[trigger] c[i] != '.',
        forall|i: int| 0 <= i < d.len() ==> #[trigger] d[i] != '.',
    ensures
        split_on(a + seq!['.'] + (b + seq!['.'] + (c + seq!['.'] + d)), '.') == seq![a, b, c, d],
{
    let cd = c + seq!['.'] + d;
    let bcd = b + seq!['.'] + cd;
    lemma_first_part(a, bcd);
    lemma_first_part(b, cd);
    lemma_first_part(c, d);
    lemma_first_part(d, d);
    assert(seq![a] + (seq![b] + (seq![c] + seq![d])) =~= seq![a, b, c, d]);
}

/// An IPv4 address is four numbers up to 255 with points between them, and every such text is
/// one.
pub proof fn ipv4_is_four_numbers(a: nat, b: nat, c: nat, d: nat, s: Seq<char>) -> (r: (
    nat,
    nat,
    nat,
    nat,
))
    ensures
        is_ipv4(dotted(a, b, c, d)) <==> a <= 255 && b <= 255 && c <= 255 && d <= 255,
        is_ipv4(s) ==> r.0 <= 255 && r.1 <= 255 && r.2 <= 255 && r.3 <= 255 && s == dotted(
            r.0,
            r.1,
            r.2,
            r.3,
        ),
{
    lemma_octet_of(a);
    lemma_octet_of(b);
    lemma_octet_of(c);
    lemma_octet_of(d);
    lemma_no_point(a);
    lemma_no_point(b);
    lemma_no_point(c);
    lemma_no_point(d);
    lemma_dotted_parts(decimal(a), decimal(b), decimal(c), decimal(d));
    if is_ipv4(s) {
        let p = split_on(s, '.');
        split_parts_make_the_whole(s, '.');
        assert(p =~= seq![p[0], p[1], p[2], p[3]]);
        let sep = seq!['.'];
        joined_parts_stand_in_order(p[0], seq![p[1], p[2], p[3]], sep);
        joined_parts_stand_in_order(p[1], seq![p[2], p[3]], sep);
        joined_parts_stand_in_order(p[2], seq![p[3]], sep);
        joined_parts_stand_in_order(p[3], Seq::empty(), sep);
        assert(p =~= seq![p[0]] + seq![p[1], p[2], p[3]]);
        assert(seq![p[1], p[2], p[3]] =~= seq![p[1]] + seq![p[2], p[3]]);
        assert(seq![p[2], p[3]] =~= seq![p[2]] + seq![p[3]]);
        let r = (
            lemma_octet_value(p[0]),
            lemma_octet_value(p[1]),
            lemma_octet_value(p[2]),
            lemma_octet_value(p[3]),
        );
        assert(s =~= dotted(r.0, r.1, r.2, r.3));
        r
    } else {
        (0, 0, 0, 0)
    }
}

proof fn lemma_no_point(n: nat)
    ensures
        forall|i: int| 0 <= i < decimal(n).len() ==> #[trigger] decimal(n)[i] != '.',
{
    lemma_decimal_digits(n);
    assert forall|i: int| 0 <= i < decimal(n).len() implies #[trigger] decimal(n)[i] != '.' by {
        assert(is_digit(decimal(n)[i]));
    }
}

/// Groups with colons between them.
pub open spec fn coloned(groups: Seq<Seq<char>>) -> Seq<char> {
    joined(groups, seq![':'])
}

proof fn lemma_group_has_no_colon(g: Seq<char>)
    requires
        is_group(g),
    ensures
        forall|i: int| 0 <= i < g.len() ==> #[trigger] g[i] != ':',
{
    assert forall|i: int| 0 <= i < g.len() implies #[trigger] g[i] != ':' by {
        assert(is_hex_char(g[i]));
    }
}

proof fn lemma_coloned_parts(groups: Seq<Seq<char>>)
    requires
        groups.len() > 0,
        all_groups(groups),
    ensures
        split_on(coloned(groups), ':') == groups,
    decreases groups.len(),
{
    let first = groups[0];
    let more = groups.subrange(1, groups.len() as int);
    assert(is_group(first));
    lemma_group_has_no_colon(first);
    assert(groups =~= seq![first] + more);
    joined_parts_stand_in_order(first, more, seq![':']);
    if more.len() == 0 {
        first_occurrence_splits_in_two(first, ':', Seq::empty());
        assert(groups =~= seq![first]);
    } else {
        assert forall|i: int| 0 <= i < more.len() implies is_group(#[trigger] more[i]) by {
            assert(more[i] == groups[i + 1]);
        }
        lemma_coloned_parts(more);
        first_occurrence_splits_in_two(first, ':', coloned(more));
        assert(split_on(coloned(groups), ':') =~= groups);
    }
}

/// No two colons stand in a row.
pub open spec fn no_colons_in_a_row(s: Seq<char>) -> bool {
    forall|i: int| 0 <= i < s.len() - 1 ==> !(#[trigger] s[i] == ':' && s[i + 1] == ':')
}

proof fn lemma_coloned_ends(groups: Seq<Seq<char>>)
    requires
        groups.len() > 0,
        all_groups(groups),
    ensures
        coloned(groups).len() > 0,
        coloned(groups)[0] != ':',
        coloned(groups).last() != ':',
        no_colons_in_a_row(coloned(groups)),
    decreases groups.len(),
{
    let last = groups.last();
    assert(last == groups[groups.len() - 1]);
    assert(is_group(last));
    lemma_group_has_no_colon(last);
    let s = coloned(groups);
    if groups.len() > 1 {
        let before = groups.drop_last();
        assert forall|i: int| 0 <= i < before.len() implies is_group(#[trigger] before[i]) by {
            assert(before[i] == groups[i]);
        }
        lemma_coloned_ends(before);
        let t = coloned(before);
        assert(s =~= t + seq![':'] + last);
        assert(s[0] == t[0]);
        assert(s.last() == last[last.len() - 1]);
        assert forall|i: int| 0 <= i < s.len() - 1 implies !(#[trigger] s[i] == ':' && s[i + 1]
            == ':') by {
            let n = t.len() as int;
            if i < n - 1 {
                assert(s[i] == t[i] && s[i + 1] == t[i + 1]);
            } else if i == n - 1 {
                assert(s[i] == t.last());
            } else if i == n {
                assert(s[i + 1] == last[0]);
            } else {
                assert(s[i] == last[i - n - 1]);
            }
        }
    } else {
        assert(s == groups[0]);
        assert(s == last);
        assert(s[0] == last[0]);
        assert(s.last() == last[last.len() - 1]);
        assert forall|i: int| 0 <= i < s.len() - 1 implies !(#[trigger] s[i] == ':' && s[i + 1]
            == ':') by {
            assert(s[i] == last[i]);
        }
    }
}

proof fn lemma_no_double_colon(s: Seq<char>)
    requires
        no_colons_in_a_row(s),
    ensures
        double_colon(s) == s.len(),
    decreases s.len(),
{
    if s.len() >= 2 {
        assert(!(s[0] == ':' && s[0int + 1] == ':'));
        let t = rest(s, 1);
        assert forall|i: int| 0 <= i < t.len() - 1 implies !(#[trigger] t[i] == ':' && t[i + 1]
            == ':') by {
            assert(t[i] == s[i + 1] && t[i + 1] == s[i + 1 + 1]);
            assert(!(s[i + 1] == ':' && s[i + 1 + 1] == ':'));
        }
        lemma_no_double_colon(t);
    }
}

proof fn lemma_double_colon_after(head: Seq<char>, tail: Seq<char>)
    requires
        no_colons_in_a_row(head),
        head.len() > 0 ==> head.last() != ':',
    ensures
        double_colon(head + seq![':', ':'] + tail) == head.len(),
    decreases head.len(),
{
    let s = head + seq![':', ':'] + tail;
    if head.len() > 0 {
        let h = rest(head, 1);
        assert(rest(s, 1) =~= h + seq![':', ':'] + tail);
        assert(s[0] == head[0]);
        if head.len() > 1 {
            assert(s[1] == head[1]);
            assert(!(head[0] == ':' && head[0int + 1] == ':'));
        } else {
            assert(head[0] == head.last());
        }
        assert forall|i: int| 0 <= i < h.len() - 1 implies !(#[trigger] h[i] == ':' && h[i + 1]
            == ':') by {
            assert(h[i] == head[i + 1] && h[i + 1] == head[i + 1 + 1]);
            assert(!(head[i + 1] == ':' && head[i + 1 + 1] == ':'));
        }
        if h.len() > 0 {
            assert(h.last() == head.last());
        }
        lemma_double_colon_after(h, tail);
    }
}

proof fn lemma_group_count(groups: Seq<Seq<char>>)
    requires
        all_groups(groups),
    ensures
        group_count(coloned(groups)) == Some(groups.len()),
        groups.len() == 0 ==> coloned(groups).len() == 0,
{
    if groups.len() > 0 {
        lemma_coloned_parts(groups);
        lemma_coloned_ends(groups);
    }
}

/// Groups of one to four hexadecimal digits with colons between them are an IPv6 address where
/// there are eight, and with two colons in a row, which stand for groups of zeros, where there
/// are seven at most.
pub proof fn ipv6_is_eight_groups(head: Seq<Seq<char>>, tail: Seq<Seq<char>>)
    requires
        all_groups(head),
        all_groups(tail),
    ensures
        is_ipv6(coloned(head)) <==> head.len() == 8,
        is_ipv6(coloned(head) + seq![':', ':'] + coloned(tail)) <==> head.len() + tail.len() <= 7,
{
    lemma_group_count(head);
    lemma_group_count(tail);
    let h = coloned(head);
    let t = coloned(tail);
    if head.len() > 0 {
        lemma_coloned_ends(head);
        lemma_coloned_parts(head);
    }
    lemma_no_double_colon(h);
    lemma_double_colon_after(h, t);
    let s = h + seq![':', ':'] + t;
    assert(s.subrange(0, h.len() as int) =~= h);
    assert(rest(s, h.len() as int + 2) =~= t);
}

} // verus!
