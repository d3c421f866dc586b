//! Taking a secret out of a text.

use vstd::prelude::*;
use crate::text::{contains_text, replace_text, replaced, rest, starts_with};

verus! {

/// The text that stands in the place of a secret.
pub open spec fn mark() -> Seq<char> {
    "<redacted>"@
}

/// `value` without `secret`. An empty secret cannot be taken out.
pub open spec fn redacted(value: Seq<char>, secret: Seq<char>) -> Seq<char> {
    if secret.len() == 0 {
        value
    } else {
        replaced(value, secret, mark())
    }
}

pub fn redact(value: &str, secret: &str) -> (r: String)
    ensures
        r@ == redacted(value@, secret@),
{
    if secret.is_empty() {
        value.to_owned()
    } else {
        replace_text(value, secret, "<redacted>")
    }
}

/// Neither text holds the other one, and none begins with an end of the other one: put
/// next to anything, `r` takes no part in an occurrence of `s`.
pub open spec fn cannot_overlap(s: Seq<char>, r: Seq<char>) -> bool {
    &&& !contains_text(r, s)
    &&& !contains_text(s, r)
    &&& forall|n: int|
        0 < n < s.len() && n <= r.len() ==> #[trigger] s.subrange(0, n) != r.subrange(
            r.len() - n,
            r.len() as int,
        )
    &&& forall|n: int|
        0 < n < s.len() && n <= r.len() ==> #[trigger] r.subrange(0, n) != s.subrange(
            s.len() - n,
            s.len() as int,
        )
}

/// The replacement leaves `m` characters as they are, and then either comes to the end
/// or to a mark.
proof fn lemma_first_mark(v: Seq<char>, s: Seq<char>, r: Seq<char>) -> (m: int)
    requires
        s.len() > 0,
    ensures
        0 <= m <= v.len(),
        m <= replaced(v, s, r).len(),
        replaced(v, s, r).subrange(0, m) == v.subrange(0, m),
        m == v.len() && replaced(v, s, r) == v || starts_with(rest(replaced(v, s, r), m), r),
    decreases v.len(),
{
    let w = replaced(v, s, r);
    if v.len() < s.len() {
        v.len() as int
    } else if starts_with(v, s) {
        assert(rest(w, 0) =~= w);
        assert(w.subrange(0, r.len() as int) =~= r);
        assert(w.subrange(0, 0) =~= v.subrange(0, 0));
        0
    } else {
        let v1 = rest(v, 1);
        let w1 = replaced(v1, s, r);
        let k = lemma_first_mark(v1, s, r);
        assert(w =~= seq![v[0]] + w1);
        assert(w.subrange(0, k + 1) =~= seq![v[0]] + w1.subrange(0, k));
        assert(v.subrange(0, k + 1) =~= seq![v[0]] + v1.subrange(0, k));
        assert(rest(w, k + 1) =~= rest(w1, k));
        if w1 == v1 {
            assert(w =~= v);
        }
        k + 1
    }
}

proof fn lemma_no_secret_at(v: Seq<char>, s: Seq<char>, r: Seq<char>, i: int)
    requires
        s.len() > 0,
        cannot_overlap(s, r),
        0 <= i <= replaced(v, s, r).len(),
    ensures
        !starts_with(rest(replaced(v, s, r), i), s),
    decreases v.len(),
{
    let w = replaced(v, s, r);
    let at = rest(w, i);
    if v.len() < s.len() {
    } else if starts_with(v, s) {
        let v1 = rest(v, s.len() as int);
        let w1 = replaced(v1, s, r);
        assert(w == r + w1);
        if i >= r.len() {
            lemma_no_secret_at(v1, s, r, i - r.len());
            assert(rest(w, i) =~= rest(w1, i - r.len()));
        } else if starts_with(at, s) {
            let n = r.len() - i;
            if s.len() <= n {
                assert(rest(r, i).subrange(0, s.len() as int) =~= at.subrange(0, s.len() as int));
                assert(starts_with(rest(r, i), s));
                assert(contains_text(r, s));
            } else if i == 0 {
                assert(rest(s, 0).subrange(0, r.len() as int) =~= r) by {
                    assert forall|j: int| 0 <= j < r.len() implies s[j] == r[j] by {
                        assert(at.subrange(0, s.len() as int)[j] == s[j]);
                        assert(at[j] == w[j]);
                    }
                }
                assert(starts_with(rest(s, 0), r));
                assert(contains_text(s, r));
            } else {
                assert(s.subrange(0, n) =~= r.subrange(r.len() - n, r.len() as int)) by {
                    assert forall|j: int| 0 <= j < n implies s[j] == r[i + j] by {
                        assert(at.subrange(0, s.len() as int)[j] == s[j]);
                        assert(at[j] == w[i + j]);
                    }
                }
            }
        }
    } else {
        let v1 = rest(v, 1);
        let w1 = replaced(v1, s, r);
        assert(w == seq![v[0]] + w1);
        if i >= 1 {
            lemma_no_secret_at(v1, s, r, i - 1);
            assert(rest(w, i) =~= rest(w1, i - 1));
        } else if starts_with(at, s) {
            assert(at =~= w);
            let m = lemma_first_mark(v, s, r);
            assert forall|j: int| 0 <= j < s.len() implies s[j] == w[j] by {
                assert(at.subrange(0, s.len() as int)[j] == s[j]);
            }
            assert forall|j: int| 0 <= j < m implies w[j] == v[j] by {
                assert(w.subrange(0, m)[j] == v.subrange(0, m)[j]);
            }
            if w == v {
                assert(v.subrange(0, s.len() as int) =~= s);
            } else {
                let u = rest(w, m);
                assert(starts_with(u, r));
                assert forall|j: int| 0 <= j < r.len() implies w[m + j] == r[j] by {
                    assert(u.subrange(0, r.len() as int)[j] == r[j]);
                    assert(u[j] == w[m + j]);
                }
                if s.len() <= m {
                    assert(v.subrange(0, s.len() as int) =~= s);
                } else {
                    if m == 0 {
                        lemma_not_both(w, s, r);
                        assert(u =~= w);
                    }
                    let n = s.len() - m;
                    if n <= r.len() {
                        assert(r.subrange(0, n) =~= s.subrange(s.len() - n, s.len() as int));
                    } else {
                        assert(rest(s, m).subrange(0, r.len() as int) =~= r);
                        assert(starts_with(rest(s, m), r));
                        assert(contains_text(s, r));
                    }
                }
            }
        }
    }
}

/// No text begins both with the secret and with a mark: one of them would begin with
/// the other.
proof fn lemma_not_both(w: Seq<char>, s: Seq<char>, r: Seq<char>)
    requires
        cannot_overlap(s, r),
    ensures
        !(starts_with(w, s) && starts_with(w, r)),
{
    if starts_with(w, s) && starts_with(w, r) {
        if s.len() <= r.len() {
            assert(rest(r, 0).subrange(0, s.len() as int) =~= s) by {
                assert forall|j: int| 0 <= j < s.len() implies r[j] == s[j] by {
                    assert(w.subrange(0, s.len() as int)[j] == s[j]);
                    assert(w.subrange(0, r.len() as int)[j] == r[j]);
                }
            }
            assert(starts_with(rest(r, 0), s));
            assert(contains_text(r, s));
        } else {
            assert(rest(s, 0).subrange(0, r.len() as int) =~= r) by {
                assert forall|j: int| 0 <= j < r.len() implies r[j] == s[j] by {
                    assert(w.subrange(0, s.len() as int)[j] == s[j]);
                    assert(w.subrange(0, r.len() as int)[j] == r[j]);
                }
            }
            assert(starts_with(rest(s, 0), r));
            assert(contains_text(s, r));
        }
    }
}

/// A secret that is taken out of a text is no longer in it. This needs that the mark
/// can take no part in an occurrence of the secret.
pub proof fn redaction_hides_the_secret(value: Seq<char>, secret: Seq<char>)
    requires
        secret.len() > 0,
        cannot_overlap(secret, mark()),
    ensures
        !contains_text(redacted(value, secret), secret),
{
    let w = redacted(value, secret);
    assert forall|i: int| 0 <= i <= w.len() implies !starts_with(#[trigger] rest(w, i), secret) by {
        lemma_no_secret_at(value, secret, mark(), i);
    }
}

/// A text that does not hold the secret stays as it is.
pub proof fn redaction_leaves_the_rest(value: Seq<char>, secret: Seq<char>)
    requires
        !contains_text(value, secret),
    ensures
        redacted(value, secret) == value,
    decreases value.len(),
{
    assert(rest(value, 0) =~= value);
    if secret.len() > 0 && value.len() >= secret.len() {
        assert(!starts_with(rest(value, 0), secret));
        let t = rest(value, 1);
        assert forall|i: int| 0 <= i <= t.len() implies !starts_with(#[trigger] rest(t, i), secret) by {
            assert(rest(t, i) =~= rest(value, i + 1));
        }
        redaction_leaves_the_rest(t, secret);
        assert(seq![value[0]] + t =~= value);
    }
}

/// The first occurrence of a secret gives way to the mark, what stands before it stays, and
/// what follows it is gone through in the same way.
pub proof fn redaction_puts_the_mark(before: Seq<char>, secret: Seq<char>, after: Seq<char>)
    requires
        secret.len() > 0,
        forall|i: int|
            0 <= i < before.len() ==> !starts_with(
                #[trigger] rest(before + secret + after, i),
                secret,
            ),
    ensures
        redacted(before + secret + after, secret) == before + "<redacted>"@ + redacted(
            after,
            secret,
        ),
    decreases before.len(),
{
    let v = before + secret + after;
    if before.len() == 0 {
        assert(v.subrange(0, secret.len() as int) =~= secret);
        assert(rest(v, secret.len() as int) =~= after);
        assert(redacted(v, secret) =~= before + "<redacted>"@ + redacted(after, secret));
    } else {
        let b = rest(before, 1);
        let w = b + secret + after;
        assert(rest(v, 0) =~= v);
        assert(rest(v, 1) =~= w);
        assert forall|i: int| 0 <= i < b.len() implies !starts_with(#[trigger] rest(w, i), secret) by {
            assert(rest(w, i) =~= rest(v, i + 1));
        }
        redaction_puts_the_mark(b, secret, after);
        assert(redacted(v, secret) =~= seq![v[0]] + redacted(w, secret));
        assert(before =~= seq![v[0]] + b);
        assert(redacted(v, secret) =~= before + "<redacted>"@ + redacted(after, secret));
    }
}

} // verus!
