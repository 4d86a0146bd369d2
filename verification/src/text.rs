//! Text primitives: substring search and replace-all, with the guarantee
//! that sanitising a string removes every occurrence of the replaced value.
//!
//! Log sanitising rests on `sanitized`: replacing a secret value with a
//! bracketed placeholder leaves no occurrence of the value behind, provided
//! the value does not contain the placeholder's boundary characters and is
//! not itself part of the placeholder.

use vstd::prelude::*;

verus! {

/// `v` occurs in `s` at position `i`.
pub open spec fn occurs_at(s: Seq<char>, v: Seq<char>, i: int) -> bool {
    0 <= i && i + v.len() <= s.len() && s.subrange(i, i + v.len() as int) == v
}

/// `v` occurs somewhere in `s`.
pub open spec fn contains_seq(s: Seq<char>, v: Seq<char>) -> bool {
    exists|i: int| occurs_at(s, v, i)
}

/// `s` begins with `v`.
pub open spec fn starts_with(s: Seq<char>, v: Seq<char>) -> bool {
    occurs_at(s, v, 0)
}

/// `s` with every occurrence of `v` replaced by `p`, scanning left to
/// right, matches non-overlapping.
pub open spec fn sanitized(s: Seq<char>, v: Seq<char>, p: Seq<char>) -> Seq<char>
    decreases s.len(),
        when v.len() >= 1
{
    if s.len() == 0 {
        s
    } else if starts_with(s, v) {
        p + sanitized(s.skip(v.len() as int), v, p)
    } else {
        seq![s[0]] + sanitized(s.skip(1), v, p)
    }
}

/// An occurrence inside a later suffix is an occurrence in the whole.
proof fn lemma_occurrence_in_skip(s: Seq<char>, v: Seq<char>, k: int, i: int)
    requires
        0 <= k <= s.len(),
        occurs_at(s.skip(k), v, i),
    ensures
        occurs_at(s, v, k + i),
{
    assert(s.subrange(k + i, k + i + v.len() as int) =~= s.skip(k).subrange(
        i,
        i + v.len() as int,
    ));
}

/// No occurrence in the whole means none in any suffix.
proof fn lemma_no_occurrence_in_skip(s: Seq<char>, v: Seq<char>, k: int)
    requires
        0 <= k <= s.len(),
        !contains_seq(s, v),
    ensures
        !contains_seq(s.skip(k), v),
{
    assert forall|i: int| !occurs_at(s.skip(k), v, i) by {
        if occurs_at(s.skip(k), v, i) {
            lemma_occurrence_in_skip(s, v, k, i);
        }
    }
}

/// A text that does not begin with `u` still does not after sanitising,
/// as long as `u` avoids the placeholder's first character. This is the
/// spine of the no-occurrence argument: sanitising never manufactures a
/// fresh beginning of `u`.
proof fn lemma_sanitized_no_prefix(t: Seq<char>, v: Seq<char>, p: Seq<char>, u: Seq<char>)
    requires
        v.len() >= 1,
        p.len() >= 1,
        u.len() >= 1,
        !starts_with(t, u),
        forall|k: int| 0 <= k < u.len() ==> u[k] != p[0],
    ensures
        !starts_with(sanitized(t, v, p), u),
    decreases t.len(),
{
    let out = sanitized(t, v, p);
    if t.len() == 0 {
        assert(out.len() == 0);
    } else if starts_with(t, v) {
        let rest = sanitized(t.skip(v.len() as int), v, p);
        assert(out == p + rest);
        if starts_with(out, u) {
            assert(u[0] == out.subrange(0, u.len() as int)[0]);
            assert(out[0] == p[0]);
            assert(u[0] == p[0]);
        }
    } else {
        let rest = sanitized(t.skip(1), v, p);
        assert(out == seq![t[0]] + rest);
        if starts_with(out, u) {
            assert(u[0] == out.subrange(0, u.len() as int)[0]);
            assert(u[0] == out[0]);
            assert(out[0] == t[0]);
            if u.len() == 1 {
                assert(t.subrange(0, 1) =~= u);
                assert(starts_with(t, u));
            } else {
                let u1 = u.skip(1);
                assert(u1.len() >= 1);
                // t does not start with u and agrees on the head, so its
                // tail does not start with u's tail.
                if starts_with(t.skip(1), u1) {
                    assert(u.len() <= t.len());
                    assert(t.subrange(0, u.len() as int) =~= u) by {
                        assert forall|k: int| 0 <= k < u.len() implies t.subrange(
                            0,
                            u.len() as int,
                        )[k] == u[k] by {
                            if k == 0 {
                            } else {
                                assert(t.skip(1).subrange(0, u1.len() as int)[k - 1] == u1[k
                                    - 1]);
                            }
                        }
                    }
                    assert(starts_with(t, u));
                }
                assert(!starts_with(t.skip(1), u1));
                assert(forall|k: int| 0 <= k < u1.len() ==> u1[k] != p[0]);
                lemma_sanitized_no_prefix(t.skip(1), v, p, u1);
                // yet u's tail prefixes the sanitised tail: contradiction.
                assert(starts_with(rest, u1)) by {
                    assert(rest.subrange(0, u1.len() as int) =~= u1) by {
                        assert forall|k: int| 0 <= k < u1.len() implies rest.subrange(
                            0,
                            u1.len() as int,
                        )[k] == u1[k] by {
                            assert(out.subrange(0, u.len() as int)[k + 1] == u[k + 1]);
                            assert(out[k + 1] == rest[k]);
                        }
                    }
                }
            }
        }
    }
}

/// Sanitising removes and never introduces: when `w` is the replaced value
/// itself, or does not occur in the input, it does not occur in the
/// sanitised output — provided `w` is not part of the placeholder and
/// avoids the placeholder's two boundary characters.
pub proof fn lemma_sanitized_free_of(s: Seq<char>, v: Seq<char>, p: Seq<char>, w: Seq<char>)
    requires
        v.len() >= 1,
        p.len() >= 1,
        w.len() >= 1,
        !contains_seq(p, w),
        forall|k: int| 0 <= k < w.len() ==> w[k] != p[0],
        forall|k: int| 0 <= k < w.len() ==> w[k] != p[p.len() - 1],
        w == v || !contains_seq(s, w),
    ensures
        !contains_seq(sanitized(s, v, p), w),
    decreases s.len(),
{
    let out = sanitized(s, v, p);
    if s.len() == 0 {
        assert forall|i: int| !occurs_at(out, w, i) by {}
    } else if starts_with(s, v) {
        let tail = s.skip(v.len() as int);
        if !(w == v) {
            lemma_no_occurrence_in_skip(s, w, v.len() as int);
        }
        lemma_sanitized_free_of(tail, v, p, w);
        let rest = sanitized(tail, v, p);
        assert(out == p + rest);
        assert forall|i: int| !occurs_at(out, w, i) by {
            if occurs_at(out, w, i) {
                if i + w.len() <= p.len() {
                    assert(p.subrange(i, i + w.len() as int) =~= out.subrange(
                        i,
                        i + w.len() as int,
                    ));
                    assert(occurs_at(p, w, i));
                } else if i < p.len() {
                    // the occurrence straddles the placeholder's end, so w
                    // holds the placeholder's last character.
                    let k = p.len() - 1 - i;
                    assert(0 <= k < w.len());
                    assert(out.subrange(i, i + w.len() as int)[k] == w[k]);
                    assert(out[p.len() - 1] == p[p.len() - 1]);
                    assert(w[k] == p[p.len() - 1]);
                } else {
                    assert(rest.subrange(i - p.len(), i - p.len() + w.len() as int)
                        =~= out.subrange(i, i + w.len() as int));
                    assert(occurs_at(rest, w, i - p.len()));
                }
            }
        }
    } else {
        let tail = s.skip(1);
        if !(w == v) {
            lemma_no_occurrence_in_skip(s, w, 1);
        }
        lemma_sanitized_free_of(tail, v, p, w);
        let rest = sanitized(tail, v, p);
        assert(out == seq![s[0]] + rest);
        assert forall|i: int| !occurs_at(out, w, i) by {
            if occurs_at(out, w, i) {
                if i >= 1 {
                    assert(rest.subrange(i - 1, i - 1 + w.len() as int) =~= out.subrange(
                        i,
                        i + w.len() as int,
                    ));
                    assert(occurs_at(rest, w, i - 1));
                } else {
                    assert(starts_with(out, w)) by {
                        assert(out.subrange(0, w.len() as int) =~= out.subrange(
                            i,
                            i + w.len() as int,
                        ));
                    }
                    // s itself does not start with w: when w is the value,
                    // this branch said so; otherwise w does not occur at all.
                    assert(!starts_with(s, w));
                    lemma_sanitized_no_prefix(s, v, p, w);
                    assert(sanitized(s, v, p) == out);
                }
            }
        }
    }
}

/// Whether `v` occurs in `s` starting at `i`, decided executably.
fn matches_at(s: &str, v: &str, i: usize, n: usize, m: usize) -> (r: bool)
    requires
        n == s@.len(),
        m == v@.len(),
        i <= n,
    ensures
        r == occurs_at(s@, v@, i as int),
{
    if m > n - i {
        assert(!occurs_at(s@, v@, i as int));
        return false;
    }
    let mut j: usize = 0;
    while j < m
        invariant
            n == s@.len(),
            m == v@.len(),
            i + m <= n,
            j <= m,
            forall|k: int| 0 <= k < j ==> s@[i + k] == v@[k],
        decreases m - j,
    {
        if s.get_char(i + j) != v.get_char(j) {
            assert(s@.subrange(i as int, i + m) != v@) by {
                assert(s@.subrange(i as int, i + m)[j as int] == s@[i + j]);
            }
            return false;
        }
        j += 1;
    }
    assert(s@.subrange(i as int, i + m) =~= v@);
    true
}

/// Position of the first occurrence of `v` in `s`, if any: no occurrence
/// starts earlier.
pub fn find_first(s: &str, v: &str) -> (r: Option<usize>)
    ensures
        match r {
            Some(i) => occurs_at(s@, v@, i as int) && forall|k: int|
                0 <= k < i ==> !occurs_at(s@, v@, k),
            None => !contains_seq(s@, v@),
        },
{
    let n = s.unicode_len();
    let m = v.unicode_len();
    if m == 0 {
        assert(s@.subrange(0, 0) =~= v@);
        return Some(0);
    }
    if m > n {
        assert forall|k: int| !occurs_at(s@, v@, k) by {}
        return None;
    }
    let mut i: usize = 0;
    while i <= n - m
        invariant
            n == s@.len(),
            m == v@.len(),
            1 <= m <= n,
            i <= n - m + 1,
            forall|k: int| 0 <= k < i ==> !occurs_at(s@, v@, k),
        decreases n - m - i + 1,
    {
        if matches_at(s, v, i, n, m) {
            return Some(i);
        }
        i += 1;
    }
    assert forall|k: int| !occurs_at(s@, v@, k) by {
        if occurs_at(s@, v@, k) {
            assert(0 <= k <= n - m);
        }
    }
    None
}

/// Whether `v` occurs anywhere in `s`, decided executably.
pub fn contains_str(s: &str, v: &str) -> (r: bool)
    ensures
        r == contains_seq(s@, v@),
{
    find_first(s, v).is_some()
}

/// The decimal digit character for `d`.
pub open spec fn digit_char(d: int) -> char {
    if d == 0 {
        '0'
    } else if d == 1 {
        '1'
    } else if d == 2 {
        '2'
    } else if d == 3 {
        '3'
    } else if d == 4 {
        '4'
    } else if d == 5 {
        '5'
    } else if d == 6 {
        '6'
    } else if d == 7 {
        '7'
    } else if d == 8 {
        '8'
    } else {
        '9'
    }
}

/// The decimal digits of `n`, most significant first.
pub open spec fn dec_str(n: nat) -> Seq<char>
    decreases n,
{
    if n < 10 {
        seq![digit_char(n as int)]
    } else {
        dec_str(n / 10) + seq![digit_char((n % 10) as int)]
    }
}

/// The decimal rendering of `n`, with a leading minus when negative.
pub open spec fn int_str(n: int) -> Seq<char> {
    if n < 0 {
        seq!['-'] + dec_str((-n) as nat)
    } else {
        dec_str(n as nat)
    }
}

/// One decimal digit as a string slice.
fn digit_str<'a>(d: u64) -> (r: &'a str)
    requires
        d < 10,
    ensures
        r@ == seq![digit_char(d as int)],
{
    let digits = "0123456789";
    proof {
        reveal_strlit("0123456789");
    }
    let r = digits.substring_char(d as usize, d as usize + 1);
    proof {
        assert(r@ =~= seq![digit_char(d as int)]);
    }
    r
}

/// Renders `n` in decimal.
pub fn u64_string(n: u64) -> (r: String)
    ensures
        r@ == dec_str(n as nat),
    decreases n,
{
    if n < 10 {
        digit_str(n).to_owned()
    } else {
        let high = u64_string(n / 10);
        let r = high.concat(digit_str(n % 10));
        r
    }
}

/// Renders `n` in decimal, with a leading minus when negative.
pub fn i64_string(n: i64) -> (r: String)
    ensures
        r@ == int_str(n as int),
{
    if n >= 0 {
        u64_string(n as u64)
    } else {
        let mag: u64 = if n == i64::MIN {
            9223372036854775808u64
        } else {
            (-n) as u64
        };
        let mut out = String::new();
        out.append("-");
        let digits = u64_string(mag);
        let r = out.concat(digits.as_str());
        proof {
            reveal_strlit("-");
            assert(r@ =~= int_str(n as int));
        }
        r
    }
}

/// Whether two string slices hold the same characters.
pub fn str_eq(a: &str, b: &str) -> (r: bool)
    ensures
        r == (a@ == b@),
{
    let n = a.unicode_len();
    let m = b.unicode_len();
    if n != m {
        return false;
    }
    proof {
        assert(a@.subrange(0, m as int) =~= a@);
    }
    matches_at(a, b, 0, n, m)
}

/// Whether `s` begins with `v`, decided executably.
pub fn begins_with(s: &str, v: &str) -> (r: bool)
    ensures
        r == starts_with(s@, v@),
{
    let n = s.unicode_len();
    let m = v.unicode_len();
    if m > n {
        assert(!starts_with(s@, v@));
        return false;
    }
    matches_at(s, v, 0, n, m)
}

/// Replace every occurrence of `value` in `s` with `placeholder`, left to
/// right, non-overlapping — the sanitiser applied to one replacer.
pub fn replace_all(s: &str, value: &str, placeholder: &str) -> (r: String)
    requires
        value@.len() >= 1,
    ensures
        r@ == sanitized(s@, value@, placeholder@),
{
    let n = s.unicode_len();
    let m = value.unicode_len();
    let mut out = String::new();
    let mut i: usize = 0;
    proof {
        assert(s@.skip(0) =~= s@);
        assert(out@ + sanitized(s@, value@, placeholder@) =~= sanitized(
            s@,
            value@,
            placeholder@,
        ));
    }
    while i < n
        invariant
            n == s@.len(),
            m == value@.len(),
            m >= 1,
            i <= n,
            out@ + sanitized(s@.skip(i as int), value@, placeholder@) == sanitized(
                s@,
                value@,
                placeholder@,
            ),
        decreases n - i,
    {
        let ghost pre = out@;
        let ghost tail = s@.skip(i as int);
        if matches_at(s, value, i, n, m) {
            proof {
                assert(tail.subrange(0, m as int) =~= s@.subrange(i as int, i + m));
                assert(starts_with(tail, value@));
                assert(tail.skip(m as int) =~= s@.skip(i + m));
            }
            out.append(placeholder);
            i += m;
            proof {
                assert(sanitized(tail, value@, placeholder@) == placeholder@ + sanitized(
                    s@.skip(i as int),
                    value@,
                    placeholder@,
                ));
                assert(out@ + sanitized(s@.skip(i as int), value@, placeholder@)
                    =~= pre + sanitized(tail, value@, placeholder@));
            }
        } else {
            proof {
                if starts_with(tail, value@) {
                    assert(s@.subrange(i as int, i + m) =~= tail.subrange(0, m as int));
                }
                assert(!occurs_at(s@, value@, i as int) ==> !starts_with(tail, value@));
            }
            let c = s.substring_char(i, i + 1);
            out.append(c);
            i += 1;
            proof {
                assert(tail.skip(1) =~= s@.skip(i as int));
                assert(sanitized(tail, value@, placeholder@) == seq![tail[0]] + sanitized(
                    s@.skip(i as int),
                    value@,
                    placeholder@,
                ));
                assert(c@ =~= seq![tail[0]]);
                assert(out@ + sanitized(s@.skip(i as int), value@, placeholder@)
                    =~= pre + sanitized(tail, value@, placeholder@));
            }
        }
    }
    proof {
        assert(s@.skip(n as int) =~= Seq::<char>::empty());
        assert(sanitized(s@.skip(n as int), value@, placeholder@)
            == s@.skip(n as int));
        assert(out@ + s@.skip(n as int) =~= out@);
    }
    out
}

} // verus!
