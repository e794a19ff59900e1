//! Operations on character vectors: trimming, prefix tests and substring search.
use vstd::prelude::*;
use crate::text::{chars_of, char_is_whitespace, is_unicode_whitespace, push_char};

verus! {

/// The characters after any leading whitespace.
pub open spec fn trim_start_ws(s: Seq<char>) -> Seq<char>
    decreases s.len(),
{
    if s.len() > 0 && is_unicode_whitespace(s[0]) {
        trim_start_ws(s.skip(1))
    } else {
        s
    }
}

/// The characters before any trailing whitespace.
pub open spec fn trim_end_ws(s: Seq<char>) -> Seq<char>
    decreases s.len(),
{
    if s.len() > 0 && is_unicode_whitespace(s.last()) {
        trim_end_ws(s.drop_last())
    } else {
        s
    }
}

/// `str::trim`: without leading and trailing whitespace.
pub open spec fn trim_ws(s: Seq<char>) -> Seq<char> {
    trim_end_ws(trim_start_ws(s))
}

/// `s` begins with `p`.
pub open spec fn has_prefix(s: Seq<char>, p: Seq<char>) -> bool {
    p.len() <= s.len() && s.take(p.len() as int) == p
}

/// `p` occurs in `s` at index `k`.
pub open spec fn occurs_at(s: Seq<char>, p: Seq<char>, k: int) -> bool {
    0 <= k && k + p.len() <= s.len() && s.subrange(k, k + p.len()) == p
}

/// The first index at or after `from` where `p` occurs in `s`.
pub open spec fn find_from(s: Seq<char>, p: Seq<char>, from: int) -> Option<int>
    decreases s.len() - from,
{
    if from < 0 || from + p.len() > s.len() {
        None
    } else if occurs_at(s, p, from) {
        Some(from)
    } else {
        proof {
            if p.len() == 0 {
                assert(s.subrange(from, from) =~= p);
            }
        }
        find_from(s, p, from + 1)
    }
}

/// A copy of `v[from..to]`.
pub fn sub_chars(v: &Vec<char>, from: usize, to: usize) -> (r: Vec<char>)
    requires
        from <= to <= v@.len(),
    ensures
        r@ == v@.subrange(from as int, to as int),
{
    let mut r: Vec<char> = Vec::new();
    let mut i = from;
    while i < to
        invariant
            from <= i <= to,
            to <= v@.len(),
            r@ == v@.subrange(from as int, i as int),
        decreases to - i,
    {
        r.push(v[i]);
        i = i + 1;
        assert(r@ =~= v@.subrange(from as int, i as int));
    }
    r
}

/// The string holding the characters of `v`.
pub fn string_of(v: &Vec<char>) -> (r: String)
    ensures
        r@ == v@,
{
    let mut r = String::new();
    let mut i: usize = 0;
    while i < v.len()
        invariant
            i <= v.len(),
            r@ == v@.take(i as int),
        decreases v.len() - i,
    {
        push_char(&mut r, v[i]);
        i = i + 1;
        assert(r@ =~= v@.take(i as int));
    }
    assert(v@.take(v.len() as int) =~= v@);
    r
}

/// `v` trimmed of leading and trailing whitespace.
pub fn trim_chars(v: &Vec<char>) -> (r: Vec<char>)
    ensures
        r@ == trim_ws(v@),
{
    let mut a: usize = 0;
    assert(v@.skip(0) =~= v@);
    while a < v.len() && char_is_whitespace(v[a])
        invariant
            a <= v.len(),
            trim_start_ws(v@) == trim_start_ws(v@.skip(a as int)),
        decreases v.len() - a,
    {
        assert(v@.skip(a as int)[0] == v@[a as int]);
        assert(v@.skip(a as int).skip(1) =~= v@.skip(a + 1));
        a = a + 1;
    }
    assert(trim_start_ws(v@) == v@.skip(a as int)) by {
        if a < v.len() {
            assert(v@.skip(a as int)[0] == v@[a as int]);
        }
    }
    let mut b: usize = v.len();
    let ghost t = v@.skip(a as int);
    assert(t =~= v@.subrange(a as int, b as int));
    while b > a && char_is_whitespace(v[b - 1])
        invariant
            a <= b <= v.len(),
            t == v@.skip(a as int),
            trim_end_ws(t) == trim_end_ws(v@.subrange(a as int, b as int)),
        decreases b - a,
    {
        assert(v@.subrange(a as int, b as int).last() == v@[b - 1]);
        assert(v@.subrange(a as int, b as int).drop_last() =~= v@.subrange(a as int, b - 1));
        b = b - 1;
    }
    assert(trim_end_ws(v@.subrange(a as int, b as int)) == v@.subrange(a as int, b as int)) by {
        if b > a {
            assert(v@.subrange(a as int, b as int).last() == v@[b - 1]);
        }
    }
    sub_chars(v, a, b)
}

/// Whether `v` begins with the characters of `p`.
pub fn starts_with_str(v: &Vec<char>, p: &str) -> (r: bool)
    ensures
        r == has_prefix(v@, p@),
{
    let pc = chars_of(p);
    if pc.len() > v.len() {
        return false;
    }
    let mut i: usize = 0;
    while i < pc.len()
        invariant
            pc@ == p@,
            pc.len() <= v.len(),
            i <= pc.len(),
            forall|k: int| 0 <= k < i ==> v@[k] == pc@[k],
        decreases pc.len() - i,
    {
        if v[i] != pc[i] {
            assert(v@.take(pc.len() as int)[i as int] != pc@[i as int]);
            return false;
        }
        i = i + 1;
    }
    assert(v@.take(pc.len() as int) =~= pc@);
    true
}

/// Whether `p` occurs in `v` at index `k`.
pub fn occurs_at_exec(v: &Vec<char>, p: &Vec<char>, k: usize) -> (r: bool)
    ensures
        r == occurs_at(v@, p@, k as int),
{
    if k > v.len() || p.len() > v.len() - k {
        return false;
    }
    let mut i: usize = 0;
    while i < p.len()
        invariant
            k + p.len() <= v.len(),
            i <= p.len(),
            forall|m: int| 0 <= m < i ==> v@[k + m] == p@[m],
        decreases p.len() - i,
    {
        if v[k + i] != p[i] {
            assert(v@.subrange(k as int, k + p.len())[i as int] != p@[i as int]);
            return false;
        }
        i = i + 1;
    }
    assert(v@.subrange(k as int, k + p.len()) =~= p@);
    true
}

/// The first index at or after `from` where `p` occurs in `v`.
pub fn find_from_exec(v: &Vec<char>, p: &Vec<char>, from: usize) -> (r: Option<usize>)
    ensures
        match r {
            Some(k) => find_from(v@, p@, from as int) == Some(k as int),
            None => find_from(v@, p@, from as int) is None,
        },
{
    let mut k = from;
    while k <= v.len() && p.len() <= v.len() - k
        invariant
            from <= k,
            find_from(v@, p@, from as int) == find_from(v@, p@, k as int),
        decreases v.len() + 1 - k,
    {
        if occurs_at_exec(v, p, k) {
            return Some(k);
        }
        proof {
            if p.len() == 0 {
                assert(v@.subrange(k as int, k as int) =~= p@);
            }
        }
        k = k + 1;
    }
    None
}

} // verus!
