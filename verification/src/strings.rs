//! Verified string utilities the metadata-page rules are built on:
//! substring search and leftmost, non-overlapping replacement.

use vstd::prelude::*;

verus! {

/// `pat` occurs in `s` as a contiguous run.
pub open spec fn spec_contains(s: Seq<char>, pat: Seq<char>) -> bool {
    exists|i: int|
        0 <= i <= s.len() - pat.len() && #[trigger] s.subrange(i, i + pat.len() as int) == pat
}

/// Leftmost, non-overlapping replacement of every occurrence of `from`
/// by `to`, scanning left to right; an empty `from` leaves `s`
/// unchanged.
pub open spec fn spec_replace(s: Seq<char>, from: Seq<char>, to: Seq<char>) -> Seq<char>
    decreases s.len(),
{
    if from.len() == 0 || s.len() < from.len() {
        s
    } else if s.subrange(0, from.len() as int) == from {
        to + spec_replace(s.subrange(from.len() as int, s.len() as int), from, to)
    } else {
        seq![s[0]] + spec_replace(s.subrange(1, s.len() as int), from, to)
    }
}

/// Whether `pat` matches `s` at position `at`.
fn str_match_at(s: &str, pat: &str, at: usize) -> (r: bool)
    requires
        at + pat@.len() <= s@.len(),
        at + pat@.len() <= usize::MAX,
    ensures
        r == (s@.subrange(at as int, at as int + pat@.len() as int) == pat@),
{
    let m = pat.unicode_len();
    let mut k: usize = 0;
    while k < m
        invariant
            k <= m,
            m == pat@.len(),
            at + m <= s@.len(),
            at + m <= usize::MAX,
            forall|t: int| 0 <= t < k ==> s@[at + t] == pat@[t],
        decreases m - k,
    {
        if s.get_char(at + k) != pat.get_char(k) {
            proof {
                assert(s@.subrange(at as int, at as int + pat@.len() as int)[k as int] == s@[
                    at + k
                ]);
            }
            return false;
        }
        k += 1;
    }
    proof {
        assert(s@.subrange(at as int, at as int + pat@.len() as int) =~= pat@);
    }
    true
}

/// Substring search.
pub fn str_contains(s: &str, pat: &str) -> (r: bool)
    ensures
        r == spec_contains(s@, pat@),
{
    let n = s.unicode_len();
    let m = pat.unicode_len();
    if m > n {
        return false;
    }
    if m == 0 {
        proof {
            assert(s@.subrange(0, 0 + pat@.len() as int) =~= pat@);
            assert(spec_contains(s@, pat@));
        }
        return true;
    }
    let mut i: usize = 0;
    while i <= n - m
        invariant
            1 <= m <= n,
            n == s@.len(),
            m == pat@.len(),
            i <= n - m + 1,
            forall|j: int|
                0 <= j < i ==> #[trigger] s@.subrange(j, j + pat@.len() as int) != pat@,
        decreases n - m - i + 1,
    {
        if str_match_at(s, pat, i) {
            return true;
        }
        i += 1;
    }
    false
}

/// Leftmost, non-overlapping replacement of every occurrence of `from`
/// by `to`.
pub fn str_replace(s: &str, from: &str, to: &str) -> (r: String)
    requires
        from@.len() >= 1,
    ensures
        r@ == spec_replace(s@, from@, to@),
{
    let n = s.unicode_len();
    let m = from.unicode_len();
    let mut out = String::new();
    let mut i: usize = 0;
    let mut start: usize = 0;
    proof {
        assert(out@ + s@.subrange(0, 0) + spec_replace(s@.subrange(0, n as int), from@, to@)
            =~= spec_replace(s@, from@, to@)) by {
            assert(s@.subrange(0, n as int) =~= s@);
        };
    }
    while m <= n - i
        invariant
            n == s@.len(),
            m == from@.len(),
            m >= 1,
            start <= i <= n,
            spec_replace(s@, from@, to@) == out@ + s@.subrange(start as int, i as int)
                + spec_replace(s@.subrange(i as int, n as int), from@, to@),
        decreases n - i,
    {
        let ghost suffix = s@.subrange(i as int, n as int);
        proof {
            assert(suffix.subrange(0, m as int) =~= s@.subrange(i as int, i as int + m));
            assert(suffix.subrange(m as int, suffix.len() as int) =~= s@.subrange(
                i as int + m,
                n as int,
            ));
            assert(suffix.subrange(1, suffix.len() as int) =~= s@.subrange(
                i as int + 1,
                n as int,
            ));
        }
        if str_match_at(s, from, i) {
            out.append(s.substring_char(start, i));
            out.append(to);
            proof {
                assert(spec_replace(suffix, from@, to@) == to@ + spec_replace(
                    s@.subrange(i as int + m, n as int),
                    from@,
                    to@,
                ));
                assert(out@ + s@.subrange(i as int + m, i as int + m) + spec_replace(
                    s@.subrange(i as int + m, n as int),
                    from@,
                    to@,
                ) =~= spec_replace(s@, from@, to@)) by {
                    assert(s@.subrange(i as int + m, i as int + m) =~= Seq::<char>::empty());
                };
            }
            i += m;
            start = i;
        } else {
            proof {
                assert(suffix[0] == s@[i as int]);
                assert(spec_replace(suffix, from@, to@) == seq![s@[i as int]] + spec_replace(
                    s@.subrange(i as int + 1, n as int),
                    from@,
                    to@,
                ));
                assert(s@.subrange(start as int, i as int) + (seq![s@[i as int]] + spec_replace(
                    s@.subrange(i as int + 1, n as int),
                    from@,
                    to@,
                )) =~= s@.subrange(start as int, i as int + 1) + spec_replace(
                    s@.subrange(i as int + 1, n as int),
                    from@,
                    to@,
                ));
            }
            i += 1;
        }
    }
    proof {
        let ghost tail = s@.subrange(i as int, n as int);
        assert(tail.len() < m);
        assert(spec_replace(tail, from@, to@) == tail);
        assert(out@ + s@.subrange(start as int, i as int) + tail =~= out@ + s@.subrange(
            start as int,
            n as int,
        ));
    }
    let tail_str = s.substring_char(start, n);
    let mut result = out;
    result.append(tail_str);
    result
}

} // verus!
