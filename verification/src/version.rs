//! Ordering of dotted version strings, as used when comparing
//! library releases: split on dots, drop leading `v`s and any part
//! that is not a number, and compare numerically with missing parts
//! read as zero.

use vstd::prelude::*;
use vstd::string::StrSliceExecFns;

verus! {

/// Whether `c` is an ASCII decimal digit.
pub open spec fn is_digit(c: char) -> bool {
    48 <= c as int <= 57
}

/// The value of a digit character.
pub open spec fn digit_val(c: char) -> int {
    c as int - 48
}

/// The index of the first `.` of `s` at or after `i`, or `s.len()`.
pub open spec fn next_dot(s: Seq<char>, i: int) -> int
    decreases s.len() - i,
{
    if i >= s.len() {
        i
    } else if s[i] == '.' {
        i
    } else {
        next_dot(s, i + 1)
    }
}

proof fn lemma_next_dot_bounds(s: Seq<char>, i: int)
    ensures
        next_dot(s, i) >= i,
        i <= s.len() ==> next_dot(s, i) <= s.len(),
    decreases s.len() - i,
{
    if i < s.len() && s[i] != '.' {
        lemma_next_dot_bounds(s, i + 1);
    }
}

proof fn lemma_next_dot(s: Seq<char>, j: int, i: int)
    requires
        0 <= j <= i <= s.len(),
        forall|k: int| j <= k < i ==> s[k] != '.',
        i == s.len() || s[i] == '.',
    ensures
        next_dot(s, j) == i,
    decreases i - j,
{
    if j < i {
        lemma_next_dot(s, j + 1, i);
    }
}

/// The dot-separated pieces of `s` from position `i` on.
pub open spec fn split_from(s: Seq<char>, i: int) -> Seq<Seq<char>>
    decreases s.len() - i + 1 via split_from_decreases
{
    if i > s.len() {
        Seq::<Seq<char>>::empty()
    } else {
        let j = next_dot(s, i);
        if j >= s.len() {
            seq![s.subrange(i, s.len() as int)]
        } else {
            seq![s.subrange(i, j)] + split_from(s, j + 1)
        }
    }
}

#[via_fn]
proof fn split_from_decreases(s: Seq<char>, i: int) {
    lemma_next_dot_bounds(s, i);
}

/// `c` with every leading `v` removed.
pub open spec fn trim_v(c: Seq<char>) -> Seq<char>
    decreases c.len(),
{
    if c.len() > 0 && c[0] == 'v' {
        trim_v(c.drop_first())
    } else {
        c
    }
}

proof fn lemma_trim_v(c: Seq<char>, t: int)
    requires
        0 <= t <= c.len(),
        forall|k: int| 0 <= k < t ==> c[k] == 'v',
        t == c.len() || c[t] != 'v',
    ensures
        trim_v(c) == c.subrange(t, c.len() as int),
    decreases t,
{
    if t == 0 {
        assert(trim_v(c) =~= c.subrange(0, c.len() as int));
    } else {
        assert(c[0] == 'v');
        assert(c.drop_first() =~= c.subrange(1, c.len() as int));
        lemma_trim_v(c.drop_first(), t - 1);
        assert(c.drop_first().subrange(t - 1, c.drop_first().len() as int) =~= c.subrange(
            t,
            c.len() as int,
        ));
    }
}

/// The number the digits of `c` spell from position `i` on, continued
/// from `acc`, or nothing on a non-digit or a value past `u32::MAX`.
pub open spec fn parse_num(c: Seq<char>, i: int, acc: int) -> Option<int>
    decreases c.len() - i,
{
    if i >= c.len() {
        Some(acc)
    } else if !is_digit(c[i]) {
        Option::<int>::None
    } else {
        let v = acc * 10 + digit_val(c[i]);
        if v > 0xFFFF_FFFF {
            Option::<int>::None
        } else {
            parse_num(c, i + 1, v)
        }
    }
}

/// The number a version part names: leading `v`s removed, then all
/// digits; an empty or non-numeric part names nothing.
pub open spec fn parse_part(c: Seq<char>) -> Option<int> {
    let t = trim_v(c);
    if t.len() == 0 {
        Option::<int>::None
    } else {
        parse_num(t, 0, 0)
    }
}

/// The numbers the parts of a version string name, in order, parts
/// that name nothing skipped.
pub open spec fn nums_from(parts: Seq<Seq<char>>, i: int) -> Seq<int>
    decreases parts.len() - i,
{
    if i >= parts.len() {
        Seq::<int>::empty()
    } else {
        match parse_part(parts[i]) {
            Option::None => nums_from(parts, i + 1),
            Option::Some(v) => seq![v] + nums_from(parts, i + 1),
        }
    }
}

proof fn lemma_nums_shift(p: Seq<char>, rest: Seq<Seq<char>>, i: int)
    requires
        i >= 0,
    ensures
        nums_from(seq![p] + rest, i + 1) == nums_from(rest, i),
    decreases rest.len() - i,
{
    let parts = seq![p] + rest;
    if i >= rest.len() {
        assert(nums_from(parts, i + 1) =~= Seq::<int>::empty());
    } else {
        assert(parts[i + 1] == rest[i]);
        lemma_nums_shift(p, rest, i + 1);
    }
}

proof fn lemma_nums_cons(p: Seq<char>, rest: Seq<Seq<char>>)
    ensures
        nums_from(seq![p] + rest, 0) == (match parse_part(p) {
            Option::None => nums_from(rest, 0),
            Option::Some(v) => seq![v] + nums_from(rest, 0),
        }),
{
    let parts = seq![p] + rest;
    assert(parts[0] == p);
    assert(parts.len() > 0);
    lemma_nums_shift(p, rest, 0);
}

pub open spec fn max2(x: int, y: int) -> int {
    if x >= y {
        x
    } else {
        y
    }
}

/// Numeric comparison of two version number lists from position `i`,
/// missing parts read as zero: -1, 0, or 1.
pub open spec fn cmp_from(a: Seq<int>, b: Seq<int>, i: int) -> int
    decreases max2(a.len() as int, b.len() as int) - i,
{
    if i >= a.len() && i >= b.len() {
        0
    } else {
        let pa = if i < a.len() {
            a[i]
        } else {
            0
        };
        let pb = if i < b.len() {
            b[i]
        } else {
            0
        };
        if pa < pb {
            -1
        } else if pa > pb {
            1
        } else {
            cmp_from(a, b, i + 1)
        }
    }
}

/// What comparing two version strings yields.
pub open spec fn spec_compare_versions(a: Seq<char>, b: Seq<char>) -> int {
    cmp_from(nums_from(split_from(a, 0), 0), nums_from(split_from(b, 0), 0), 0)
}

proof fn lemma_cmp_refl(a: Seq<int>, i: int)
    requires
        0 <= i,
    ensures
        cmp_from(a, a, i) == 0,
    decreases max2(a.len() as int, a.len() as int) - i,
{
    if i < a.len() {
        lemma_cmp_refl(a, i + 1);
    }
}

/// The numbers of a version string's parts.
fn parse_version(s: &str) -> (r: Vec<u32>)
    ensures
        ({
            let nums = nums_from(split_from(s@, 0), 0);
            &&& r@.len() == nums.len()
            &&& forall|j: int| 0 <= j < nums.len() ==> r@[j] == nums[j]
        }),
{
    let n: usize = s.unicode_len();
    let mut out: Vec<u32> = Vec::new();
    let mut start: usize = 0;
    loop
        invariant
            n == s@.len(),
            start <= n,
            ({
                let nums = nums_from(split_from(s@, 0), 0);
                let rest = nums_from(split_from(s@, start as int), 0);
                nums =~= Seq::new(out@.len() as nat, |j: int| out@[j] as int) + rest
            }),
        decreases n - start,
    {
        // Find the end of this component.
        let mut j: usize = start;
        while j < n && s.get_char(j) != '.'
            invariant
                n == s@.len(),
                start <= j <= n,
                forall|k: int| start <= k < j ==> s@[k] != '.',
            decreases n - j,
        {
            j = j + 1;
        }
        proof {
            lemma_next_dot(s@, start as int, j as int);
        }
        let ghost piece = s@.subrange(start as int, j as int);
        // Trim leading `v`s.
        let mut t: usize = start;
        while t < j && s.get_char(t) == 'v'
            invariant
                n == s@.len(),
                start <= t <= j <= n,
                forall|k: int| start <= k < t ==> s@[k] == 'v',
            decreases j - t,
        {
            t = t + 1;
        }
        proof {
            lemma_trim_v(piece, t - start);
            assert(piece.subrange(t - start, piece.len() as int) =~= s@.subrange(
                t as int,
                j as int,
            ));
        }
        let ghost trimmed = s@.subrange(t as int, j as int);
        // Parse the digits.
        let mut value: u64 = 0;
        let mut ok: bool = t < j;
        let mut k: usize = t;
        while k < j && ok
            invariant
                n == s@.len(),
                t <= k <= j <= n,
                trimmed =~= s@.subrange(t as int, j as int),
                ok ==> value <= 0xFFFF_FFFF && parse_num(trimmed, 0, 0) == parse_num(
                    trimmed,
                    k - t,
                    value as int,
                ),
                !ok ==> (t == j || parse_num(trimmed, 0, 0) is None),
            decreases j - k,
        {
            let c = s.get_char(k);
            let d = c as u32;
            proof {
                assert(trimmed[k - t] == s@[k as int]);
            }
            if d < 48 || d > 57 {
                proof {
                    assert(!is_digit(trimmed[k - t]));
                }
                ok = false;
                k = j;
                continue;
            }
            let v: u64 = value * 10 + (d - 48) as u64;
            proof {
                assert(is_digit(trimmed[k - t]));
                assert(digit_val(trimmed[k - t]) == d - 48);
            }
            if v > 0xFFFF_FFFF {
                ok = false;
                k = j;
                continue;
            }
            value = v;
            k = k + 1;
        }
        let ghost old_out = out@;
        if ok && t < j {
            proof {
                assert(k == j || !(k < j));
                assert((k - t) as int >= trimmed.len());
                assert(parse_num(trimmed, 0, 0) == Some(value as int));
                assert(trim_v(piece) == trimmed);
                assert(parse_part(piece) == Some(value as int));
            }
            out.push(value as u32);
        } else {
            proof {
                if t == j {
                    assert(trimmed.len() == 0);
                    assert(parse_part(piece) is None);
                } else {
                    assert(parse_part(piece) is None);
                }
            }
        }
        proof {
            let nums = nums_from(split_from(s@, 0), 0);
            if j < n {
                assert(split_from(s@, start as int) =~= seq![piece] + split_from(
                    s@,
                    j as int + 1,
                ));
                lemma_nums_cons(piece, split_from(s@, j as int + 1));
            } else {
                assert(j == n);
                assert(split_from(s@, start as int) =~= seq![piece]);
                assert(seq![piece] =~= seq![piece] + Seq::<Seq<char>>::empty());
                lemma_nums_cons(piece, Seq::<Seq<char>>::empty());
                assert(nums_from(Seq::<Seq<char>>::empty(), 0) =~= Seq::<int>::empty());
            }
            if ok && t < j {
                assert(Seq::new(out@.len() as nat, |q: int| out@[q] as int) =~= Seq::new(
                    old_out.len() as nat,
                    |q: int| old_out[q] as int,
                ) + seq![value as int]);
            } else {
                assert(Seq::new(out@.len() as nat, |q: int| out@[q] as int) =~= Seq::new(
                    old_out.len() as nat,
                    |q: int| old_out[q] as int,
                ));
            }
        }
        if j == n {
            proof {
                let nums = nums_from(split_from(s@, 0), 0);
                assert(nums =~= Seq::new(out@.len() as nat, |q: int| out@[q] as int));
            }
            return out;
        }
        start = j + 1;
    }
}

/// Compares two dotted version strings numerically, part by part,
/// missing parts read as zero and non-numeric parts skipped: -1, 0,
/// or 1 as the first is older, the same, or newer. Equal strings
/// compare equal.
pub fn compare_versions(a: &str, b: &str) -> (r: i32)
    ensures
        r == spec_compare_versions(a@, b@),
        a@ == b@ ==> r == 0,
{
    let va = parse_version(a);
    let vb = parse_version(b);
    let ghost na = nums_from(split_from(a@, 0), 0);
    let ghost nb = nums_from(split_from(b@, 0), 0);
    proof {
        if a@ == b@ {
            lemma_cmp_refl(na, 0);
        }
    }
    let la: usize = va.len();
    let lb: usize = vb.len();
    let m: usize = if la >= lb {
        la
    } else {
        lb
    };
    let mut i: usize = 0;
    while i < m
        invariant
            na == nums_from(split_from(a@, 0), 0),
            nb == nums_from(split_from(b@, 0), 0),
            la == va@.len() && lb == vb@.len(),
            na.len() == la && nb.len() == lb,
            forall|j: int| 0 <= j < la ==> va@[j] == na[j],
            forall|j: int| 0 <= j < lb ==> vb@[j] == nb[j],
            m == max2(la as int, lb as int),
            i <= m,
            cmp_from(na, nb, 0) == cmp_from(na, nb, i as int),
            a@ == b@ ==> cmp_from(na, nb, 0) == 0,
        decreases m - i,
    {
        let pa: u32 = if i < la {
            va[i]
        } else {
            0
        };
        let pb: u32 = if i < lb {
            vb[i]
        } else {
            0
        };
        if pa < pb {
            proof {
                assert(cmp_from(na, nb, i as int) == -1);
            }
            return -1;
        }
        if pa > pb {
            proof {
                assert(cmp_from(na, nb, i as int) == 1);
            }
            return 1;
        }
        i = i + 1;
    }
    proof {
        assert(cmp_from(na, nb, m as int) == 0);
    }
    0
}

} // verus!
