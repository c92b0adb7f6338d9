//! Release version numbers: `major.minor.patch` text compared as numbers.
use vstd::prelude::*;

use crate::keys::{all_digits, decimal_value, is_digit, sign_stripped};
use crate::text::chars_of;

verus! {

/// `u32::from_str`: an optional `+` and at least one ASCII digit, with a
/// value that fits in a `u32`.
pub open spec fn parse_u32(p: Seq<char>) -> Option<u32> {
    let d = sign_stripped(p);
    if d.len() > 0 && all_digits(d) && decimal_value(d) <= u32::MAX {
        Some(decimal_value(d) as u32)
    } else {
        None
    }
}

/// The pieces of `s` between dots, as `str::split('.')` yields them, from
/// index `start` on (the current piece began at `start`), scanning at `i`.
pub open spec fn dot_pieces(s: Seq<char>, start: int, i: int) -> Seq<Seq<char>>
    decreases s.len() - i,
{
    if i < start || i >= s.len() {
        seq![s.subrange(start, s.len() as int)]
    } else if s[i] == '.' {
        seq![s.subrange(start, i)] + dot_pieces(s, i + 1, i + 1)
    } else {
        dot_pieces(s, start, i + 1)
    }
}

/// The numbers among the pieces, in order; pieces that are not numbers are
/// skipped.
pub open spec fn numbers_of(ps: Seq<Seq<char>>) -> Seq<u32>
    decreases ps.len(),
{
    if ps.len() == 0 {
        seq![]
    } else {
        match parse_u32(ps[0]) {
            Some(n) => seq![n] + numbers_of(ps.drop_first()),
            None => numbers_of(ps.drop_first()),
        }
    }
}

/// The `k`-th number of a version, 0 when it has fewer.
pub open spec fn part(ns: Seq<u32>, k: int) -> u32 {
    if k < ns.len() {
        ns[k]
    } else {
        0
    }
}

/// Major, minor and patch numbers of a version text.
pub open spec fn version_triple(v: Seq<char>) -> (u32, u32, u32) {
    let ns = numbers_of(dot_pieces(v, 0, 0));
    (part(ns, 0), part(ns, 1), part(ns, 2))
}

/// `a` comes after `b`, comparing major, then minor, then patch.
pub open spec fn triple_after(a: (u32, u32, u32), b: (u32, u32, u32)) -> bool {
    a.0 > b.0 || (a.0 == b.0 && (a.1 > b.1 || (a.1 == b.1 && a.2 > b.2)))
}

/// [`parse_u32`] of `cs[a..e]`.
fn parse_u32_exec(cs: &[char], a: usize, e: usize) -> (r: Option<u32>)
    requires
        a <= e <= cs@.len(),
    ensures
        r == parse_u32(cs@.subrange(a as int, e as int)),
{
    let ghost p = cs@.subrange(a as int, e as int);
    let start = if a < e && cs[a] == '+' {
        a + 1
    } else {
        a
    };
    let ghost d = cs@.subrange(start as int, e as int);
    assert(d =~= sign_stripped(p));
    if start >= e {
        return None;
    }
    let mut value: u64 = 0;
    let mut i = start;
    assert(cs@.subrange(start as int, start as int) =~= Seq::<char>::empty());
    while i < e
        invariant
            start <= i <= e <= cs@.len(),
            p == cs@.subrange(a as int, e as int),
            d == sign_stripped(p),
            d.len() > 0,
            d == cs@.subrange(start as int, e as int),
            all_digits(cs@.subrange(start as int, i as int)),
            value as int == decimal_value(cs@.subrange(start as int, i as int)),
            value <= u32::MAX,
        decreases e - i,
    {
        let c = cs[i];
        assert(cs@.subrange(start as int, i + 1).drop_last() =~= cs@.subrange(start as int, i as int));
        if !('0' <= c && c <= '9') {
            assert(d[i - start] == c);
            return None;
        }
        let digit = (c as u32 - '0' as u32) as u64;
        assert(digit as int == c as int - 48);
        value = value * 10 + digit;
        assert(d.take(i + 1 - start) =~= cs@.subrange(start as int, i + 1));
        assert(cs@.subrange(start as int, i + 1).last() == c);
        if value > u32::MAX as u64 {
            proof {
                lemma_decimal_value_grows(d, (i + 1 - start) as int);
            }
            return None;
        }
        assert forall|k: int| 0 <= k < i + 1 - start implies is_digit(#[trigger] cs@.subrange(
            start as int,
            i + 1,
        )[k]) by {
            if k < i - start {
                assert(cs@.subrange(start as int, i + 1)[k] == cs@.subrange(start as int, i as int)[k]);
            }
        }
        i += 1;
    }
    Some(value as u32)
}

/// Once a prefix of a digit run is too large, so is the whole run.
proof fn lemma_decimal_value_grows(d: Seq<char>, k: int)
    requires
        0 <= k <= d.len(),
        all_digits(d.take(k)),
        decimal_value(d.take(k)) > u32::MAX,
    ensures
        !(all_digits(d) && decimal_value(d) <= u32::MAX),
    decreases d.len() - k,
{
    if k < d.len() && all_digits(d) {
        assert(d.take(k + 1).drop_last() =~= d.take(k));
        assert(all_digits(d.take(k + 1)));
        lemma_decimal_value_grows(d, k + 1);
    } else if k == d.len() {
        assert(d.take(k) =~= d);
    }
}

/// Major, minor and patch numbers of `v`: its dot-separated pieces that are
/// numbers, the missing ones 0.
pub fn version_numbers(v: &str) -> (r: (u32, u32, u32))
    ensures
        r == version_triple(v@),
{
    let cs = chars_of(v);
    let n = cs.len();
    let ghost s = cs@;
    let mut nums: Vec<u32> = Vec::new();
    let mut start: usize = 0;
    let mut i: usize = 0;
    while i < n
        invariant
            s == cs@,
            s == v@,
            n == s.len(),
            start <= i <= n,
            numbers_of(dot_pieces(s, 0, 0)) == nums@ + numbers_of(dot_pieces(s, start as int, i as int)),
        decreases n - i,
    {
        if cs[i] == '.' {
            let ghost rest = dot_pieces(s, i + 1, i + 1);
            let ghost piece = s.subrange(start as int, i as int);
            assert(dot_pieces(s, start as int, i as int) == seq![piece] + rest);
            assert((seq![piece] + rest).drop_first() =~= rest);
            match parse_u32_exec(cs.as_slice(), start, i) {
                Some(x) => {
                    assert(nums@ + (seq![x] + numbers_of(rest)) =~= nums@.push(x) + numbers_of(rest));
                    nums.push(x);
                },
                None => {},
            }
            start = i + 1;
        }
        i += 1;
    }
    let ghost last = s.subrange(start as int, n as int);
    assert(dot_pieces(s, start as int, n as int) == seq![last]);
    assert(seq![last].drop_first() =~= Seq::<Seq<char>>::empty());
    assert(numbers_of(Seq::<Seq<char>>::empty()) == Seq::<u32>::empty());
    match parse_u32_exec(cs.as_slice(), start, n) {
        Some(x) => {
            assert(numbers_of(seq![last]) == seq![x] + numbers_of(Seq::<Seq<char>>::empty()));
            assert(nums@ + (seq![x] + Seq::<u32>::empty()) =~= nums@.push(x));
            nums.push(x);
        },
        None => {
            assert(numbers_of(seq![last]) == numbers_of(Seq::<Seq<char>>::empty()));
            assert(nums@ + Seq::<u32>::empty() =~= nums@);
        },
    }
    assert(numbers_of(dot_pieces(s, 0, 0)) == nums@);
    let a = if nums.len() > 0 {
        nums[0]
    } else {
        0
    };
    let b = if nums.len() > 1 {
        nums[1]
    } else {
        0
    };
    let c = if nums.len() > 2 {
        nums[2]
    } else {
        0
    };
    (a, b, c)
}

/// Whether release `remote` is newer than `local`.
pub fn is_newer_version(remote: &str, local: &str) -> (b: bool)
    ensures
        b == triple_after(version_triple(remote@), version_triple(local@)),
{
    let r = version_numbers(remote);
    let l = version_numbers(local);
    r.0 > l.0 || (r.0 == l.0 && (r.1 > l.1 || (r.1 == l.1 && r.2 > l.2)))
}

} // verus!
