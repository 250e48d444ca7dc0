//! The order of version names such as `v20.1.0`.

use vstd::prelude::*;

use crate::text::chars_of;
use crate::text::comes_before;
use crate::text::lemma_order_transitive;
use crate::text::precedes;

verus! {

/// Whether `c` is a decimal digit.
pub open spec fn decimal_digit(c: char) -> bool {
    '0' <= c <= '9'
}

/// The index of the first character of `s[i..]` that is no decimal digit.
pub open spec fn digits_end(s: Seq<char>, i: int) -> int
    decreases s.len() - i,
{
    if 0 <= i < s.len() && decimal_digit(s[i]) {
        digits_end(s, i + 1)
    } else {
        i
    }
}

/// The number that decimal digits stand for.
pub open spec fn number(s: Seq<char>) -> nat
    decreases s.len(),
{
    if s.len() == 0 {
        0
    } else {
        number(s.drop_last()) * 10 + (s.last() as u32 - '0' as u32) as nat
    }
}

/// The decimal numbers with dots between them that begin at `i`, as many as there are.
pub open spec fn numbers_from(s: Seq<char>, i: int) -> Seq<nat>
    decreases s.len() - i,
{
    let end = digits_end(s, i);
    if 0 <= i < end {
        let first = seq![number(s.subrange(i, end))];
        if end < s.len() && s[end] == '.' {
            first + numbers_from(s, end + 1)
        } else {
            first
        }
    } else {
        Seq::empty()
    }
}

/// Where the numbers of a version name begin: behind a leading `v`, if there is one.
pub open spec fn numbers_start(s: Seq<char>) -> int {
    if s.len() > 0 && s[0] == 'v' {
        1
    } else {
        0
    }
}

/// The numbers that a version name begins with; what follows them is no part of it.
pub open spec fn version(s: Seq<char>) -> Seq<nat> {
    numbers_from(s, numbers_start(s))
}

/// Whether some numbers come before others, compared from left to right; where one list is the
/// beginning of the other, the shorter one comes first.
pub open spec fn lower_numbers(x: Seq<nat>, y: Seq<nat>) -> bool
    decreases y.len(),
{
    if y.len() == 0 {
        false
    } else if x.len() == 0 {
        true
    } else if x[0] != y[0] {
        x[0] < y[0]
    } else {
        lower_numbers(x.drop_first(), y.drop_first())
    }
}

/// Whether the version `a` comes before `b`: by the numbers that they begin with, and by their
/// texts where these are the same.
pub open spec fn version_before(a: Seq<char>, b: Seq<char>) -> bool {
    lower_numbers(version(a), version(b)) || (version(a) == version(b) && precedes(a, b))
}

/// How two numbers, or two lists of them, stand to each other.
#[derive(Clone, Copy, Debug, PartialEq, Eq, Structural)]
enum Rank {
    Lower,
    Same,
    Higher,
}

spec fn ranked(a: nat, b: nat) -> Rank {
    if a < b {
        Rank::Lower
    } else if a == b {
        Rank::Same
    } else {
        Rank::Higher
    }
}

fn find_digits_end(s: &Vec<char>, from: usize) -> (r: usize)
    requires
        from <= s@.len(),
    ensures
        from <= r <= s@.len(),
        r == digits_end(s@, from as int),
        forall|k: int| from <= k < r ==> decimal_digit(#[trigger] s@[k]),
{
    let mut i: usize = from;
    while i < s.len() && '0' <= s[i] && s[i] <= '9'
        invariant
            from <= i <= s@.len(),
            digits_end(s@, from as int) == digits_end(s@, i as int),
            forall|k: int| from <= k < i ==> decimal_digit(#[trigger] s@[k]),
        decreases s@.len() - i,
    {
        i = i + 1;
    }
    i
}

/// The ranks of the numbers `a[i..j]` and `b[k..l]`, whatever their length.
fn rank_numbers(a: &Vec<char>, i: usize, j: usize, b: &Vec<char>, k: usize, l: usize) -> (r: Rank)
    requires
        i <= j <= a@.len(),
        k <= l <= b@.len(),
        forall|n: int| i <= n < j ==> decimal_digit(#[trigger] a@[n]),
        forall|n: int| k <= n < l ==> decimal_digit(#[trigger] b@[n]),
    ensures
        r == ranked(
            number(a@.subrange(i as int, j as int)),
            number(b@.subrange(k as int, l as int)),
        ),
    decreases j - i + l - k,
{
    let ghost x = a@.subrange(i as int, j as int);
    let ghost y = b@.subrange(k as int, l as int);
    if i == j && k == l {
        return Rank::Same;
    }
    let j2: usize = if j > i {
        j - 1
    } else {
        j
    };
    let l2: usize = if l > k {
        l - 1
    } else {
        l
    };
    let d: u32 = if j > i {
        a[j - 1] as u32 - '0' as u32
    } else {
        0
    };
    let e: u32 = if l > k {
        b[l - 1] as u32 - '0' as u32
    } else {
        0
    };
    let front = rank_numbers(a, i, j2, b, k, l2);
    proof {
        let x2 = a@.subrange(i as int, j2 as int);
        let y2 = b@.subrange(k as int, l2 as int);
        if j > i {
            assert(x.drop_last() == x2);
            assert(x.last() == a@[j - 1]);
        }
        if l > k {
            assert(y.drop_last() == y2);
            assert(y.last() == b@[l - 1]);
        }
        assert(number(x) == number(x2) * 10 + d);
        assert(number(y) == number(y2) * 10 + e);
        assert(d <= 9 && e <= 9);
    }
    match front {
        Rank::Same => if d < e {
            Rank::Lower
        } else if d == e {
            Rank::Same
        } else {
            Rank::Higher
        },
        _ => front,
    }
}

/// The ranks of the numbers of `a` from `i` on and of those of `b` from `k` on.
fn rank_lists(a: &Vec<char>, i: usize, b: &Vec<char>, k: usize) -> (r: Rank)
    requires
        i <= a@.len(),
        k <= b@.len(),
    ensures
        r == Rank::Lower <==> lower_numbers(
            numbers_from(a@, i as int),
            numbers_from(b@, k as int),
        ),
        r == Rank::Same <==> numbers_from(a@, i as int) == numbers_from(b@, k as int),
    decreases a@.len() - i,
{
    let ghost x = numbers_from(a@, i as int);
    let ghost y = numbers_from(b@, k as int);
    let n: usize = a.len();
    let m: usize = b.len();
    let j = find_digits_end(a, i);
    let l = find_digits_end(b, k);
    if j == i {
        return if l == k {
            Rank::Same
        } else {
            assert(y.len() > 0);
            Rank::Lower
        };
    }
    assert(x.len() > 0);
    if l == k {
        return Rank::Higher;
    }
    let ghost c = number(a@.subrange(i as int, j as int));
    let ghost d = number(b@.subrange(k as int, l as int));
    assert(x[0] == c && y[0] == d);
    let first = rank_numbers(a, i, j, b, k, l);
    match first {
        Rank::Same => {
            let more_a = j < n && a[j] == '.';
            let more_b = l < m && b[l] == '.';
            proof {
                let rest_a = if more_a {
                    numbers_from(a@, j + 1)
                } else {
                    Seq::empty()
                };
                let rest_b = if more_b {
                    numbers_from(b@, l + 1)
                } else {
                    Seq::empty()
                };
                assert(x.drop_first() =~= rest_a);
                assert(y.drop_first() =~= rest_b);
                assert(x =~= seq![c] + rest_a);
                assert(y =~= seq![d] + rest_b);
                assert(lower_numbers(x, y) == lower_numbers(rest_a, rest_b));
            }
            if more_a && more_b {
                rank_lists(a, j + 1, b, l + 1)
            } else if more_a {
                let next = find_digits_end(a, j + 1);
                if next == j + 1 {
                    Rank::Same
                } else {
                    assert(x.drop_first().len() > 0);
                    Rank::Higher
                }
            } else if more_b {
                let next = find_digits_end(b, l + 1);
                if next == l + 1 {
                    Rank::Same
                } else {
                    assert(y.drop_first().len() > 0);
                    Rank::Lower
                }
            } else {
                Rank::Same
            }
        },
        _ => first,
    }
}

/// Whether the version `a` comes before `b`.
pub fn is_version_before(a: &str, b: &str) -> (r: bool)
    ensures
        r == version_before(a@, b@),
{
    let s = chars_of(a);
    let t = chars_of(b);
    let i: usize = if s.len() > 0 && s[0] == 'v' {
        1
    } else {
        0
    };
    let k: usize = if t.len() > 0 && t[0] == 'v' {
        1
    } else {
        0
    };
    match rank_lists(&s, i, &t, k) {
        Rank::Lower => true,
        Rank::Same => {
            proof {
                lemma_not_lower_than_itself(version(a@));
            }
            comes_before(a, b)
        },
        Rank::Higher => false,
    }
}

/// No version comes before itself.
pub proof fn law_version_not_before_itself(a: Seq<char>)
    ensures
        !version_before(a, a),
{
    lemma_not_before_itself(a);
    lemma_not_lower_than_itself(version(a));
}

proof fn lemma_not_lower_than_itself(x: Seq<nat>)
    ensures
        !lower_numbers(x, x),
    decreases x.len(),
{
    if x.len() > 0 {
        lemma_not_lower_than_itself(x.drop_first());
    }
}

proof fn lemma_lower_transitive(x: Seq<nat>, y: Seq<nat>, z: Seq<nat>)
    requires
        lower_numbers(x, y),
        lower_numbers(y, z),
    ensures
        lower_numbers(x, z),
    decreases z.len(),
{
    if x.len() > 0 && y.len() > 0 && z.len() > 0 && x[0] == y[0] && y[0] == z[0] {
        lemma_lower_transitive(x.drop_first(), y.drop_first(), z.drop_first());
    }
}

proof fn lemma_lower_total(x: Seq<nat>, y: Seq<nat>)
    ensures
        lower_numbers(x, y) || lower_numbers(y, x) || x == y,
    decreases y.len(),
{
    if x.len() > 0 && y.len() > 0 {
        lemma_lower_total(x.drop_first(), y.drop_first());
        assert(x == seq![x[0]] + x.drop_first());
        assert(y == seq![y[0]] + y.drop_first());
    }
    if x.len() == 0 && y.len() == 0 {
        assert(x == y);
    }
}

proof fn lemma_not_before_itself(a: Seq<char>)
    ensures
        !precedes(a, a),
    decreases a.len(),
{
    if a.len() > 0 {
        lemma_not_before_itself(a.drop_first());
    }
}

/// The order of versions is transitive.
pub proof fn law_version_order_is_transitive(a: Seq<char>, b: Seq<char>, c: Seq<char>)
    requires
        version_before(a, b),
        version_before(b, c),
    ensures
        version_before(a, c),
{
    let x = version(a);
    let y = version(b);
    let z = version(c);
    if lower_numbers(x, y) && lower_numbers(y, z) {
        lemma_lower_transitive(x, y, z);
    }
    if precedes(a, b) && precedes(b, c) {
        lemma_order_transitive(a, b, c);
    }
}

/// Of two different versions one comes before the other.
pub proof fn law_version_order_is_total(a: Seq<char>, b: Seq<char>)
    requires
        a != b,
    ensures
        version_before(a, b) || version_before(b, a),
{
    lemma_order_total(a, b);
    lemma_lower_total(version(a), version(b));
}

/// A greater first number makes a later version, whatever stands behind the numbers.
pub proof fn law_greater_number_is_later(a: Seq<char>, b: Seq<char>)
    requires
        version(a).len() > 0,
        version(b).len() > 0,
        version(a)[0] < version(b)[0],
    ensures
        version_before(a, b),
        !version_before(b, a),
{
}

proof fn lemma_order_total(a: Seq<char>, b: Seq<char>)
    ensures
        precedes(a, b) || precedes(b, a) || a == b,
    decreases b.len(),
{
    if a.len() > 0 && b.len() > 0 {
        lemma_order_total(a.drop_first(), b.drop_first());
        assert(a == seq![a[0]] + a.drop_first());
        assert(b == seq![b[0]] + b.drop_first());
    }
    if a.len() == 0 && b.len() == 0 {
        assert(a == b);
    }
}

} // verus!
