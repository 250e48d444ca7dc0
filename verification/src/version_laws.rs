//! What the written form of a number or a version tells.

use vstd::prelude::*;

use crate::text::decimal;
use crate::text::digit;
use crate::text::join;
use crate::text::precedes;
use crate::text::signed_decimal;
use crate::text_laws::law_joined_in_parts;
use crate::version::decimal_digit;
use crate::version::digits_end;
use crate::version::lower_numbers;
use crate::version::number;
use crate::version::numbers_from;
use crate::version::version;
use crate::version::version_before;

verus! {

// ---- numbers ----

/// The number that a row of digits stands for, each digit ten times the next.
pub open spec fn value(s: Seq<char>) -> int
    decreases s.len(),
{
    if s.len() == 0 {
        0
    } else {
        value(s.drop_last()) * 10 + (s.last() as int - 48)
    }
}

/// Whether a text is made of the digits 0 to 9.
pub open spec fn all_digits(s: Seq<char>) -> bool {
    forall|i: int| 0 <= i < s.len() ==> 48 <= (#[trigger] s[i]) as int <= 57
}

/// A written number is made of digits, has no needless zero in front, and reads back.
pub proof fn law_decimal_reads_back(n: nat)
    ensures
        decimal(n).len() > 0,
        all_digits(decimal(n)),
        value(decimal(n)) == n,
        decimal(n)[0] == '0' ==> n == 0,
    decreases n,
{
    let d = (n % 10) as u8;
    assert((48 + d) as char as u8 == 48 + d);
    assert(digit(n % 10) as int == 48 + n % 10);
    if n < 10 {
        assert(decimal(n) =~= seq![digit(n)]);
        assert(decimal(n).drop_last() =~= Seq::empty());
        assert(value(Seq::<char>::empty()) == 0);
    } else {
        law_decimal_reads_back(n / 10);
        let front = decimal(n / 10);
        assert(decimal(n).drop_last() =~= front);
        assert(decimal(n)[0] == front[0]);
    }
}

/// A written number with a sign reads back: a minus sign stands in front of a negative one and
/// of no other.
pub proof fn law_signed_decimal_reads_back(n: int)
    ensures
        n >= 0 ==> all_digits(signed_decimal(n)) && value(signed_decimal(n)) == n,
        n < 0 ==> signed_decimal(n)[0] == '-' && all_digits(signed_decimal(n).skip(1)) && value(
            signed_decimal(n).skip(1),
        ) == -n,
{
    if n < 0 {
        law_decimal_reads_back((-n) as nat);
        assert(signed_decimal(n).skip(1) =~= decimal((-n) as nat));
    } else {
        law_decimal_reads_back(n as nat);
    }
}

/// Digits stand for the number that they are read as.
pub proof fn law_digits_are_numbers(s: Seq<char>)
    requires
        all_digits(s),
    ensures
        number(s) == value(s),
    decreases s.len(),
{
    if s.len() > 0 {
        let front = s.drop_last();
        assert forall|i: int| 0 <= i < front.len() implies 48 <= (#[trigger] front[i]) as int
            <= 57 by {
            assert(front[i] == s[i]);
        }
        law_digits_are_numbers(front);
        assert(s.last() == s[s.len() - 1]);
    }
}

// ---- versions ----

/// The written forms of some numbers.
pub open spec fn decimals(list: Seq<nat>) -> Seq<Seq<char>> {
    list.map_values(|n: nat| decimal(n))
}

/// Whether a text is empty or begins with no digit.
pub open spec fn no_digit_first(s: Seq<char>) -> bool {
    s.len() > 0 ==> !('0' <= s[0] <= '9')
}

/// Whether a text goes on in something other than a version: it begins with no digit, nor with a
/// dot and a digit.
pub open spec fn ends_version(tail: Seq<char>) -> bool {
    no_digit_first(tail) && (tail.len() > 1 && tail[0] == '.' ==> no_digit_first(tail.skip(1)))
}

proof fn lemma_digits(before: Seq<char>, digits: Seq<char>, tail: Seq<char>, i: int)
    requires
        all_digits(digits),
        0 <= i <= digits.len(),
        tail.len() > 0 ==> !('0' <= tail[0] <= '9'),
    ensures
        digits_end(before + digits + tail, before.len() + i) == before.len() + digits.len(),
    decreases digits.len() - i,
{
    let s = before + digits + tail;
    if i < digits.len() {
        assert(s[before.len() + i] == digits[i]);
        assert(decimal_digit(digits[i]));
        lemma_digits(before, digits, tail, i + 1);
    } else if tail.len() > 0 {
        assert(s[before.len() + i] == tail[0]);
    }
}

proof fn lemma_numbers(before: Seq<char>, list: Seq<nat>, tail: Seq<char>)
    requires
        list.len() > 0,
        ends_version(tail),
    ensures
        numbers_from(before + join(decimals(list), "."@) + tail, before.len() as int) == list,
    decreases list.len(),
{
    let n = list[0];
    let d = decimal(n);
    let all = join(decimals(list), "."@);
    let s = before + all + tail;
    law_decimal_reads_back(n);
    law_digits_are_numbers(d);
    reveal_strlit(".");
    let i = before.len() as int;
    if list.len() == 1 {
        assert(decimals(list) =~= seq![d]);
        assert(all == d);
        lemma_digits(before, d, tail, 0);
        assert(s.subrange(i, i + d.len()) =~= d);
        if tail.len() > 0 {
            assert(s[i + d.len()] == tail[0]);
        }
        if tail.len() > 1 {
            assert(s[i + d.len() + 1] == tail[1]);
            assert(tail.skip(1)[0] == tail[1]);
        }
        let end = i + d.len();
        assert(digits_end(s, i) == end);
        if tail.len() > 0 && tail[0] == '.' {
            assert(digits_end(s, end + 1) == end + 1);
            assert(numbers_from(s, end + 1) =~= Seq::empty());
            assert(numbers_from(s, i) =~= seq![n]);
        } else {
            assert(numbers_from(s, i) =~= seq![n]);
        }
        assert(list =~= seq![n]);
    } else {
        let more = list.drop_first();
        let rest = join(decimals(more), "."@);
        assert(decimals(list) =~= seq![d] + decimals(more));
        law_joined_in_parts(seq![d], decimals(more), "."@);
        assert(join(seq![d], "."@) == d);
        assert(all == d + "."@ + rest);
        let t = "."@ + rest + tail;
        assert(s =~= before + d + t);
        assert(t[0] == '.');
        lemma_digits(before, d, t, 0);
        assert(s.subrange(i, i + d.len()) =~= d);
        assert(s[i + d.len()] == '.');
        let behind = before + d + "."@;
        lemma_numbers(behind, more, tail);
        assert(behind + rest + tail =~= s);
        assert(behind.len() == i + d.len() + 1);
        assert(list =~= seq![n] + more);
    }
}

/// A version name reads back: its numbers are those that stand in it with dots between them, with
/// or without a leading `v`, and whatever follows them is of no account.
pub proof fn law_version_reads_back(list: Seq<nat>, tail: Seq<char>)
    requires
        list.len() > 0,
        ends_version(tail),
    ensures
        version("v"@ + join(decimals(list), "."@) + tail) == list,
        version(join(decimals(list), "."@) + tail) == list,
{
    let all = join(decimals(list), "."@);
    reveal_strlit("v");
    lemma_numbers("v"@, list, tail);
    assert(("v"@ + all + tail)[0] == 'v');
    lemma_numbers(Seq::empty(), list, tail);
    assert(Seq::<char>::empty() + all + tail =~= all + tail);
    lemma_first_digit(list);
    assert((all + tail)[0] == all[0]);
}

proof fn lemma_first_digit(list: Seq<nat>)
    requires
        list.len() > 0,
    ensures
        join(decimals(list), "."@).len() > 0,
        48 <= join(decimals(list), "."@)[0] as int <= 57,
{
    let d = decimal(list[0]);
    law_decimal_reads_back(list[0]);
    assert(48 <= d[0] as int <= 57);
    if list.len() == 1 {
        assert(decimals(list) =~= seq![d]);
    } else {
        let more = list.drop_first();
        assert(decimals(list) =~= seq![d] + decimals(more));
        law_joined_in_parts(seq![d], decimals(more), "."@);
        assert(join(seq![d], "."@) == d);
        assert(join(decimals(list), "."@)[0] == d[0]);
    }
}

/// A name that does not begin with a digit, nor with a `v` and a digit, has no numbers.
pub proof fn law_other_names_have_no_numbers(s: Seq<char>)
    requires
        no_digit_first(s),
        s.len() > 0 && s[0] == 'v' ==> no_digit_first(s.skip(1)),
    ensures
        version(s).len() == 0,
{
    if s.len() > 1 {
        assert(s.skip(1)[0] == s[1]);
    }
}

/// Numbers are compared where they first differ, and numbers that go on come behind those that
/// end there.
pub proof fn law_first_difference_decides(common: Seq<nat>, x: Seq<nat>, y: Seq<nat>)
    requires
        x.len() > 0 && y.len() > 0 ==> x[0] != y[0],
    ensures
        lower_numbers(common + x, common + y) <==> y.len() > 0 && (x.len() == 0 || x[0] < y[0]),
    decreases common.len(),
{
    if common.len() == 0 {
        assert(common + x =~= x);
        assert(common + y =~= y);
    } else {
        let rest = common.drop_first();
        law_first_difference_decides(rest, x, y);
        assert((common + x).drop_first() =~= rest + x);
        assert((common + y).drop_first() =~= rest + y);
        assert((common + x)[0] == common[0] && (common + y)[0] == common[0]);
    }
}

/// Texts are compared where they first differ, and a text that goes on comes behind one that
/// ends there.
pub proof fn law_first_character_decides(common: Seq<char>, x: Seq<char>, y: Seq<char>)
    requires
        x.len() > 0 && y.len() > 0 ==> x[0] != y[0],
    ensures
        precedes(common + x, common + y) <==> y.len() > 0 && (x.len() == 0 || x[0] < y[0]),
    decreases common.len(),
{
    if common.len() == 0 {
        assert(common + x =~= x);
        assert(common + y =~= y);
    } else {
        let rest = common.drop_first();
        law_first_character_decides(rest, x, y);
        assert((common + x).drop_first() =~= rest + x);
        assert((common + y).drop_first() =~= rest + y);
        assert((common + x)[0] == common[0] && (common + y)[0] == common[0]);
    }
}

/// Of two versions with the same numbers up to a place, the one with the greater number there is
/// the later one, with or without a leading `v`, whatever follows.
pub proof fn law_later_number_is_later_version(
    common: Seq<nat>,
    m: nat,
    n: nat,
    more: Seq<nat>,
    other: Seq<nat>,
    tail: Seq<char>,
    end: Seq<char>,
)
    requires
        m < n,
        ends_version(tail),
        ends_version(end),
    ensures
        ({
            let a = "v"@ + join(decimals(common + seq![m] + more), "."@) + tail;
            let b = "v"@ + join(decimals(common + seq![n] + other), "."@) + end;
            version_before(a, b) && !version_before(b, a)
        }),
{
    let x = common + seq![m] + more;
    let y = common + seq![n] + other;
    law_version_reads_back(x, tail);
    law_version_reads_back(y, end);
    assert(x =~= common + (seq![m] + more));
    assert(y =~= common + (seq![n] + other));
    law_first_difference_decides(common, seq![m] + more, seq![n] + other);
    law_first_difference_decides(common, seq![n] + other, seq![m] + more);
    assert(x[common.len() as int] == m);
    assert(y[common.len() as int] == n);
}

/// Versions with the same numbers stand in the order of their texts.
pub proof fn law_same_numbers_go_by_text(a: Seq<char>, b: Seq<char>)
    requires
        version(a) == version(b),
    ensures
        version_before(a, b) <==> precedes(a, b),
{
    let none: Seq<nat> = Seq::empty();
    law_first_difference_decides(version(a), none, none);
    assert(version(a) + none =~= version(a));
}

} // verus!
