//! What holds of trimmed, lower-case and joined text.

use vstd::prelude::*;

use crate::text::ascii_lower;
use crate::text::join;
use crate::text::lower;
use crate::text::trim;
use crate::text::trim_end;
use crate::text::trim_start;
use crate::text::white_space;

verus! {

proof fn lemma_trim_start(s: Seq<char>)
    ensures
        trim_start(s).len() > 0 ==> !white_space(trim_start(s)[0]),
        trim_start(s).len() <= s.len(),
        trim_start(s) == s.skip(s.len() - trim_start(s).len()),
        forall|i: int|
            0 <= i < s.len() - trim_start(s).len() ==> white_space(#[trigger] s[i]),
    decreases s.len(),
{
    if s.len() > 0 && white_space(s[0]) {
        let rest = s.drop_first();
        lemma_trim_start(rest);
        assert(trim_start(s) == s.skip(s.len() - trim_start(s).len()));
        assert forall|i: int| 0 <= i < s.len() - trim_start(s).len() implies white_space(
            #[trigger] s[i],
        ) by {
            if i > 0 {
                assert(rest[i - 1] == s[i]);
            }
        }
    } else {
        assert(s.skip(0) == s);
    }
}

proof fn lemma_trim_end(s: Seq<char>)
    ensures
        trim_end(s).len() > 0 ==> !white_space(trim_end(s).last()),
        trim_end(s).len() <= s.len(),
        trim_end(s) == s.take(trim_end(s).len() as int),
        forall|i: int| trim_end(s).len() <= i < s.len() ==> white_space(#[trigger] s[i]),
    decreases s.len(),
{
    if s.len() > 0 && white_space(s.last()) {
        let rest = s.drop_last();
        lemma_trim_end(rest);
        assert(trim_end(s) == s.take(trim_end(s).len() as int));
        assert forall|i: int| trim_end(s).len() <= i < s.len() implies white_space(
            #[trigger] s[i],
        ) by {
            if i < rest.len() {
                assert(rest[i] == s[i]);
            }
        }
    } else {
        assert(s.take(s.len() as int) == s);
    }
}

/// A trimmed text neither begins nor ends in white space, and what is gone is white space.
pub proof fn law_trim(s: Seq<char>)
    ensures
        trim(s).len() > 0 ==> !white_space(trim(s)[0]) && !white_space(trim(s).last()),
        exists|from: int|
            0 <= from && from + trim(s).len() <= s.len() && trim(s) == #[trigger] s.subrange(
                from,
                from + trim(s).len(),
            ) && (forall|i: int|
                0 <= i < s.len() && !(from <= i < from + trim(s).len()) ==> white_space(
                    #[trigger] s[i],
                )),
{
    lemma_trim_start(s);
    lemma_trim_end(trim_start(s));
    let t = trim_start(s);
    let from = s.len() - t.len();
    let n = trim(s).len();
    assert(trim(s) == s.subrange(from, from + n));
    assert forall|i: int| 0 <= i < s.len() && !(from <= i < from + n) implies white_space(
        #[trigger] s[i],
    ) by {
        if i >= from + n {
            assert(t[i - from] == s[i]);
        }
    }
}

/// Trimming a trimmed text changes nothing.
pub proof fn law_trim_again(s: Seq<char>)
    ensures
        trim(trim(s)) == trim(s),
{
    law_trim(s);
    let t = trim(s);
    assert(trim_start(t) == t);
    assert(trim_end(t) == t);
}

/// White space around a text that neither begins nor ends in it is what trimming takes away.
pub proof fn law_trim_takes_what_was_added(before: Seq<char>, t: Seq<char>, behind: Seq<char>)
    requires
        forall|i: int| 0 <= i < before.len() ==> white_space(#[trigger] before[i]),
        forall|i: int| 0 <= i < behind.len() ==> white_space(#[trigger] behind[i]),
        t.len() > 0 ==> !white_space(t[0]) && !white_space(t.last()),
    ensures
        trim(before + t + behind) == t,
{
    lemma_start_taken(before, t + behind);
    assert(before + t + behind =~= before + (t + behind));
    lemma_end_taken(t, behind);
    if t.len() > 0 {
        assert((t + behind)[0] == t[0]);
    } else {
        lemma_start_taken(behind, t);
        assert(behind + t =~= behind);
        assert(t + behind =~= behind);
        assert(t =~= Seq::empty());
    }
}

/// White space in front is passed over.
pub proof fn lemma_start_taken(before: Seq<char>, t: Seq<char>)
    requires
        forall|i: int| 0 <= i < before.len() ==> white_space(#[trigger] before[i]),
    ensures
        trim_start(before + t) == trim_start(t),
    decreases before.len(),
{
    if before.len() == 0 {
        assert(before + t =~= t);
    } else {
        let rest = before.drop_first();
        assert forall|i: int| 0 <= i < rest.len() implies white_space(#[trigger] rest[i]) by {
            assert(rest[i] == before[i + 1]);
        }
        lemma_start_taken(rest, t);
        assert((before + t).drop_first() =~= rest + t);
        assert((before + t)[0] == before[0]);
    }
}

proof fn lemma_end_taken(t: Seq<char>, behind: Seq<char>)
    requires
        forall|i: int| 0 <= i < behind.len() ==> white_space(#[trigger] behind[i]),
    ensures
        trim_end(t + behind) == trim_end(t),
    decreases behind.len(),
{
    if behind.len() == 0 {
        assert(t + behind =~= t);
    } else {
        let rest = behind.drop_last();
        assert forall|i: int| 0 <= i < rest.len() implies white_space(#[trigger] rest[i]) by {
            assert(rest[i] == behind[i]);
        }
        lemma_end_taken(t, rest);
        assert((t + behind).drop_last() =~= t + rest);
        assert((t + behind).last() == behind.last());
        assert(behind.last() == behind[behind.len() - 1]);
    }
}

/// The code points of white space.
pub open spec fn white_points() -> Seq<int> {
    seq![
        0x9, 0xa, 0xb, 0xc, 0xd, 0x20, 0x85, 0xa0, 0x1680,
        0x2000, 0x2001, 0x2002, 0x2003, 0x2004, 0x2005, 0x2006, 0x2007, 0x2008, 0x2009, 0x200a,
        0x2028, 0x2029, 0x202f, 0x205f, 0x3000,
    ]
}

/// White space is what Unicode lists as such: 25 characters, and no other.
pub proof fn law_white_space_is_listed(c: char)
    ensures
        white_points().len() == 25,
        white_space(c) <==> white_points().contains(c as int),
{
    let w = white_points();
    let n = c as int;
    if white_space(c) {
        let i = if n <= 0xd {
            n - 0x9
        } else if n == 0x20 {
            5
        } else if n == 0x85 {
            6
        } else if n == 0xa0 {
            7
        } else if n == 0x1680 {
            8
        } else if n <= 0x200a {
            9 + n - 0x2000
        } else if n == 0x2028 {
            20
        } else if n == 0x2029 {
            21
        } else if n == 0x202f {
            22
        } else if n == 0x205f {
            23
        } else {
            24
        };
        assert(w[i] == n);
    }
}

// ---- letters ----

/// Making a text lower-case changes no length, exchanges each capital for its small letter and
/// leaves every other character as it is.
pub proof fn law_lower_case(s: Seq<char>, i: int, k: int)
    requires
        0 <= i < s.len(),
        0 <= k < 26,
    ensures
        ascii_lower(s).len() == s.len(),
        s[i] == "ABCDEFGHIJKLMNOPQRSTUVWXYZ"@[k] ==> ascii_lower(s)[i]
            == "abcdefghijklmnopqrstuvwxyz"@[k],
        !("ABCDEFGHIJKLMNOPQRSTUVWXYZ"@.contains(s[i])) ==> ascii_lower(s)[i] == s[i],
{
    let capitals = "ABCDEFGHIJKLMNOPQRSTUVWXYZ"@;
    let small = "abcdefghijklmnopqrstuvwxyz"@;
    reveal_strlit("ABCDEFGHIJKLMNOPQRSTUVWXYZ");
    reveal_strlit("abcdefghijklmnopqrstuvwxyz");
    let c = s[i];
    assert(ascii_lower(s)[i] == lower(c));
    assert(capitals[k] as int == 65 + k);
    assert(small[k] as int == 97 + k);
    if 'A' <= c <= 'Z' {
        let b: u8 = c as u8;
        assert(65 <= b <= 90);
        assert((b + 32) as char as u8 == b + 32);
        assert(lower(c) as int == c as int + 32);
        assert(capitals[c as int - 65] == c);
    }
}

// ---- joining ----

/// Two rows joined make the row of both, with the separator between them.
pub proof fn law_joined_in_parts(a: Seq<Seq<char>>, b: Seq<Seq<char>>, sep: Seq<char>)
    requires
        a.len() > 0,
        b.len() > 0,
    ensures
        join(a + b, sep) == join(a, sep) + sep + join(b, sep),
        join(seq![a[0]], sep) == a[0],
        join(Seq::empty(), sep) == Seq::<char>::empty(),
    decreases b.len(),
{
    assert((a + b).drop_last() =~= a + b.drop_last());
    assert((a + b).last() == b.last());
    if b.len() == 1 {
        assert(a + b.drop_last() =~= a);
    } else {
        law_joined_in_parts(a, b.drop_last(), sep);
        let x = join(a, sep);
        let y = join(b.drop_last(), sep);
        assert(x + sep + y + sep + b.last() =~= x + sep + (y + sep + b.last()));
    }
}

} // verus!
