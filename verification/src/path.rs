//! Slash-separated paths as byte sequences.

use vstd::prelude::*;

use crate::native::bytes_of;
use crate::native::copy_of;

verus! {

/// The byte that separates the pieces of a path.
pub const SLASH: u8 = 0x2f;

/// The byte of which the piece for the current directory is made.
pub const DOT: u8 = 0x2e;

/// Whether the path starts at the root.
pub open spec fn absolute(p: Seq<u8>) -> bool {
    p.len() > 0 && p[0] == SLASH
}

/// `rel` below `base`; an absolute `rel` stands for itself.
pub open spec fn path_join(base: Seq<u8>, rel: Seq<u8>) -> Seq<u8> {
    if absolute(rel) {
        rel
    } else if base.len() == 0 || base.last() == SLASH {
        base + rel
    } else {
        base.push(SLASH) + rel
    }
}

/// Whether a relative path begins with a piece that is a single dot.
pub open spec fn dot_first(p: Seq<u8>) -> bool {
    p.len() > 0 && p[0] == DOT && (p.len() == 1 || p[1] == SLASH)
}

/// The number of bytes for the root or for a leading dot.
pub open spec fn lead(p: Seq<u8>) -> int {
    if absolute(p) || dot_first(p) {
        1
    } else {
        0
    }
}

/// Where the last piece of `p[..end]` begins; `p[..start]` is no part of any piece.
pub open spec fn piece(p: Seq<u8>, start: int, end: int) -> int
    decreases end - start,
{
    if end <= start {
        start
    } else if p[end - 1] == SLASH {
        end
    } else {
        piece(p, start, end - 1)
    }
}

/// The end of `p[..end]` without its last piece and the slash in front of that.
pub open spec fn cut(p: Seq<u8>, start: int, end: int) -> int {
    let b = piece(p, start, end);
    if b > start {
        b - 1
    } else {
        start
    }
}

/// Whether the last piece of `p[..end]` is empty or a single dot.
pub open spec fn idle(p: Seq<u8>, start: int, end: int) -> bool {
    let b = piece(p, start, end);
    b == end || (b + 1 == end && p[b] == DOT)
}

/// A piece lies between the start and the end.
pub proof fn lemma_piece(p: Seq<u8>, start: int, end: int)
    requires
        start <= end,
    ensures
        start <= piece(p, start, end) <= end,
        start < end ==> start <= cut(p, start, end) < end,
    decreases end - start,
{
    if start < end && p[end - 1] != SLASH {
        lemma_piece(p, start, end - 1);
    }
}

/// The end of `p[..end]` without trailing pieces that are empty or a single dot.
pub open spec fn settle(p: Seq<u8>, start: int, end: int) -> int
    decreases end - start,
{
    if start < end && idle(p, start, end) && cut(p, start, end) < end {
        settle(p, start, cut(p, start, end))
    } else {
        end
    }
}

/// The path without its last piece. There is none where the path is empty or ends in the root.
pub open spec fn path_parent(p: Seq<u8>) -> Option<Seq<u8>> {
    let start = lead(p);
    let end = settle(p, start, p.len() as int);
    if end > start {
        Some(p.take(settle(p, start, cut(p, start, end))))
    } else if dot_first(p) {
        Some(Seq::empty())
    } else {
        None
    }
}

/// Whether the path starts at the root.
pub fn is_absolute(p: &Vec<u8>) -> (r: bool)
    ensures
        r == absolute(p@),
{
    p.len() > 0 && p[0] == SLASH
}

/// `rel` below `base`; an absolute `rel` stands for itself.
pub fn join_path(base: &Vec<u8>, rel: &Vec<u8>) -> (r: Vec<u8>)
    ensures
        r@ == path_join(base@, rel@),
{
    if is_absolute(rel) {
        return copy_of(rel);
    }
    let mut r = copy_of(base);
    if base.len() > 0 && base[base.len() - 1] != SLASH {
        r.push(SLASH);
    }
    let mut tail = copy_of(rel);
    r.append(&mut tail);
    r
}

/// The path `rel` below `base`.
pub fn below(base: &Vec<u8>, rel: &str) -> (r: Vec<u8>)
    ensures
        r@ == path_join(base@, vstd::utf8::encode_utf8(rel@)),
{
    join_path(base, &bytes_of(rel))
}

fn last_piece(p: &Vec<u8>, start: usize, end: usize) -> (r: usize)
    requires
        start <= end <= p@.len(),
    ensures
        r == piece(p@, start as int, end as int),
        start <= r <= end,
{
    let mut b: usize = end;
    while b > start && p[b - 1] != SLASH
        invariant
            start <= b <= end <= p@.len(),
            piece(p@, start as int, end as int) == piece(p@, start as int, b as int),
        decreases b,
    {
        b = b - 1;
    }
    b
}

fn without_last(p: &Vec<u8>, start: usize, end: usize) -> (r: usize)
    requires
        start < end <= p@.len(),
    ensures
        r == cut(p@, start as int, end as int),
        start <= r < end,
{
    proof {
        lemma_piece(p@, start as int, end as int);
    }
    let b = last_piece(p, start, end);
    if b > start {
        b - 1
    } else {
        start
    }
}

fn settled(p: &Vec<u8>, start: usize, end: usize) -> (r: usize)
    requires
        start <= end <= p@.len(),
    ensures
        r == settle(p@, start as int, end as int),
        start <= r <= end,
{
    let mut e: usize = end;
    while e > start
        invariant
            start <= e <= end <= p@.len(),
            settle(p@, start as int, end as int) == settle(p@, start as int, e as int),
        decreases e,
    {
        let b = last_piece(p, start, e);
        if b == e || (b + 1 == e && p[b] == DOT) {
            e = without_last(p, start, e);
        } else {
            return e;
        }
    }
    e
}

/// The path without its last piece. There is none where the path is empty or ends in the root.
pub fn parent(p: &Vec<u8>) -> (r: Option<Vec<u8>>)
    ensures
        r is Some <==> path_parent(p@) is Some,
        r is Some ==> r->0@ == path_parent(p@)->0,
{
    let dot = p.len() > 0 && p[0] == DOT && (p.len() == 1 || p[1] == SLASH);
    let start: usize = if is_absolute(p) || dot {
        1
    } else {
        0
    };
    let end = settled(p, start, p.len());
    if end > start {
        let cut_end = without_last(p, start, end);
        let e = settled(p, start, cut_end);
        let mut r = copy_of(p);
        r.truncate(e);
        assert(r@ == p@.take(e as int));
        Some(r)
    } else if dot {
        Some(Vec::new())
    } else {
        None
    }
}

/// A joined name can be taken off again: where `base` is not empty, does not end in a slash or
/// an idle piece, and `name` is a single proper piece, the parent of `name` below `base` is
/// `base`.
pub proof fn law_parent_of_join(base: Seq<u8>, name: Seq<u8>)
    requires
        lead(base) < base.len(),
        !idle(base, lead(base), base.len() as int),
        name.len() > 0,
        forall|i: int| 0 <= i < name.len() ==> name[i] != SLASH,
        name != seq![DOT],
    ensures
        path_parent(path_join(base, name)) == Some(base),
{
    let p = path_join(base, name);
    let start = lead(base);
    assert(base.last() != SLASH);
    assert(p == base.push(SLASH) + name);
    assert(lead(p) == start);
    lemma_piece_of_name(p, start, base.len() as int, p.len() as int);
    assert(!idle(p, start, p.len() as int)) by {
        if name.len() == 1 {
            assert(name == seq![name[0]]);
            assert(p[base.len() as int + 1] == name[0]);
        }
    }
    assert(cut(p, start, p.len() as int) == base.len());
    lemma_piece_agrees(base, p, start, base.len() as int);
    lemma_piece(base, start, base.len() as int);
    assert(!idle(p, start, base.len() as int));
    assert(p.take(base.len() as int) == base);
}

/// The last piece begins behind the last slash.
pub proof fn lemma_piece_of_name(p: Seq<u8>, start: int, slash: int, end: int)
    requires
        start <= slash < end <= p.len(),
        p[slash] == SLASH,
        forall|i: int| slash < i < end ==> p[i] != SLASH,
    ensures
        piece(p, start, end) == slash + 1,
    decreases end - slash,
{
    if end > slash + 1 {
        lemma_piece_of_name(p, start, slash, end - 1);
    }
}

proof fn lemma_piece_agrees(a: Seq<u8>, b: Seq<u8>, start: int, end: int)
    requires
        0 <= start <= end <= a.len(),
        end <= b.len(),
        forall|i: int| start <= i < end ==> a[i] == b[i],
    ensures
        piece(a, start, end) == piece(b, start, end),
    decreases end - start,
{
    if start < end && a[end - 1] != SLASH {
        lemma_piece_agrees(a, b, start, end - 1);
    }
}

} // verus!
