//! What the parent of a path is.

use vstd::prelude::*;

use crate::path::cut;
use crate::path::dot_first;
use crate::path::idle;
use crate::path::lead;
use crate::path::lemma_piece;
use crate::path::path_parent;
use crate::path::piece;
use crate::path::settle;

verus! {

proof fn lemma_piece_of_front(p: Seq<u8>, t: Seq<u8>, start: int, end: int)
    requires
        0 <= start <= end <= p.len(),
    ensures
        piece(p + t, start, end) == piece(p, start, end),
        cut(p + t, start, end) == cut(p, start, end),
        start < end ==> idle(p + t, start, end) == idle(p, start, end),
    decreases end - start,
{
    if start < end {
        assert((p + t)[end - 1] == p[end - 1]);
        lemma_piece_of_front(p, t, start, end - 1);
        lemma_piece(p, start, end);
    }
}

proof fn lemma_settle_of_front(p: Seq<u8>, t: Seq<u8>, start: int, end: int)
    requires
        0 <= start <= end <= p.len(),
    ensures
        settle(p + t, start, end) == settle(p, start, end),
        start <= settle(p, start, end) <= end,
    decreases end - start,
{
    lemma_piece_of_front(p, t, start, end);
    if start < end {
        lemma_piece(p, start, end);
        if idle(p, start, end) {
            lemma_settle_of_front(p, t, start, cut(p, start, end));
        }
    }
}

/// A path whose last piece is idle has the parent that it has without that piece.
proof fn lemma_idle_piece(p: Seq<u8>, t: Seq<u8>)
    requires
        p.len() > 0,
        lead(p + t) == lead(p),
        dot_first(p + t) == dot_first(p),
        t.len() > 0,
        idle(p + t, lead(p), (p + t).len() as int),
        cut(p + t, lead(p), (p + t).len() as int) == p.len(),
    ensures
        path_parent(p + t) == path_parent(p),
{
    let q = p + t;
    let s = lead(p);
    let n = p.len() as int;
    lemma_settle_of_front(p, t, s, n);
    assert(settle(q, s, q.len() as int) == settle(q, s, n));
    let end = settle(p, s, n);
    if end > s {
        lemma_piece_of_front(p, t, s, end);
        lemma_piece(p, s, end);
        let c = cut(p, s, end);
        lemma_settle_of_front(p, t, s, c);
        assert(q.take(settle(p, s, c)) =~= p.take(settle(p, s, c)));
    }
}

/// A slash, or a slash and a dot, at the end of a path are of no account for its parent.
pub proof fn law_parent_passes_over_idle_ends(p: Seq<u8>)
    requires
        p.len() > 0,
    ensures
        path_parent(p + seq![0x2fu8]) == path_parent(p),
        path_parent(p + seq![0x2fu8, 0x2eu8]) == path_parent(p),
{
    let s = lead(p);
    let n = p.len() as int;
    let q = p + seq![0x2fu8];
    assert(q[0] == p[0]);
    assert(p.len() > 1 ==> q[1] == p[1]);
    assert(p.len() == 1 ==> q[1] == 0x2f);
    assert(q[n] == 0x2f);
    lemma_idle_piece(p, seq![0x2fu8]);
    let r = p + seq![0x2fu8, 0x2eu8];
    assert(r[0] == p[0]);
    assert(p.len() > 1 ==> r[1] == p[1]);
    assert(p.len() == 1 ==> r[1] == 0x2f);
    assert(r[n] == 0x2f);
    assert(r[n + 1] == 0x2e);
    assert(piece(r, s, n + 1) == n + 1);
    assert(piece(r, s, n + 2) == n + 1);
    lemma_idle_piece(p, seq![0x2fu8, 0x2eu8]);
}

/// The empty path and the root have no parent. A single name has the empty path for its parent,
/// and below the root it has the root.
pub proof fn law_first_parents(name: Seq<u8>)
    requires
        name.len() > 0,
        forall|i: int| 0 <= i < name.len() ==> name[i] != 0x2f,
        name != seq![0x2eu8],
    ensures
        path_parent(Seq::empty()) is None,
        path_parent(seq![0x2fu8]) is None,
        path_parent(name) == Some(Seq::<u8>::empty()),
        path_parent(seq![0x2eu8]) == Some(Seq::<u8>::empty()),
        path_parent(seq![0x2fu8] + name) == Some(seq![0x2fu8]),
{
    lemma_single(name, 0);
    assert(name.len() == 1 ==> name[0] != 0x2e) by {
        if name.len() == 1 && name[0] == 0x2e {
            assert(name =~= seq![0x2eu8]);
        }
    }
    assert(name.take(0) =~= Seq::empty());
    let p = seq![0x2fu8] + name;
    assert forall|i: int| 1 <= i < p.len() implies p[i] != 0x2f by {
        assert(p[i] == name[i - 1]);
    }
    lemma_single(p, 1);
    assert(p[1] == name[0]);
    assert(p.take(1) =~= seq![0x2fu8]);
}

proof fn lemma_single(p: Seq<u8>, start: int)
    requires
        0 <= start < p.len(),
        forall|i: int| start <= i < p.len() ==> p[i] != 0x2f,
    ensures
        piece(p, start, p.len() as int) == start,
        cut(p, start, p.len() as int) == start,
{
    lemma_no_slash(p, start, p.len() as int);
}

proof fn lemma_no_slash(p: Seq<u8>, start: int, end: int)
    requires
        0 <= start <= end <= p.len(),
        forall|i: int| start <= i < p.len() ==> p[i] != 0x2f,
    ensures
        piece(p, start, end) == start,
    decreases end - start,
{
    if start < end {
        lemma_no_slash(p, start, end - 1);
    }
}

} // verus!
