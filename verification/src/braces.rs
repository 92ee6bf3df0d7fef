//! Brace counting over byte sequences, and the point at which a stream of
//! bytes first holds a complete message.

use vstd::prelude::*;

verus! {

/// The byte `{`.
pub const OPEN_BRACE: u8 = 0x7b;

/// The byte `}`.
pub const CLOSE_BRACE: u8 = 0x7d;

/// How often the byte `b` occurs in `s`.
pub open spec fn occurrences(s: Seq<u8>, b: u8) -> nat
    decreases s.len(),
{
    if s.len() == 0 {
        0
    } else {
        occurrences(s.drop_last(), b) + if s.last() == b { 1nat } else { 0nat }
    }
}

/// Number of `{` bytes in `s`.
pub open spec fn opens(s: Seq<u8>) -> nat {
    occurrences(s, OPEN_BRACE)
}

/// Number of `}` bytes in `s`.
pub open spec fn closes(s: Seq<u8>) -> nat {
    occurrences(s, CLOSE_BRACE)
}

/// Brace balance: as many `{` as `}`, and at least one of each.
/// The count is by bytes; braces inside quoted text count like any other.
pub open spec fn balanced(s: Seq<u8>) -> bool {
    opens(s) == closes(s) && opens(s) > 0
}

/// `n` is the length of the shortest balanced prefix of `s`.
pub open spec fn is_frame_end(s: Seq<u8>, n: int) -> bool {
    &&& 1 <= n <= s.len()
    &&& balanced(s.take(n))
    &&& forall|m: int| 1 <= m < n ==> !balanced(#[trigger] s.take(m))
}

/// Length of the shortest balanced prefix of `s`, or 0 where no prefix of
/// `s` is balanced. A message, where there is one, is `s.take(frame_end(s))`:
/// it runs from the first byte of the stream through the byte that brings
/// the braces into balance, that byte included.
pub open spec fn frame_end(s: Seq<u8>) -> nat
    decreases s.len(),
{
    if s.len() == 0 {
        0
    } else if frame_end(s.drop_last()) > 0 {
        frame_end(s.drop_last())
    } else if balanced(s) {
        s.len()
    } else {
        0
    }
}

/// Appending one byte raises the count of that byte by one and no other.
pub proof fn lemma_occurrences_push(s: Seq<u8>, x: u8, b: u8)
    ensures
        occurrences(s.push(x), b) == occurrences(s, b) + if x == b { 1nat } else { 0nat },
{
    assert(s.push(x).drop_last() =~= s);
}

/// A byte cannot occur more often than there are bytes, and the two braces
/// together cannot either.
pub proof fn lemma_occurrences_bound(s: Seq<u8>)
    ensures
        opens(s) + closes(s) <= s.len(),
    decreases s.len(),
{
    if s.len() > 0 {
        lemma_occurrences_bound(s.drop_last());
    }
}

/// `frame_end` is what its name says: where it is positive it is the length
/// of the shortest balanced prefix, and where it is 0 no prefix is balanced.
pub proof fn lemma_frame_end_is_least(s: Seq<u8>)
    ensures
        frame_end(s) <= s.len(),
        frame_end(s) > 0 ==> is_frame_end(s, frame_end(s) as int),
        frame_end(s) == 0 ==> forall|m: int| 1 <= m <= s.len() ==> !balanced(#[trigger] s.take(m)),
    decreases s.len(),
{
    if s.len() > 0 {
        let p = s.drop_last();
        lemma_frame_end_is_least(p);
        assert(s.take(s.len() as int) =~= s);
        assert forall|m: int| 1 <= m <= p.len() implies #[trigger] s.take(m) == p.take(m) by {
            assert(s.take(m) =~= p.take(m));
        }
        if frame_end(p) > 0 {
            let n = frame_end(p) as int;
            assert(s.take(n) == p.take(n));
            assert forall|m: int| 1 <= m < n implies !balanced(#[trigger] s.take(m)) by {
                assert(s.take(m) == p.take(m));
            }
        } else {
            assert forall|m: int| 1 <= m < s.len() implies !balanced(#[trigger] s.take(m)) by {
                assert(s.take(m) == p.take(m));
            }
        }
    }
}

/// The shortest balanced prefix is unique, and `frame_end` finds it.
pub proof fn lemma_frame_end_unique(s: Seq<u8>, n: int)
    requires
        is_frame_end(s, n),
    ensures
        frame_end(s) == n,
{
    lemma_frame_end_is_least(s);
    let e = frame_end(s) as int;
    if e == 0 {
        assert(!balanced(s.take(n)));
    } else if e < n {
        assert(!balanced(s.take(e)));
    } else if n < e {
        assert(!balanced(s.take(n)));
    }
}

/// Cutting a stream short keeps its frame end where the cut leaves it in,
/// and loses it otherwise. Bytes that follow never move a frame end.
pub proof fn lemma_frame_end_of_prefix(s: Seq<u8>, k: int)
    requires
        0 <= k <= s.len(),
    ensures
        frame_end(s.take(k)) == if 0 < frame_end(s) <= k { frame_end(s) } else { 0 },
{
    let p = s.take(k);
    lemma_frame_end_is_least(s);
    lemma_frame_end_is_least(p);
    assert forall|m: int| 0 <= m <= k implies #[trigger] p.take(m) == s.take(m) by {
        assert(p.take(m) =~= s.take(m));
    }
    let e = frame_end(s) as int;
    let f = frame_end(p) as int;
    if 0 < e <= k {
        assert(p.take(e) == s.take(e));
        assert forall|m: int| 1 <= m < e implies !balanced(#[trigger] p.take(m)) by {
            assert(p.take(m) == s.take(m));
        }
        lemma_frame_end_unique(p, e);
    } else if f > 0 {
        assert(p.take(f) == s.take(f));
        assert forall|m: int| 1 <= m < f implies !balanced(#[trigger] s.take(m)) by {
            assert(p.take(m) == s.take(m));
        }
        lemma_frame_end_unique(s, f);
    }
}

} // verus!
