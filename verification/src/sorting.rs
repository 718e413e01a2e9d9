//! Verified sorting: option-index sets are compared sorted, and leaderboards
//! are kept ordered by score descending.

use vstd::prelude::*;
use vstd::relations::sorted_by;
use vstd::relations::total_ordering;
use vstd::seq_lib::lemma_sorted_unique;

use crate::quiz_abi::LeaderboardEntry;
use crate::quiz_state::entries_unique;
use crate::quiz_state::sorted_desc;

verus! {

/// The order option indices are sorted in.
pub open spec fn u32_leq() -> spec_fn(u32, u32) -> bool {
    |a: u32, b: u32| a <= b
}

/// A sequence of option indices, sorted ascending.
pub open spec fn sorted_u32(s: Seq<u32>) -> Seq<u32> {
    s.sort_by(u32_leq())
}

/// Sort option indices ascending.
#[verifier::rlimit(30)]
pub fn sort_u32(v: &Vec<u32>) -> (r: Vec<u32>)
    ensures
        r@ == sorted_u32(v@),
{
    broadcast use vstd::seq_lib::group_to_multiset_ensures;

    let n = v.len();
    let mut out: Vec<u32> = Vec::new();
    let mut i: usize = 0;
    proof {
        assert(v@.subrange(0, 0) =~= Seq::<u32>::empty());
    }
    while i < n
        invariant
            0 <= i <= n,
            n == v@.len(),
            forall|i2: int, j2: int| 0 <= i2 < j2 < out@.len() ==> #[trigger] out@[i2] <= #[trigger] out@[j2],
            out@.to_multiset() == v@.subrange(0, i as int).to_multiset(),
        decreases n - i,
    {
        let x = v[i];
        let mut p: usize = 0;
        let m = out.len();
        while p < m && out[p] <= x
            invariant
                0 <= p <= m,
                m == out@.len(),
                forall|j: int| 0 <= j < p ==> #[trigger] out@[j] <= x,
            decreases m - p,
        {
            p += 1;
        }
        let ghost before = out@;
        out.insert(p, x);
        proof {
            before.insert_ensures(p as int, x);
            assert forall|i2: int, j2: int|
                0 <= i2 < j2 < out@.len() implies #[trigger] out@[i2] <= #[trigger] out@[j2] by {
                if j2 < p {
                    assert(out@[i2] == before[i2] && out@[j2] == before[j2]);
                } else if i2 < p && j2 == p {
                    assert(out@[i2] == before[i2] && out@[j2] == x);
                } else if i2 < p && j2 > p {
                    assert(out@[i2] == before[i2] && out@[j2] == before[j2 - 1]);
                } else if i2 == p {
                    assert(out@[i2] == x && out@[j2] == before[j2 - 1]);
                    assert(p < m && x < before[p as int]);
                } else {
                    assert(out@[i2] == before[i2 - 1] && out@[j2] == before[j2 - 1]);
                }
            }
            lemma_to_multiset_insert(before, p as int, x);
            assert(v@.subrange(0, i + 1) =~= v@.subrange(0, i as int).push(x));
            v@.subrange(0, i as int).to_multiset_ensures();
            assert(v@.subrange(0, i as int).push(x).to_multiset() =~= v@.subrange(
                0,
                i as int,
            ).to_multiset().insert(x));
        }
        i += 1;
    }
    proof {
        assert(v@.subrange(0, n as int) =~= v@);
        assert(total_ordering(u32_leq()));
        assert(sorted_by(out@, u32_leq())) by {
            assert forall|i2: int, j2: int|
                0 <= i2 < j2 < out@.len() implies #[trigger] u32_leq()(out@[i2], out@[j2]) by {
                assert(out@[i2] <= out@[j2]);
            }
        }
        v@.lemma_sort_by_ensures(u32_leq());
        lemma_sorted_unique(out@, v@.sort_by(u32_leq()), u32_leq());
        assert(out@ =~= v@.sort_by(u32_leq()));
    }
    out
}

/// Inserting an element anywhere adds exactly it to the multiset.
pub proof fn lemma_to_multiset_insert<A>(s: Seq<A>, p: int, x: A)
    requires
        0 <= p <= s.len(),
    ensures
        s.insert(p, x).to_multiset() == s.to_multiset().insert(x),
{
    broadcast use vstd::seq_lib::group_to_multiset_ensures;
    broadcast use vstd::multiset::group_multiset_axioms;

    let t = s.insert(p, x);
    s.insert_ensures(p, x);
    assert(t.remove(p) =~= s);
    assert(t.remove(p).to_multiset() =~= t.to_multiset().remove(t[p]));
    assert(t.to_multiset().contains(x)) by {
        assert(t[p] == x);
    }
    assert forall|y: A| #[trigger] s.to_multiset().insert(x).count(y) == t.to_multiset().count(
        y,
    ) by {
        if y == x {
            assert(s.to_multiset().count(x) == t.to_multiset().remove(x).count(x));
        }
    }
    assert(s.to_multiset().insert(x) =~= t.to_multiset());
}

/// Sort leaderboard entries by score, highest first: the same entries, in
/// order. Entries with equal scores may appear in any order among themselves.
#[verifier::rlimit(30)]
pub fn sort_leaderboard(v: Vec<LeaderboardEntry>) -> (r: Vec<LeaderboardEntry>)
    ensures
        r@.to_multiset() == v@.to_multiset(),
        r@.len() == v@.len(),
        sorted_desc(r@),
        entries_unique(v@) ==> entries_unique(r@),
{
    broadcast use vstd::seq_lib::group_to_multiset_ensures;

    let n = v.len();
    let rest = v;
    let mut out: Vec<LeaderboardEntry> = Vec::new();
    let mut i: usize = 0;
    proof {
        assert(rest@.subrange(0, 0) =~= Seq::<LeaderboardEntry>::empty());
    }
    while i < n
        invariant
            0 <= i <= n,
            n == rest@.len(),
            sorted_desc(out@),
            out@.to_multiset() == rest@.subrange(0, i as int).to_multiset(),
        decreases n - i,
    {
        let x = rest[i].clone();
        proof {
            assert(rest@[i as int] == x);
        }
        let mut p: usize = 0;
        let m = out.len();
        while p < m && out[p].score >= x.score
            invariant
                0 <= p <= m,
                m == out@.len(),
                forall|j: int| 0 <= j < p ==> (#[trigger] out@[j]).score >= x.score,
            decreases m - p,
        {
            p += 1;
        }
        let ghost before = out@;
        out.insert(p, x);
        proof {
            before.insert_ensures(p as int, x);
            assert forall|i2: int, j2: int| 0 <= i2 < j2 < out@.len() implies (
            #[trigger] out@[i2]).score >= (#[trigger] out@[j2]).score by {
                if j2 < p {
                    assert(out@[i2] == before[i2] && out@[j2] == before[j2]);
                } else if i2 < p && j2 == p {
                    assert(out@[i2] == before[i2] && out@[j2] == x);
                } else if i2 < p && j2 > p {
                    assert(out@[i2] == before[i2] && out@[j2] == before[j2 - 1]);
                } else if i2 == p {
                    assert(out@[i2] == x && out@[j2] == before[j2 - 1]);
                    assert(p < m && x.score > before[p as int].score);
                } else {
                    assert(out@[i2] == before[i2 - 1] && out@[j2] == before[j2 - 1]);
                }
            }
            lemma_to_multiset_insert(before, p as int, x);
            assert(rest@.subrange(0, i + 1) =~= rest@.subrange(0, i as int).push(x));
            rest@.subrange(0, i as int).to_multiset_ensures();
            assert(rest@.subrange(0, i as int).push(x).to_multiset() =~= rest@.subrange(
                0,
                i as int,
            ).to_multiset().insert(x));
        }
        i += 1;
    }
    proof {
        assert(rest@.subrange(0, n as int) =~= rest@);
        assert(out@.len() == out@.to_multiset().len());
        assert(rest@.len() == rest@.to_multiset().len());
        if entries_unique(rest@) {
            lemma_unique_entries_multiset(out@, rest@);
        }
    }
    out
}

/// Two stores of the same entries: if no identity appears twice in one, none
/// does in the other.
pub proof fn lemma_unique_entries_multiset(a: Seq<LeaderboardEntry>, b: Seq<LeaderboardEntry>)
    requires
        a.to_multiset() == b.to_multiset(),
        entries_unique(b),
    ensures
        entries_unique(a),
{
    broadcast use vstd::seq_lib::group_to_multiset_ensures;
    broadcast use vstd::multiset::group_multiset_axioms;

    assert forall|i: int, j: int| 0 <= i < j < a.len() implies (#[trigger] a[i]).user@ != (
    #[trigger] a[j]).user@ by {
        if a[i] == a[j] {
            let a2 = a.remove(i);
            assert(a2.to_multiset() =~= a.to_multiset().remove(a[i]));
            assert(a2[j - 1] == a[j]);
            assert(a2.to_multiset().contains(a[j])) by {
                assert(a2.to_multiset().count(a2[j - 1]) > 0);
            }
            assert(a.to_multiset().count(a[i]) >= 2);
            lemma_multiset_count_le(a[i], b);
        } else {
            assert(a.to_multiset().contains(a[i])) by {
                assert(a.to_multiset().count(a[i]) > 0);
            }
            assert(a.to_multiset().contains(a[j])) by {
                assert(a.to_multiset().count(a[j]) > 0);
            }
            assert(b.contains(a[i]));
            assert(b.contains(a[j]));
            let bi = choose|bi: int| 0 <= bi < b.len() && b[bi] == a[i];
            let bj = choose|bj: int| 0 <= bj < b.len() && b[bj] == a[j];
            assert(bi != bj);
            if bi < bj {
                assert(b[bi].user@ != b[bj].user@);
            } else {
                assert(b[bj].user@ != b[bi].user@);
            }
        }
    }
}

/// In a store with unique identities, no entry occurs twice.
proof fn lemma_multiset_count_le(x: LeaderboardEntry, b: Seq<LeaderboardEntry>)
    requires
        entries_unique(b),
    ensures
        b.to_multiset().count(x) <= 1,
    decreases b.len(),
{
    broadcast use vstd::seq_lib::group_to_multiset_ensures;
    broadcast use vstd::multiset::group_multiset_axioms;

    if b.len() > 0 {
        let rest = b.drop_last();
        assert(b =~= rest.push(b.last()));
        lemma_multiset_count_le(x, rest);
        if b.last() == x && rest.to_multiset().count(x) > 0 {
            assert(rest.to_multiset().contains(x));
            assert(rest.contains(x));
            let i = choose|i: int| 0 <= i < rest.len() && rest[i] == x;
            assert(b[i] == x);
            assert(b[i].user@ != b[b.len() - 1].user@);
        }
    }
}

} // verus!
