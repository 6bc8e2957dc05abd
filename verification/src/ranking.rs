//! Ranking by score: pairs of a score and a position are ordered by score,
//! highest first, and equal scores keep the order of their positions, so
//! that a ranking is the stable descending sort of what it ranks.
use vstd::prelude::*;
use vstd::seq_lib::lemma_multiset_commutative;

verus! {

broadcast use vstd::seq_lib::group_to_multiset_ensures;

/// `a` ranks strictly before `b`: a higher score, or the same score at an
/// earlier position.
pub open spec fn ranks_before(a: (i128, usize), b: (i128, usize)) -> bool {
    a.0 > b.0 || (a.0 == b.0 && a.1 < b.1)
}

/// No pair of `s` ranks strictly before a pair ahead of it.
pub open spec fn ranked(s: Seq<(i128, usize)>) -> bool {
    forall|i: int, j: int| 0 <= i < j < s.len() ==> !ranks_before(#[trigger] s[j], #[trigger] s[i])
}

/// Merges two rankings into one.
fn merge(a: &Vec<(i128, usize)>, b: &Vec<(i128, usize)>) -> (r: Vec<(i128, usize)>)
    requires
        ranked(a@),
        ranked(b@),
    ensures
        ranked(r@),
        r@.to_multiset() == a@.to_multiset().add(b@.to_multiset()),
{
    let mut r: Vec<(i128, usize)> = Vec::new();
    let mut i: usize = 0;
    let mut j: usize = 0;
    assert(a@.subrange(0, 0) =~= Seq::<(i128, usize)>::empty());
    assert(b@.subrange(0, 0) =~= Seq::<(i128, usize)>::empty());
    while i < a.len() || j < b.len()
        invariant
            i <= a@.len(),
            j <= b@.len(),
            ranked(a@),
            ranked(b@),
            ranked(r@),
            r@.to_multiset() == a@.subrange(0, i as int).to_multiset().add(
                b@.subrange(0, j as int).to_multiset(),
            ),
            r@.len() > 0 ==> (i < a@.len() ==> !ranks_before(a@[i as int], r@.last())) && (j
                < b@.len() ==> !ranks_before(b@[j as int], r@.last())),
        decreases a@.len() + b@.len() - i - j,
    {
        let take_a = if j >= b.len() {
            true
        } else if i >= a.len() {
            false
        } else {
            let (x, y) = (a[i], b[j]);
            !(y.0 > x.0 || (y.0 == x.0 && y.1 < x.1))
        };
        let ghost old_r = r@;
        if take_a {
            let x = a[i];
            r.push(x);
            proof {
                assert(a@.subrange(0, i + 1) =~= a@.subrange(0, i as int).push(x));
                assert forall|p: int, q: int| 0 <= p < q < r@.len() implies !ranks_before(
                    #[trigger] r@[q],
                    #[trigger] r@[p],
                ) by {
                    if q == r@.len() - 1 && p < q {
                        if p < old_r.len() - 1 {
                            assert(!ranks_before(old_r[old_r.len() - 1], old_r[p]));
                        }
                    }
                }
                if i + 1 < a@.len() {
                    assert(!ranks_before(a@[i + 1], a@[i as int]));
                }
            }
            i = i + 1;
        } else {
            let y = b[j];
            r.push(y);
            proof {
                assert(b@.subrange(0, j + 1) =~= b@.subrange(0, j as int).push(y));
                assert forall|p: int, q: int| 0 <= p < q < r@.len() implies !ranks_before(
                    #[trigger] r@[q],
                    #[trigger] r@[p],
                ) by {
                    if q == r@.len() - 1 && p < q {
                        if p < old_r.len() - 1 {
                            assert(!ranks_before(old_r[old_r.len() - 1], old_r[p]));
                        }
                    }
                }
                if j + 1 < b@.len() {
                    assert(!ranks_before(b@[j + 1], b@[j as int]));
                }
            }
            j = j + 1;
        }
    }
    assert(a@.subrange(0, a@.len() as int) =~= a@);
    assert(b@.subrange(0, b@.len() as int) =~= b@);
    r
}

/// Ranks `v`: the same pairs, ordered so that none ranks strictly before
/// a pair ahead of it.
pub fn rank(v: Vec<(i128, usize)>) -> (r: Vec<(i128, usize)>)
    ensures
        ranked(r@),
        r@.to_multiset() == v@.to_multiset(),
    decreases v@.len(),
{
    let n = v.len();
    if n <= 1 {
        return v;
    }
    let mid = n / 2;
    let mut left: Vec<(i128, usize)> = Vec::new();
    let mut right: Vec<(i128, usize)> = Vec::new();
    let mut k: usize = 0;
    while k < n
        invariant
            n == v@.len(),
            mid < n,
            k <= n,
            k <= mid ==> left@ == v@.subrange(0, k as int) && right@.len() == 0,
            k > mid ==> left@ == v@.subrange(0, mid as int) && right@ == v@.subrange(
                mid as int,
                k as int,
            ),
        decreases n - k,
    {
        if k < mid {
            left.push(v[k]);
            assert(left@ =~= v@.subrange(0, k + 1));
        } else {
            right.push(v[k]);
            assert(right@ =~= v@.subrange(mid as int, k + 1));
        }
        k = k + 1;
    }
    assert(v@ =~= left@ + right@);
    proof {
        lemma_multiset_commutative(left@, right@);
    }
    let l = rank(left);
    let r = rank(right);
    merge(&l, &r)
}

/// Two rankings of the same pairs are the same sequence: a ranking is the
/// one descending order by score in which equal scores keep their
/// positions' order.
pub proof fn lemma_ranking_unique(p: Seq<(i128, usize)>, q: Seq<(i128, usize)>)
    requires
        ranked(p),
        ranked(q),
        p.to_multiset() == q.to_multiset(),
    ensures
        p == q,
    decreases p.len(),
{
    assert(p.len() == p.to_multiset().len());
    assert(q.len() == q.to_multiset().len());
    assert(p.len() == q.len());
    if p.len() == 0 {
        assert(p =~= q);
    } else {
        assert(p.contains(p[0]));
        assert(q.to_multiset().count(p[0]) > 0);
        assert(q.contains(p[0]));
        let j = choose|j: int| 0 <= j < q.len() && q[j] == p[0];
        assert(q.contains(q[0]));
        assert(p.to_multiset().count(q[0]) > 0);
        assert(p.contains(q[0]));
        let i = choose|i: int| 0 <= i < p.len() && p[i] == q[0];
        if j > 0 {
            assert(!ranks_before(q[j], q[0]));
        }
        if i > 0 {
            assert(!ranks_before(p[i], p[0]));
        }
        assert(p[0] == q[0]);
        let p1 = p.drop_first();
        let q1 = q.drop_first();
        assert(p.remove(0) =~= p1);
        assert(q.remove(0) =~= q1);
        assert(p1.to_multiset() == q1.to_multiset());
        assert(ranked(p1)) by {
            assert forall|a: int, b: int| 0 <= a < b < p1.len() implies !ranks_before(
                #[trigger] p1[b],
                #[trigger] p1[a],
            ) by {
                assert(p1[a] == p[a + 1] && p1[b] == p[b + 1]);
            }
        }
        assert(ranked(q1)) by {
            assert forall|a: int, b: int| 0 <= a < b < q1.len() implies !ranks_before(
                #[trigger] q1[b],
                #[trigger] q1[a],
            ) by {
                assert(q1[a] == q[a + 1] && q1[b] == q[b + 1]);
            }
        }
        lemma_ranking_unique(p1, q1);
        assert(p =~= q) by {
            assert forall|k: int| 0 <= k < p.len() implies p[k] == q[k] by {
                if k > 0 {
                    assert(p[k] == p1[k - 1] && q[k] == q1[k - 1]);
                }
            }
        }
    }
}

} // verus!
