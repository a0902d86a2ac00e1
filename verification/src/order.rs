//! Stable ordering of selected rows by a rank: a byte-string key (ascending
//! or descending) followed by two integer tie-breakers.
use vstd::prelude::*;
use crate::text::{bytes_lt, bytes_less, bytes_equal};

verus! {

/// What a row is ordered by.
pub struct Rank {
    pub text: Seq<u8>,
    pub desc: bool,
    pub first: int,
    pub second: int,
}

/// `a` goes strictly before `b`.
pub open spec fn rank_lt(a: Rank, b: Rank) -> bool {
    if a.text != b.text {
        if a.desc {
            bytes_lt(b.text, a.text)
        } else {
            bytes_lt(a.text, b.text)
        }
    } else if a.first != b.first {
        a.first < b.first
    } else {
        a.second < b.second
    }
}

/// Neither goes before the other.
pub open spec fn rank_tied(a: Rank, b: Rank) -> bool {
    !rank_lt(a, b) && !rank_lt(b, a)
}

/// The executable key a rank is computed from.
pub struct OrderKey {
    pub text: Vec<u8>,
    pub desc: bool,
    pub first: i64,
    pub second: i64,
}

impl OrderKey {
    pub open spec fn rank(&self) -> Rank {
        Rank { text: self.text@, desc: self.desc, first: self.first as int, second: self.second as int }
    }
}

pub open spec fn ranks_of(keys: Seq<OrderKey>) -> Seq<Rank> {
    keys.map_values(|k: OrderKey| k.rank())
}

pub proof fn lemma_bytes_lt_irreflexive(a: Seq<u8>)
    ensures
        !bytes_lt(a, a),
    decreases a.len(),
{
    if a.len() > 0 {
        lemma_bytes_lt_irreflexive(a.drop_first());
    }
}

pub proof fn lemma_bytes_lt_asymmetric(a: Seq<u8>, b: Seq<u8>)
    ensures
        bytes_lt(a, b) ==> !bytes_lt(b, a),
    decreases a.len(),
{
    if a.len() > 0 && b.len() > 0 && a[0] == b[0] {
        lemma_bytes_lt_asymmetric(a.drop_first(), b.drop_first());
    }
}

pub proof fn lemma_bytes_lt_transitive(a: Seq<u8>, b: Seq<u8>, c: Seq<u8>)
    ensures
        bytes_lt(a, b) && bytes_lt(b, c) ==> bytes_lt(a, c),
    decreases a.len(),
{
    if a.len() > 0 && b.len() > 0 && c.len() > 0 && a[0] == b[0] && b[0] == c[0] {
        lemma_bytes_lt_transitive(a.drop_first(), b.drop_first(), c.drop_first());
    }
}

pub proof fn lemma_bytes_lt_total(a: Seq<u8>, b: Seq<u8>)
    ensures
        a != b ==> bytes_lt(a, b) || bytes_lt(b, a),
    decreases a.len(),
{
    if a.len() > 0 && b.len() > 0 && a[0] == b[0] {
        lemma_bytes_lt_total(a.drop_first(), b.drop_first());
        if a.drop_first() == b.drop_first() {
            assert(a =~= seq![a[0]] + a.drop_first());
            assert(b =~= seq![b[0]] + b.drop_first());
        }
    }
    if a.len() == 0 && b.len() == 0 {
        assert(a =~= b);
    }
}

pub proof fn lemma_rank_irreflexive(a: Rank)
    ensures
        !rank_lt(a, a),
{
}

pub proof fn lemma_rank_asymmetric(a: Rank, b: Rank)
    requires
        a.desc == b.desc,
    ensures
        rank_lt(a, b) ==> !rank_lt(b, a),
{
    lemma_bytes_lt_asymmetric(a.text, b.text);
    lemma_bytes_lt_asymmetric(b.text, a.text);
}

/// "Not after" is transitive for ranks of one direction.
pub proof fn lemma_rank_not_after_transitive(a: Rank, b: Rank, c: Rank)
    requires
        a.desc == b.desc,
        b.desc == c.desc,
        !rank_lt(b, a),
        !rank_lt(c, b),
    ensures
        !rank_lt(c, a),
{
    lemma_bytes_lt_total(a.text, b.text);
    lemma_bytes_lt_total(b.text, c.text);
    lemma_bytes_lt_total(a.text, c.text);
    lemma_bytes_lt_transitive(a.text, b.text, c.text);
    lemma_bytes_lt_transitive(c.text, b.text, a.text);
    lemma_bytes_lt_asymmetric(a.text, c.text);
    lemma_bytes_lt_asymmetric(c.text, a.text);
    lemma_bytes_lt_asymmetric(a.text, b.text);
    lemma_bytes_lt_asymmetric(b.text, c.text);
}

/// `q` lists, without repeats, exactly the positions `i` with `chosen[i]`,
/// ordered by rank, and positions of tied rank keep their order in the input.
pub open spec fn sorted_selection(ranks: Seq<Rank>, chosen: Seq<bool>, q: Seq<int>) -> bool {
    &&& forall|i: int| 0 <= i < q.len() ==> 0 <= #[trigger] q[i] < ranks.len() && chosen[q[i]]
    &&& forall|i: int, j: int| 0 <= i < j < q.len() ==> q[i] != q[j]
    &&& forall|k: int| 0 <= k < ranks.len() && #[trigger] chosen[k] ==> q.contains(k)
    &&& forall|i: int, j: int|
        0 <= i < j < q.len() ==> !rank_lt(#[trigger] ranks[q[j]], #[trigger] ranks[q[i]])
    &&& forall|i: int, j: int|
        0 <= i < j < q.len() && rank_tied(ranks[q[i]], ranks[q[j]]) ==> #[trigger] q[i]
            < #[trigger] q[j]
}

pub open spec fn one_direction(ranks: Seq<Rank>) -> bool {
    forall|i: int, j: int| 0 <= i < ranks.len() && 0 <= j < ranks.len() ==> #[trigger] ranks[i].desc == #[trigger] ranks[j].desc
}

pub fn rank_less(a: &OrderKey, b: &OrderKey) -> (r: bool)
    ensures
        r == rank_lt(a.rank(), b.rank()),
{
    let same_text = bytes_equal(a.text.as_slice(), b.text.as_slice());
    if !same_text {
        if a.desc {
            bytes_less(b.text.as_slice(), a.text.as_slice())
        } else {
            bytes_less(a.text.as_slice(), b.text.as_slice())
        }
    } else if a.first != b.first {
        a.first < b.first
    } else {
        a.second < b.second
    }
}

pub open spec fn usize_seq_view(v: Seq<usize>) -> Seq<int> {
    v.map_values(|x: usize| x as int)
}

/// Stable insertion sort of the chosen positions by their keys' ranks.
pub fn sort_selected(keys: &Vec<OrderKey>, chosen: &Vec<bool>) -> (q: Vec<usize>)
    requires
        keys@.len() == chosen@.len(),
        one_direction(ranks_of(keys@)),
    ensures
        sorted_selection(ranks_of(keys@), chosen@, usize_seq_view(q@)),
{
    let ghost ranks = ranks_of(keys@);
    let mut q: Vec<usize> = Vec::new();
    let mut k: usize = 0;
    while k < keys.len()
        invariant
            keys@.len() == chosen@.len(),
            ranks == ranks_of(keys@),
            one_direction(ranks),
            k <= keys@.len(),
            forall|i: int| 0 <= i < q@.len() ==> 0 <= #[trigger] q@[i] < k && chosen@[q@[i] as int],
            forall|i: int, j: int| 0 <= i < j < q@.len() ==> q@[i] != q@[j],
            forall|m: int| 0 <= m < k && #[trigger] chosen@[m] ==> usize_seq_view(q@).contains(m),
            forall|i: int, j: int|
                0 <= i < j < q@.len() ==> !rank_lt(
                    #[trigger] ranks[q@[j] as int],
                    #[trigger] ranks[q@[i] as int],
                ),
            forall|i: int, j: int|
                0 <= i < j < q@.len() && rank_tied(ranks[q@[i] as int], ranks[q@[j] as int])
                    ==> #[trigger] q@[i] < #[trigger] q@[j],
        decreases keys@.len() - k,
    {
        if chosen[k] {
            let mut j: usize = q.len();
            while j > 0 && rank_less(&keys[k], &keys[q[j - 1]])
                invariant
                    keys@.len() == chosen@.len(),
                    ranks == ranks_of(keys@),
                    k < keys@.len(),
                    j <= q@.len(),
                    forall|i: int| 0 <= i < q@.len() ==> 0 <= #[trigger] q@[i] < k,
                    forall|x: int| j <= x < q@.len() ==> rank_lt(ranks[k as int], #[trigger] ranks[q@[x] as int]),
                decreases j,
            {
                j = j - 1;
            }
            let ghost old_q = q@;
            proof {
                assert(ranks[k as int] == keys@[k as int].rank());
                if j > 0 {
                    assert(!rank_lt(ranks[k as int], ranks[old_q[j - 1] as int]));
                    assert forall|i: int| 0 <= i < j implies !rank_lt(ranks[k as int], #[trigger] ranks[old_q[i] as int]) by {
                        if i < j - 1 {
                            lemma_rank_not_after_transitive(ranks[old_q[i] as int], ranks[old_q[j - 1] as int], ranks[k as int]);
                        }
                    }
                }
                assert forall|x: int| j <= x < old_q.len() implies !rank_lt(#[trigger] ranks[old_q[x] as int], ranks[k as int]) by {
                    lemma_rank_asymmetric(ranks[k as int], ranks[old_q[x] as int]);
                }
            }
            q.insert(j, k);
            proof {
                assert(q@ =~= old_q.take(j as int).push(k).add(old_q.skip(j as int)));
                assert forall|i: int| 0 <= i < q@.len() implies 0 <= #[trigger] q@[i] < k + 1 && chosen@[q@[i] as int] by {
                    if i < j {
                        assert(q@[i] == old_q[i]);
                    } else if i > j {
                        assert(q@[i] == old_q[i - 1]);
                    }
                }
                assert forall|i: int, jj: int| 0 <= i < jj < q@.len() implies q@[i] != q@[jj] by {
                    if i < j && jj > j {
                        assert(q@[jj] == old_q[jj - 1]);
                    } else if i > j {
                        assert(q@[i] == old_q[i - 1]);
                        assert(q@[jj] == old_q[jj - 1]);
                    }
                }
                assert forall|m: int| 0 <= m < k + 1 && #[trigger] chosen@[m] implies usize_seq_view(q@).contains(m) by {
                    if m == k {
                        assert(usize_seq_view(q@)[j as int] == m);
                    } else {
                        assert(usize_seq_view(old_q).contains(m));
                        let w = choose|w: int| 0 <= w < old_q.len() && usize_seq_view(old_q)[w] == m;
                        if w < j {
                            assert(usize_seq_view(q@)[w] == m);
                        } else {
                            assert(usize_seq_view(q@)[w + 1] == m);
                        }
                    }
                }
                assert forall|i: int, jj: int| 0 <= i < jj < q@.len() implies !rank_lt(
                    #[trigger] ranks[q@[jj] as int],
                    #[trigger] ranks[q@[i] as int],
                ) by {
                    if jj < j {
                    } else if jj == j {
                        assert(q@[i] == old_q[i]);
                    } else if i == j {
                        assert(q@[jj] == old_q[jj - 1]);
                    } else if i < j {
                        assert(q@[jj] == old_q[jj - 1]);
                    } else {
                        assert(q@[i] == old_q[i - 1]);
                        assert(q@[jj] == old_q[jj - 1]);
                    }
                }
                assert forall|i: int, jj: int|
                    0 <= i < jj < q@.len() && rank_tied(ranks[q@[i] as int], ranks[q@[jj] as int])
                    implies #[trigger] q@[i] < #[trigger] q@[jj] by {
                    if jj < j {
                    } else if jj == j {
                        assert(q@[i] == old_q[i]);
                    } else if i == j {
                        assert(q@[jj] == old_q[jj - 1]);
                        assert(rank_lt(ranks[k as int], ranks[old_q[jj - 1] as int]));
                    } else if i < j {
                        assert(q@[jj] == old_q[jj - 1]);
                    } else {
                        assert(q@[i] == old_q[i - 1]);
                        assert(q@[jj] == old_q[jj - 1]);
                    }
                }
            }
        }
        k = k + 1;
    }
    proof {
        let qv = usize_seq_view(q@);
        assert forall|i: int| 0 <= i < qv.len() implies 0 <= #[trigger] qv[i] < ranks.len() && chosen@[qv[i]] by {
            assert(qv[i] == q@[i] as int);
        }
        assert forall|i: int, j: int| 0 <= i < j < qv.len() implies qv[i] != qv[j] by {
            assert(qv[i] == q@[i] as int);
            assert(qv[j] == q@[j] as int);
        }
        assert forall|i: int, j: int| 0 <= i < j < qv.len() implies !rank_lt(#[trigger] ranks[qv[j]], #[trigger] ranks[qv[i]]) by {
            assert(qv[i] == q@[i] as int);
            assert(qv[j] == q@[j] as int);
        }
        assert forall|i: int, j: int|
            0 <= i < j < qv.len() && rank_tied(ranks[qv[i]], ranks[qv[j]]) implies #[trigger] qv[i] < #[trigger] qv[j] by {
            assert(qv[i] == q@[i] as int);
            assert(qv[j] == q@[j] as int);
        }
    }
    q
}

} // verus!
