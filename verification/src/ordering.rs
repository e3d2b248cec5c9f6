//! Sorting items of (display order, plugin id, index) lexicographically. With
//! distinct ids this is the order that a stable sort by display order gives to
//! a list in id order; with all orders equal and the list positions as
//! indices it is a stable sort by id.

use vstd::prelude::*;

use crate::text::{chars_equal, chars_less, lemma_seq_lt_asymmetric, lemma_seq_lt_irreflexive, lemma_seq_lt_total,
    lemma_seq_lt_transitive, seq_lt};

verus! {

/// A sort item: display order, plugin id and a payload index.
pub open spec fn item_view(x: (i32, String, usize)) -> (i32, Seq<char>, usize) {
    (x.0, x.1@, x.2)
}

pub open spec fn items_view(s: Seq<(i32, String, usize)>) -> Seq<(i32, Seq<char>, usize)> {
    s.map_values(|x: (i32, String, usize)| item_view(x))
}

/// `a` sorts before `b`: smaller order; or equal order and smaller id; or
/// equal order and id and smaller index.
pub open spec fn order_id_lt(a: (i32, Seq<char>, usize), b: (i32, Seq<char>, usize)) -> bool {
    a.0 < b.0 || (a.0 == b.0 && seq_lt(a.1, b.1)) || (a.0 == b.0 && a.1 == b.1 && a.2 < b.2)
}

pub proof fn lemma_order_id_lt_distinct(a: (i32, Seq<char>, usize), b: (i32, Seq<char>, usize))
    requires
        order_id_lt(a, b),
    ensures
        a != b,
{
    lemma_seq_lt_irreflexive(a.1);
}

/// Strictly ascending by (order, id).
pub open spec fn sorted_by_order_id(s: Seq<(i32, Seq<char>, usize)>) -> bool {
    forall|i: int, j: int| 0 <= i < j < s.len() ==> order_id_lt(#[trigger] s[i], #[trigger] s[j])
}

/// No two items share an id.
pub open spec fn distinct_ids(s: Seq<(i32, Seq<char>, usize)>) -> bool {
    forall|i: int, j: int| 0 <= i < j < s.len() ==> (#[trigger] s[i]).1 != (#[trigger] s[j]).1
}

/// No two items are equal.
pub open spec fn distinct_items(s: Seq<(i32, Seq<char>, usize)>) -> bool {
    forall|i: int, j: int| 0 <= i < j < s.len() ==> #[trigger] s[i] != #[trigger] s[j]
}

proof fn lemma_order_id_transitive(
    a: (i32, Seq<char>, usize),
    b: (i32, Seq<char>, usize),
    c: (i32, Seq<char>, usize),
)
    requires
        order_id_lt(a, b),
        order_id_lt(b, c),
    ensures
        order_id_lt(a, c),
{
    if a.0 == b.0 && b.0 == c.0 {
        if seq_lt(a.1, b.1) && seq_lt(b.1, c.1) {
            lemma_seq_lt_transitive(a.1, b.1, c.1);
        }
    }
}

fn order_id_less(a: &(i32, String, usize), b: &(i32, String, usize)) -> (r: bool)
    ensures
        r == order_id_lt(item_view(*a), item_view(*b)),
{
    if a.0 != b.0 {
        a.0 < b.0
    } else if chars_less(a.1.as_str(), b.1.as_str()) {
        true
    } else {
        chars_equal(a.1.as_str(), b.1.as_str()) && a.2 < b.2
    }
}

/// The items sorted by (order, id, index).
pub fn sort_by_order_id(items: Vec<(i32, String, usize)>) -> (sorted: Vec<(i32, String, usize)>)
    requires
        distinct_items(items_view(items@)),
    ensures
        sorted_by_order_id(items_view(sorted@)),
        items_view(sorted@).to_set() == items_view(items@).to_set(),
        sorted@.len() == items@.len(),
{
    let ghost src = items_view(items@);
    let mut out: Vec<(i32, String, usize)> = Vec::new();
    let mut rest = items;
    let mut taken: usize = 0;
    let n = rest.len();
    while taken < n
        invariant
            n == src.len(),
            n == rest@.len(),
            taken <= n,
            distinct_items(src),
            src == items_view(rest@),
            sorted_by_order_id(items_view(out@)),
            items_view(out@).to_set() == src.take(taken as int).to_set(),
            out@.len() == taken,
        decreases n - taken,
    {
        let x = (rest[taken].0, rest[taken].1.clone(), rest[taken].2);
        let ghost xv = src[taken as int];
        assert(item_view(x) == xv);
        let ghost ov = items_view(out@);
        let mut p: usize = 0;
        while p < out.len() && order_id_less(&out[p], &x)
            invariant
                ov == items_view(out@),
                p <= out@.len(),
                item_view(x) == xv,
                forall|q: int| 0 <= q < p ==> order_id_lt(#[trigger] ov[q], xv),
            decreases out@.len() - p,
        {
            p = p + 1;
        }
        proof {
            // the inserted item differs from all items placed so far
            assert forall|q: int| 0 <= q < ov.len() implies #[trigger] ov[q] != xv by {
                assert(src.take(taken as int).to_set().contains(ov[q]));
                let w = choose|w: int| 0 <= w < taken && src.take(taken as int)[w] == ov[q];
                assert(src[w] == ov[q]);
            }
            if p < ov.len() {
                lemma_seq_lt_total(xv.1, ov[p as int].1);
                if xv.1 == ov[p as int].1 && xv.0 == ov[p as int].0 {
                    assert(ov[p as int] != xv);
                }
            }
        }
        out.insert(p, x);
        let ghost nv = items_view(out@);
        assert(nv =~= ov.insert(p as int, xv));
        proof {
            assert forall|i: int, j: int| 0 <= i < j < nv.len() implies order_id_lt(
                #[trigger] nv[i],
                #[trigger] nv[j],
            ) by {
                if j < p {
                } else if i < p && j == p {
                } else if i < p && j > p {
                    assert(nv[j] == ov[j - 1]);
                    if p < ov.len() {
                        lemma_order_id_transitive(nv[i], xv, ov[p as int]);
                        if j - 1 > p {
                            lemma_order_id_transitive(nv[i], ov[p as int], ov[j - 1]);
                        }
                    }
                } else if i == p {
                    assert(nv[j] == ov[j - 1]);
                    if j - 1 > p {
                        lemma_order_id_transitive(xv, ov[p as int], ov[j - 1]);
                    }
                } else {
                    assert(nv[i] == ov[i - 1]);
                    assert(nv[j] == ov[j - 1]);
                }
            }
            assert(nv.to_set() =~= ov.to_set().insert(xv)) by {
                assert forall|e| nv.to_set().contains(e) <==> ov.to_set().insert(xv).contains(e) by {
                    if nv.to_set().contains(e) {
                        let w = choose|w: int| 0 <= w < nv.len() && nv[w] == e;
                        if w < p {
                            assert(ov[w] == e);
                        } else if w > p {
                            assert(ov[w - 1] == e);
                        }
                    }
                    if ov.to_set().contains(e) {
                        let w = choose|w: int| 0 <= w < ov.len() && ov[w] == e;
                        if w < p {
                            assert(nv[w] == e);
                        } else {
                            assert(nv[w + 1] == e);
                        }
                    }
                    if e == xv {
                        assert(nv[p as int] == e);
                    }
                }
            }
            let t0 = src.take(taken as int);
            let t1 = src.take(taken + 1);
            assert(t1.to_set() =~= t0.to_set().insert(xv)) by {
                assert forall|e| t1.to_set().contains(e) <==> t0.to_set().insert(xv).contains(e) by {
                    if t1.to_set().contains(e) {
                        let w = choose|w: int| 0 <= w < t1.len() && t1[w] == e;
                        if w < taken {
                            assert(t0[w] == e);
                        }
                    }
                    if t0.to_set().contains(e) {
                        let w = choose|w: int| 0 <= w < t0.len() && t0[w] == e;
                        assert(t1[w] == e);
                    }
                    if e == xv {
                        assert(t1[taken as int] == e);
                    }
                }
            }
        }
        taken = taken + 1;
    }
    assert(src.take(n as int) =~= src);
    out
}

} // verus!
