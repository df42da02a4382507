//! Ranking: the order of things by keys, the greatest key first, and things
//! with equal keys in the order in which they were given.
use vstd::prelude::*;

verus! {

/// Thing `a` ranks before thing `b`.
pub open spec fn outranks(keys: Seq<i64>, a: int, b: int) -> bool {
    keys[a] > keys[b] || (keys[a] == keys[b] && a < b)
}

/// `r` holds the position of every key once, in the order of rank.
pub open spec fn is_ranking(keys: Seq<i64>, r: Seq<usize>) -> bool {
    &&& r.len() == keys.len()
    &&& forall|p: int| 0 <= p < r.len() ==> (#[trigger] r[p]) < keys.len()
    &&& forall|p: int, q: int|
        0 <= p < q < r.len() ==> outranks(keys, #[trigger] r[p] as int, #[trigger] r[q] as int)
    &&& forall|i: int| 0 <= i < keys.len() ==> #[trigger] r.contains(i as usize)
}

/// The positions of the keys in the order of rank.
pub fn descending(keys: &Vec<i64>) -> (r: Vec<usize>)
    ensures
        is_ranking(keys@, r@),
{
    let mut out: Vec<usize> = Vec::new();
    let mut k: usize = 0;
    while k < keys.len()
        invariant
            k <= keys@.len(),
            is_ranking(keys@.take(k as int), out@),
        decreases keys.len() - k,
    {
        let ghost ks = keys@.take(k as int);
        let ghost ks2 = keys@.take(k + 1);
        let mut p: usize = 0;
        while p < out.len() && keys[out[p]] >= keys[k]
            invariant
                p <= out@.len(),
                k < keys@.len(),
                ks == keys@.take(k as int),
                is_ranking(ks, out@),
                forall|i: int|
                    0 <= i < p ==> keys@[(#[trigger] out@[i]) as int] >= keys@[k as int],
            decreases out.len() - p,
        {
            p = p + 1;
        }
        let ghost before = out@;
        out.insert(p, k);
        proof {
            assert forall|a: int, b: int| 0 <= a < b < out@.len() implies outranks(
                ks2,
                #[trigger] out@[a] as int,
                #[trigger] out@[b] as int,
            ) by {
                let x = if a < p { before[a] } else if a == p { k } else { before[a - 1] };
                let y = if b < p { before[b] } else if b == p { k } else { before[b - 1] };
                assert(out@[a] == x && out@[b] == y);
                if a == p {
                    assert(before[p as int] < ks.len());
                    if b - 1 > p {
                        assert(outranks(ks, before[p as int] as int, before[b - 1] as int));
                    }
                    assert(keys@[before[p as int] as int] < keys@[k as int]);
                    assert(ks[before[p as int] as int] == keys@[before[p as int] as int]);
                    assert(ks[before[b - 1] as int] == keys@[before[b - 1] as int]);
                } else if b == p {
                    assert(before[a] < ks.len());
                } else {
                    let a2 = if a < p { a } else { a - 1 };
                    let b2 = if b < p { b } else { b - 1 };
                    assert(outranks(ks, before[a2] as int, before[b2] as int));
                }
            }
            assert forall|i: int| 0 <= i < ks2.len() implies #[trigger] out@.contains(
                i as usize,
            ) by {
                if i == k {
                    assert(out@[p as int] == k);
                } else {
                    assert(before.contains(i as usize));
                    let q = choose|q: int| 0 <= q < before.len() && before[q] == i as usize;
                    if q < p {
                        assert(out@[q] == before[q]);
                    } else {
                        assert(out@[q + 1] == before[q]);
                    }
                }
            }
            assert forall|q: int| 0 <= q < out@.len() implies (#[trigger] out@[q]) < ks2.len() by {
                let x = if q < p { before[q] } else if q == p { k } else { before[q - 1] };
                assert(out@[q] == x);
            }
        }
        k = k + 1;
    }
    assert(keys@.take(keys@.len() as int) =~= keys@);
    out
}

/// There is only one order of rank.
pub proof fn ranking_is_unique(keys: Seq<i64>, r1: Seq<usize>, r2: Seq<usize>, n: int)
    requires
        is_ranking(keys, r1),
        is_ranking(keys, r2),
        0 <= n <= keys.len(),
    ensures
        forall|p: int| 0 <= p < n ==> r1[p] == r2[p],
    decreases n,
{
    if n > 0 {
        ranking_is_unique(keys, r1, r2, n - 1);
        let p = n - 1;
        if r1[p] != r2[p] {
            assert(r2.contains((r1[p] as int) as usize));
            assert(r1.contains((r2[p] as int) as usize));
            let a = choose|q: int| 0 <= q < r2.len() && r2[q] == r1[p];
            let b = choose|q: int| 0 <= q < r1.len() && r1[q] == r2[p];
            if a < p {
                assert(r1[a] == r2[a]);
                assert(outranks(keys, r1[a] as int, r1[p] as int));
            }
            if b < p {
                assert(r1[b] == r2[b]);
                assert(outranks(keys, r2[b] as int, r2[p] as int));
            }
            assert(outranks(keys, r2[p] as int, r2[a] as int));
            assert(outranks(keys, r1[p] as int, r1[b] as int));
        }
    }
}

/// `r` holds the first positions, in the order of rank, of the keys that are at
/// least `floor`, as many as there are up to `count`.
pub open spec fn is_best(keys: Seq<i64>, floor: int, count: nat, r: Seq<usize>) -> bool {
    &&& r.len() <= count
    &&& forall|p: int|
        0 <= p < r.len() ==> (#[trigger] r[p]) < keys.len() && keys[r[p] as int] >= floor
    &&& forall|p: int, q: int|
        0 <= p < q < r.len() ==> outranks(
            keys,
            #[trigger] r[p] as int,
            #[trigger] r[q] as int,
        )
    &&& forall|i: int|
        #![trigger keys[i]]
        0 <= i < keys.len() && keys[i] >= floor ==> r.contains(i as usize) || (r.len() == count && forall|
            p: int,
        |
            0 <= p < r.len() ==> outranks(keys, #[trigger] r[p] as int, i))
}

/// The best of a smaller number are the first of the best of a greater one.
pub proof fn fewer_best_come_first(
    keys: Seq<i64>,
    floor: int,
    j: nat,
    k: nat,
    r1: Seq<usize>,
    r2: Seq<usize>,
)
    requires
        j <= k,
        is_best(keys, floor, j, r1),
        is_best(keys, floor, k, r2),
    ensures
        r1 == r2.take(if j < r2.len() { j as int } else { r2.len() as int }),
{
    let n = if r1.len() < r2.len() {
        r1.len() as int
    } else {
        r2.len() as int
    };
    lemma_best_agree(keys, floor, j, k, r1, r2, n);
    if r1.len() < r2.len() && r1.len() < j {
        let z = r2[n];
        assert(keys[z as int] >= floor);
        assert(r1.contains((z as int) as usize));
        let a = choose|a: int| 0 <= a < r1.len() && r1[a] == z;
        assert(r1[a] == r2[a]);
        assert(outranks(keys, r2[a] as int, r2[n] as int));
    }
    if r1.len() > r2.len() {
        let z = r1[n];
        assert(keys[z as int] >= floor);
        assert(r2.contains((z as int) as usize));
        let a = choose|a: int| 0 <= a < r2.len() && r2[a] == z;
        assert(r1[a] == r2[a]);
        assert(outranks(keys, r1[a] as int, r1[n] as int));
    }
    assert(r1 =~= r2.take(if j < r2.len() { j as int } else { r2.len() as int }));
}

/// The best of two numbers agree as far as both go.
proof fn lemma_best_agree(
    keys: Seq<i64>,
    floor: int,
    j: nat,
    k: nat,
    r1: Seq<usize>,
    r2: Seq<usize>,
    n: int,
)
    requires
        is_best(keys, floor, j, r1),
        is_best(keys, floor, k, r2),
        0 <= n <= r1.len(),
        n <= r2.len(),
    ensures
        forall|p: int| 0 <= p < n ==> r1[p] == r2[p],
    decreases n,
{
    if n > 0 {
        let p = n - 1;
        lemma_best_agree(keys, floor, j, k, r1, r2, p);
        let x = r1[p];
        let y = r2[p];
        if x != y {
            assert(keys[x as int] >= floor && keys[y as int] >= floor);
            assert(outranks(keys, y as int, x as int)) by {
                if r2.contains((x as int) as usize) {
                    let a = choose|a: int| 0 <= a < r2.len() && r2[a] == x;
                    if a < p {
                        assert(r1[a] == r2[a]);
                        assert(outranks(keys, r1[a] as int, r1[p] as int));
                    } else {
                        assert(outranks(keys, r2[p] as int, r2[a] as int));
                    }
                }
            }
            assert(outranks(keys, x as int, y as int)) by {
                if r1.contains((y as int) as usize) {
                    let a = choose|a: int| 0 <= a < r1.len() && r1[a] == y;
                    if a < p {
                        assert(r1[a] == r2[a]);
                        assert(outranks(keys, r2[a] as int, r2[p] as int));
                    } else {
                        assert(outranks(keys, r1[p] as int, r1[a] as int));
                    }
                }
            }
        }
    }
}

/// The best of as many keys as there are hold every key that is at least `floor`,
/// and no other.
pub proof fn all_the_best(keys: Seq<i64>, floor: int, count: nat, r: Seq<usize>)
    requires
        keys.len() <= count,
        keys.len() <= usize::MAX,
        is_best(keys, floor, count, r),
    ensures
        forall|i: int|
            0 <= i < keys.len() ==> (#[trigger] r.contains(i as usize) <==> keys[i] >= floor),
{
    assert forall|i: int| 0 <= i < keys.len() implies (#[trigger] r.contains(i as usize)
        <==> keys[i] >= floor) by {
        if r.contains(i as usize) {
            let p = choose|p: int| 0 <= p < r.len() && r[p] == i as usize;
            assert(keys[r[p] as int] >= floor);
        }
        if keys[i] >= floor && !r.contains(i as usize) {
            let at = r.map_values(|x: usize| x as int);
            let others = vstd::set_lib::set_int_range(0, keys.len() as int).remove(i);
            assert(at.no_duplicates()) by {
                assert forall|p: int, q: int| 0 <= p < q < at.len() implies at[p] != at[q] by {
                    assert(outranks(keys, r[p] as int, r[q] as int));
                }
            }
            at.unique_seq_to_set();
            assert(at.to_set().subset_of(others)) by {
                assert forall|x: int| at.to_set().contains(x) implies others.contains(x) by {
                    let p = choose|p: int| 0 <= p < at.len() && at[p] == x;
                    assert(r[p] < keys.len());
                    assert(r.contains(r[p]));
                }
            }
            vstd::set_lib::lemma_int_range(0, keys.len() as int);
            vstd::set_lib::lemma_len_subset(at.to_set(), others);
        }
    }
}

/// The first positions, in the order of rank, of the keys that are at least
/// `floor`.
pub fn best(keys: &Vec<i64>, floor: i64, count: usize) -> (r: Vec<usize>)
    ensures
        is_best(keys@, floor as int, count as nat, r@),
{
    let order = descending(keys);
    let mut out: Vec<usize> = Vec::new();
    let mut k: usize = 0;
    while k < order.len() && k < count && keys[order[k]] >= floor
        invariant
            k <= order@.len(),
            k <= count,
            is_ranking(keys@, order@),
            out@ == order@.take(k as int),
            forall|p: int| 0 <= p < k ==> keys@[(#[trigger] order@[p]) as int] >= floor,
        decreases order.len() - k,
    {
        out.push(order[k]);
        assert(out@ =~= order@.take(k + 1));
        k = k + 1;
    }
    proof {
        assert forall|i: int|
            #![trigger keys@[i]]
            0 <= i < keys@.len() && keys@[i] >= floor implies out@.contains(i as usize) || (out@.len()
            == count && forall|p: int|
            0 <= p < out@.len() ==> outranks(keys@, #[trigger] out@[p] as int, i)) by {
            assert(order@.contains(i as usize));
            let q = choose|q: int| 0 <= q < order@.len() && order@[q] == i as usize;
            if q < k {
                assert(out@[q] == i as usize);
            } else {
                if k < order@.len() && k < count {
                    if q > k {
                        assert(outranks(keys@, order@[k as int] as int, order@[q] as int));
                    }
                    assert(false);
                }
                assert forall|p: int| 0 <= p < out@.len() implies outranks(
                    keys@,
                    #[trigger] out@[p] as int,
                    i,
                ) by {
                    assert(out@[p] == order@[p]);
                    assert(outranks(keys@, order@[p] as int, order@[q] as int));
                }
            }
        }
    }
    out
}

/// A key that orders numbers as their values do, from the IEEE 754 bit pattern
/// of a double: the magnitude, negative where the sign bit is set.
pub open spec fn float_order(bits: u64) -> int {
    if bits >= 0x8000_0000_0000_0000 {
        -(bits - 0x8000_0000_0000_0000)
    } else {
        bits as int
    }
}

/// A key that orders numbers as their values do, from the IEEE 754 bit pattern
/// of a double.
pub fn float_key(bits: u64) -> (r: i64)
    ensures
        r == float_order(bits),
{
    if bits >= 0x8000_0000_0000_0000 {
        -((bits - 0x8000_0000_0000_0000) as i64)
    } else {
        bits as i64
    }
}

} // verus!
