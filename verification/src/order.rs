//! Stable ordering: indices sorted by a strict total order given as a
//! comparison table, and lexicographic order on character sequences.
use vstd::prelude::*;

verus! {

/// `less[i][j]` is a strict total order on `0..n`.
pub open spec fn is_strict_total(less: Seq<Seq<bool>>, n: nat) -> bool {
    &&& less.len() == n
    &&& forall|i: int| 0 <= i < n ==> #[trigger] less[i].len() == n
    &&& forall|i: int, j: int|
        0 <= i < n && 0 <= j < n && i != j ==> less[i][j] || less[j][i]
    &&& forall|i: int, j: int| 0 <= i < n && 0 <= j < n && less[i][j] ==> !less[j][i]
    &&& forall|i: int, j: int, k: int|
        0 <= i < n && 0 <= j < n && 0 <= k < n && #[trigger] less[i][j] && #[trigger] less[j][k]
            ==> less[i][k]
}

/// `order` lists each of `0..n` once, in strictly increasing `less` order.
pub open spec fn is_sorted_perm(less: Seq<Seq<bool>>, n: nat, order: Seq<int>) -> bool {
    &&& order.len() == n
    &&& forall|a: int| 0 <= a < n ==> 0 <= #[trigger] order[a] < n
    &&& forall|a: int, b: int| 0 <= a < b < n ==> less[order[a]][order[b]]
}

/// Indices `0..n` in `less` order (insertion sort).
pub fn sorted_indices(less: &Vec<Vec<bool>>, n: usize) -> (order: Vec<usize>)
    requires
        is_strict_total(less@.map_values(|r: Vec<bool>| r@), n as nat),
    ensures
        is_sorted_perm(
            less@.map_values(|r: Vec<bool>| r@),
            n as nat,
            order@.map_values(|x: usize| x as int),
        ),
{
    let ghost lt = less@.map_values(|r: Vec<bool>| r@);
    let mut order: Vec<usize> = Vec::new();
    let mut k: usize = 0;
    while k < n
        invariant
            k <= n,
            lt == less@.map_values(|r: Vec<bool>| r@),
            is_strict_total(lt, n as nat),
            order@.len() == k,
            forall|a: int| 0 <= a < k ==> #[trigger] order@[a] < k,
            forall|a: int, b: int| 0 <= a < b < k ==> lt[order@[a] as int][order@[b] as int],
        decreases n - k,
    {
        assert(lt[k as int] == less@[k as int]@);
        assert(lt[k as int].len() == n);
        let mut p: usize = 0;
        while p < order.len() && !less[k][order[p]]
            invariant
                p <= order@.len() == k < n,
                lt == less@.map_values(|r: Vec<bool>| r@),
                less@.len() == n,
                less@[k as int]@.len() == n,
                is_strict_total(lt, n as nat),
                forall|a: int| 0 <= a < k ==> #[trigger] order@[a] < k,
                forall|q: int| 0 <= q < p ==> !lt[k as int][#[trigger] order@[q] as int],
            decreases k - p,
        {
            assert(lt[k as int] == less@[k as int]@);
            p = p + 1;
        }
        assert(lt[k as int] == less@[k as int]@);
        let ghost old_order = order@;
        order.insert(p, k);
        proof {
            assert(order@ == old_order.insert(p as int, k));
            assert forall|a: int| 0 <= a < k + 1 implies #[trigger] order@[a] < k + 1 by {
                if a < p {
                    assert(order@[a] == old_order[a]);
                } else if a > p {
                    assert(order@[a] == old_order[a - 1]);
                }
            }
            assert forall|a: int, b: int| 0 <= a < b < k + 1 implies lt[order@[a] as int][order@[b] as int] by {
                let x = order@[a] as int;
                let y = order@[b] as int;
                if b < p {
                    assert(x == old_order[a] && y == old_order[b]);
                } else if b == p {
                    assert(x == old_order[a] && y == k);
                    assert(!lt[k as int][old_order[a] as int]);
                    assert(old_order[a] < k);
                } else if a < p {
                    assert(x == old_order[a] && y == old_order[b - 1]);
                    assert(!lt[k as int][old_order[a] as int]);
                    assert(lt[k as int][old_order[p as int] as int]);
                    assert(old_order[a] < k);
                    assert(lt[old_order[a] as int][k as int]);
                    if b - 1 > p {
                        assert(lt[old_order[p as int] as int][old_order[b - 1] as int]);
                        assert(lt[k as int][old_order[b - 1] as int]);
                    }
                } else if a == p {
                    assert(x == k && y == old_order[b - 1]);
                    assert(lt[k as int][old_order[p as int] as int]);
                    if b - 1 > p {
                        assert(lt[old_order[p as int] as int][old_order[b - 1] as int]);
                    }
                } else {
                    assert(x == old_order[a - 1] && y == old_order[b - 1]);
                }
            }
        }
        k = k + 1;
    }
    order
}

/// `order` lists each of `0..n` at most once.
pub open spec fn is_injective_index(order: Seq<int>, n: nat) -> bool {
    &&& order.len() == n
    &&& forall|a: int| 0 <= a < n ==> 0 <= #[trigger] order[a] < n
    &&& forall|a: int, b: int| 0 <= a < n && 0 <= b < n && a != b ==> order[a] != order[b]
}

pub proof fn lemma_sorted_perm_injective(less: Seq<Seq<bool>>, n: nat, order: Seq<int>)
    requires
        is_strict_total(less, n),
        is_sorted_perm(less, n, order),
    ensures
        is_injective_index(order, n),
{
    assert forall|a: int, b: int| 0 <= a < n && 0 <= b < n && a != b implies order[a] != order[b] by {
        if a < b {
            assert(less[order[a]][order[b]]);
        } else {
            assert(less[order[b]][order[a]]);
        }
    }
}

/// Some position of `order` holds `j`.
pub open spec fn has_index(order: Seq<int>, n: nat, j: int) -> bool {
    exists|a: int| 0 <= a < n && order[a] == j
}

/// A sorted permutation lists every index of `0..n`.
pub proof fn lemma_sorted_perm_onto(less: Seq<Seq<bool>>, n: nat, order: Seq<int>)
    requires
        is_strict_total(less, n),
        is_sorted_perm(less, n, order),
    ensures
        forall|j: int| 0 <= j < n ==> #[trigger] has_index(order, n, j),
{
    broadcast use vstd::set::group_set_axioms, vstd::seq_lib::seq_to_set_is_finite;

    lemma_sorted_perm_injective(less, n, order);
    assert(order.no_duplicates());
    order.unique_seq_to_set();
    let range = vstd::set_lib::set_int_range(0, n as int);
    vstd::set_lib::lemma_int_range(0, n as int);
    assert forall|x: int| order.to_set().contains(x) implies range.contains(x) by {
        assert(order.contains(x));
    }
    vstd::set_lib::lemma_subset_equality(order.to_set(), range);
    assert forall|j: int| 0 <= j < n implies #[trigger] has_index(order, n, j) by {
        assert(range.contains(j));
        assert(order.to_set().contains(j));
        assert(order.contains(j));
    }
}

/// `items` rearranged so that position `a` holds `items[order[a]]`.
pub fn permute<T>(items: Vec<T>, order: &Vec<usize>) -> (r: Vec<T>)
    requires
        is_injective_index(order@.map_values(|x: usize| x as int), items@.len()),
    ensures
        r@ == Seq::new(items@.len(), |a: int| items@[order@[a] as int]),
{
    let ghost orig = items@;
    let n = items.len();
    let ghost ord = order@.map_values(|x: usize| x as int);
    // Move the items into slots (last item first) so each can be taken once.
    let mut rest = items;
    let mut slots: Vec<Option<T>> = Vec::new();
    while rest.len() > 0
        invariant
            rest@.len() + slots@.len() == n == orig.len(),
            rest@ == orig.take(rest@.len() as int),
            forall|k: int| 0 <= k < slots@.len() ==> #[trigger] slots@[k] == Some(orig[n - 1 - k]),
        decreases rest@.len(),
    {
        let ghost before = rest@;
        let g = rest.pop().unwrap();
        assert(rest@ == orig.take(rest@.len() as int)) by {
            assert(before.drop_last() == rest@);
        }
        slots.push(Some(g));
    }
    let mut out: Vec<T> = Vec::new();
    let mut a: usize = 0;
    while a < n
        invariant
            a <= n == orig.len() == order@.len() == slots@.len(),
            ord == order@.map_values(|x: usize| x as int),
            is_injective_index(ord, n as nat),
            forall|b: int| a <= b < n ==> #[trigger] slots@[n - 1 - ord[b]] == Some(orig[ord[b]]),
            out@ == Seq::new(a as nat, |b: int| orig[ord[b]]),
        decreases n - a,
    {
        assert(ord[a as int] == order@[a as int] as int);
        assert(slots@[n - 1 - ord[a as int]] == Some(orig[ord[a as int]]));
        let slot = n - 1 - order[a];
        let g = slots[slot].take().unwrap();
        out.push(g);
        proof {
            assert forall|b: int| a + 1 <= b < n implies #[trigger] slots@[n - 1 - ord[b]] == Some(orig[ord[b]]) by {
                assert(ord[b] != ord[a as int]);
            }
            assert(out@ == Seq::new((a + 1) as nat, |b: int| orig[ord[b]]));
        }
        a = a + 1;
    }
    out
}

proof fn lemma_sorted_perm_agree(less: Seq<Seq<bool>>, n: nat, o1: Seq<int>, o2: Seq<int>, a: int)
    requires
        is_strict_total(less, n),
        is_sorted_perm(less, n, o1),
        is_sorted_perm(less, n, o2),
        is_injective_index(o1, n),
        is_injective_index(o2, n),
        forall|j: int| 0 <= j < n ==> #[trigger] has_index(o1, n, j),
        forall|j: int| 0 <= j < n ==> #[trigger] has_index(o2, n, j),
        0 <= a < n,
    ensures
        forall|b: int| 0 <= b <= a ==> o1[b] == o2[b],
    decreases a,
{
    if a > 0 {
        lemma_sorted_perm_agree(less, n, o1, o2, a - 1);
    }
    let x = o1[a];
    let y = o2[a];
    if x != y {
        assert(has_index(o1, n, y));
        let p = choose|p: int| 0 <= p < n && o1[p] == y;
        if p < a {
            assert(o2[p] == o1[p]);
        }
        assert(less[x][y]);
        assert(has_index(o2, n, x));
        let q = choose|q: int| 0 <= q < n && o2[q] == x;
        if q < a {
            assert(o1[q] == o2[q]);
        }
        assert(less[y][x]);
    }
}

/// Two sorted permutations of one strict total order are the same: the
/// order decides every place.
pub proof fn lemma_sorted_perm_unique(less: Seq<Seq<bool>>, n: nat, o1: Seq<int>, o2: Seq<int>)
    requires
        is_strict_total(less, n),
        is_sorted_perm(less, n, o1),
        is_sorted_perm(less, n, o2),
    ensures
        o1 == o2,
{
    lemma_sorted_perm_injective(less, n, o1);
    lemma_sorted_perm_injective(less, n, o2);
    lemma_sorted_perm_onto(less, n, o1);
    lemma_sorted_perm_onto(less, n, o2);
    if n > 0 {
        lemma_sorted_perm_agree(less, n, o1, o2, n - 1);
    }
    assert(o1 =~= o2);
}

/// Strict lexicographic order on characters, by code point. UTF-8 encoding
/// preserves code point order, so this is also `String`'s byte-wise order.
pub open spec fn lex_lt(a: Seq<char>, b: Seq<char>) -> bool
    decreases a.len(),
{
    if a.len() == 0 {
        b.len() > 0
    } else if b.len() == 0 {
        false
    } else if a[0] != b[0] {
        a[0] < b[0]
    } else {
        lex_lt(a.subrange(1, a.len() as int), b.subrange(1, b.len() as int))
    }
}

pub proof fn lemma_lex_asym(a: Seq<char>, b: Seq<char>)
    ensures
        lex_lt(a, b) ==> !lex_lt(b, a),
        !lex_lt(a, a),
    decreases a.len(),
{
    if a.len() > 0 && b.len() > 0 && a[0] == b[0] {
        lemma_lex_asym(a.subrange(1, a.len() as int), b.subrange(1, b.len() as int));
    }
    if a.len() > 0 {
        lemma_lex_asym(a.subrange(1, a.len() as int), a.subrange(1, a.len() as int));
    }
}

pub proof fn lemma_lex_total(a: Seq<char>, b: Seq<char>)
    ensures
        a != b ==> lex_lt(a, b) || lex_lt(b, a),
    decreases a.len(),
{
    if a.len() > 0 && b.len() > 0 && a[0] == b[0] {
        let a1 = a.subrange(1, a.len() as int);
        let b1 = b.subrange(1, b.len() as int);
        lemma_lex_total(a1, b1);
        if a1 == b1 {
            assert(a == seq![a[0]] + a1);
            assert(b == seq![b[0]] + b1);
        }
    }
    if a.len() == 0 && b.len() == 0 {
        assert(a == b);
    }
}

pub proof fn lemma_lex_trans(a: Seq<char>, b: Seq<char>, c: Seq<char>)
    requires
        lex_lt(a, b),
        lex_lt(b, c),
    ensures
        lex_lt(a, c),
    decreases a.len(),
{
    if a.len() > 0 && b.len() > 0 && c.len() > 0 && a[0] == b[0] && b[0] == c[0] {
        lemma_lex_trans(
            a.subrange(1, a.len() as int),
            b.subrange(1, b.len() as int),
            c.subrange(1, c.len() as int),
        );
    }
}

/// Whether `a` sorts strictly before `b`.
pub fn lex_less(a: &Vec<char>, b: &Vec<char>) -> (r: bool)
    ensures
        r == lex_lt(a@, b@),
{
    let mut i: usize = 0;
    assert(a@.subrange(0, a@.len() as int) == a@);
    assert(b@.subrange(0, b@.len() as int) == b@);
    while i < a.len() && i < b.len() && a[i] == b[i]
        invariant
            i <= a@.len(),
            i <= b@.len(),
            lex_lt(a@, b@) == lex_lt(a@.subrange(i as int, a@.len() as int), b@.subrange(i as int, b@.len() as int)),
        decreases a@.len() - i,
    {
        proof {
            let x = a@.subrange(i as int, a@.len() as int);
            let y = b@.subrange(i as int, b@.len() as int);
            assert(x.subrange(1, x.len() as int) == a@.subrange(i + 1, a@.len() as int));
            assert(y.subrange(1, y.len() as int) == b@.subrange(i + 1, b@.len() as int));
        }
        i = i + 1;
    }
    let ghost x = a@.subrange(i as int, a@.len() as int);
    let ghost y = b@.subrange(i as int, b@.len() as int);
    if i == a.len() {
        i < b.len()
    } else if i == b.len() {
        false
    } else {
        assert(x[0] == a@[i as int] && y[0] == b@[i as int]);
        a[i] < b[i]
    }
}

} // verus!
