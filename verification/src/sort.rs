//! Stable insertion sort with a proof that the result is the stable
//! ordering of its input under a caller-chosen "comes before" relation.

use vstd::prelude::*;

verus! {

/// `p` maps each position of `output` to the position in `input` that its
/// element came from, and no input position is used twice.
pub open spec fn is_arrangement<T>(input: Seq<T>, output: Seq<T>, p: Seq<int>) -> bool {
    &&& output.len() == input.len()
    &&& p.len() == input.len()
    &&& forall|k: int| 0 <= k < p.len() ==> 0 <= #[trigger] p[k] < input.len()
    &&& forall|k: int| 0 <= k < p.len() ==> output[k] == input[#[trigger] p[k]]
    &&& forall|k: int, l: int| 0 <= k < l < p.len() ==> #[trigger] p[k] != #[trigger] p[l]
}

/// No element of `s` comes strictly before an element placed earlier.
pub open spec fn is_sorted_by<T>(s: Seq<T>, lt: spec_fn(T, T) -> bool) -> bool {
    forall|k: int, l: int| 0 <= k < l < s.len() ==> !lt(#[trigger] s[l], #[trigger] s[k])
}

/// Elements that neither comes before the other keep their input order.
pub open spec fn keeps_ties_in_order<T>(output: Seq<T>, p: Seq<int>, lt: spec_fn(T, T) -> bool) -> bool {
    forall|k: int, l: int|
        0 <= k < l < output.len() && !lt(#[trigger] output[k], #[trigger] output[l]) ==> p[k] < p[l]
}

/// `output` is a rearrangement of `input`.
pub open spec fn is_permutation_of<T>(input: Seq<T>, output: Seq<T>) -> bool {
    exists|p: Seq<int>| is_arrangement(input, output, p)
}

/// `output` is the stable sort of `input` by `lt`: a rearrangement that is
/// sorted and keeps tied elements in their input order.
pub open spec fn is_stable_sort_of<T>(input: Seq<T>, output: Seq<T>, lt: spec_fn(T, T) -> bool) -> bool {
    exists|p: Seq<int>|
        is_arrangement(input, output, p) && is_sorted_by(output, lt) && keeps_ties_in_order(
            output,
            p,
            lt,
        )
}

/// `lt` behaves as a strict weak order on the values that satisfy `dom`.
pub open spec fn is_strict_weak_order_on<T>(dom: spec_fn(T) -> bool, lt: spec_fn(T, T) -> bool) -> bool {
    &&& forall|a: T| #[trigger] dom(a) ==> !lt(a, a)
    &&& forall|a: T, b: T, c: T|
        dom(a) && dom(b) && dom(c) && #[trigger] lt(a, b) && #[trigger] lt(b, c) ==> lt(a, c)
    &&& forall|a: T, b: T, c: T|
        dom(a) && dom(b) && dom(c) && #[trigger] lt(a, c) ==> lt(a, b) || #[trigger] lt(b, c)
}

/// The sorted-and-stable facts hold whenever the order is a strict weak
/// order on a domain that holds every input element.
pub open spec fn sort_applies<T>(input: Seq<T>, dom: spec_fn(T) -> bool, lt: spec_fn(T, T) -> bool) -> bool {
    is_strict_weak_order_on(dom, lt) && forall|i: int| 0 <= i < input.len() ==> dom(#[trigger] input[i])
}

/// Sorts `v` stably by the exec comparison `before`, which must decide `lt`.
pub fn stable_sort_by<T, F: Fn(&T, &T) -> bool>(
    v: Vec<T>,
    before: F,
    Ghost(lt): Ghost<spec_fn(T, T) -> bool>,
    Ghost(dom): Ghost<spec_fn(T) -> bool>,
) -> (out: Vec<T>)
    requires
        forall|a: &T, b: &T| #[trigger] before.requires((a, b)),
        forall|a: &T, b: &T, r: bool| #[trigger] before.ensures((a, b), r) ==> r == lt(*a, *b),
    ensures
        is_permutation_of(v@, out@),
        sort_applies(v@, dom, lt) ==> is_stable_sort_of(v@, out@, lt),
{
    let ghost input = v@;
    let n = v.len();
    let mut rest = v;
    let mut out: Vec<T> = Vec::new();
    let ghost mut p: Seq<int> = Seq::empty();
    let mut i: usize = 0;
    while i < n
        invariant
            n == input.len(),
            i <= n,
            rest@ == input.skip(i as int),
            forall|a: &T, b: &T| #[trigger] before.requires((a, b)),
            forall|a: &T, b: &T, r: bool| #[trigger] before.ensures((a, b), r) ==> r == lt(*a, *b),
            is_arrangement(input.take(i as int), out@, p),
            sort_applies(input, dom, lt) ==> is_sorted_by(out@, lt) && keeps_ties_in_order(
                out@,
                p,
                lt,
            ),
        decreases n - i,
    {
        assert(rest@.len() > 0);
        let x = rest.remove(0);
        assert(x == input[i as int]);
        let mut j: usize = 0;
        while j < out.len() && !before(&x, &out[j])
            invariant
                j <= out.len(),
                forall|a: &T, b: &T| #[trigger] before.requires((a, b)),
                forall|a: &T, b: &T, r: bool| #[trigger] before.ensures((a, b), r) ==> r == lt(*a, *b),
                forall|m: int| 0 <= m < j ==> !lt(x, #[trigger] out@[m]),
            decreases out.len() - j,
        {
            j = j + 1;
        }
        let ghost old_out = out@;
        let ghost old_p = p;
        proof {
            if j < old_out.len() {
                assert(lt(x, old_out[j as int]));
            }
        }
        out.insert(j, x);
        proof {
            p = old_p.insert(j as int, i as int);
            let inp = input.take(i as int + 1);
            assert(inp[i as int] == x);
            assert forall|k: int| 0 <= k < p.len() implies out@[k] == inp[#[trigger] p[k]] by {
                if k < j {
                    assert(out@[k] == old_out[k]);
                } else if k > j {
                    assert(out@[k] == old_out[k - 1]);
                }
            }
            assert forall|k: int, l: int| 0 <= k < l < p.len() implies #[trigger] p[k] != #[trigger] p[l] by {
                if k < j && l > j {
                    assert(p[l] == old_p[l - 1]);
                } else if k > j {
                    assert(p[l] == old_p[l - 1]);
                    assert(p[k] == old_p[k - 1]);
                }
            }
            assert(is_arrangement(inp, out@, p));
            if sort_applies(input, dom, lt) {
                assert(dom(x));
                assert forall|m: int| 0 <= m < old_out.len() implies dom(#[trigger] old_out[m]) by {
                    assert(old_out[m] == input.take(i as int)[old_p[m]]);
                }
                assert forall|k: int, l: int| 0 <= k < l < out@.len() implies !lt(
                    #[trigger] out@[l],
                    #[trigger] out@[k],
                ) by {
                    if l < j {
                    } else if l == j {
                    } else if k < j {
                        assert(!lt(old_out[l - 1], old_out[k]));
                    } else if k == j {
                        assert(out@[l] == old_out[l - 1]);
                        if lt(old_out[l - 1], x) {
                            if l - 1 == j {
                                assert(!lt(x, x));
                            } else {
                                assert(!lt(old_out[l - 1], old_out[j as int]));
                            }
                        }
                    } else {
                        assert(!lt(old_out[l - 1], old_out[k - 1]));
                    }
                }
                assert forall|k: int, l: int|
                    0 <= k < l < out@.len() && !lt(#[trigger] out@[k], #[trigger] out@[l]) implies p[k]
                    < p[l] by {
                    if l < j {
                    } else if l == j {
                        assert(old_p[k] < i);
                    } else if k < j {
                        assert(!lt(old_out[k], old_out[l - 1]));
                    } else if k == j {
                        assert(out@[l] == old_out[l - 1]);
                        if l - 1 != j {
                            assert(!lt(old_out[l - 1], old_out[j as int]));
                            assert(lt(x, old_out[j as int]));
                            assert(lt(x, old_out[l - 1]) || lt(old_out[l - 1], old_out[j as int]));
                        }
                    } else {
                        assert(!lt(old_out[k - 1], old_out[l - 1]));
                    }
                }
            }
        }
        i = i + 1;
    }
    proof {
        assert(input.take(n as int) =~= input);
    }
    out
}

} // verus!

verus! {

/// A stable sort stays a stable sort when each element is replaced by a
/// view that decides the order the same way.
pub proof fn lemma_stable_sort_map<T, V>(
    input: Seq<T>,
    output: Seq<T>,
    lt: spec_fn(T, T) -> bool,
    f: spec_fn(T) -> V,
    ltv: spec_fn(V, V) -> bool,
)
    requires
        is_stable_sort_of(input, output, lt),
        forall|a: T, b: T| #[trigger] lt(a, b) == ltv(f(a), f(b)),
    ensures
        is_stable_sort_of(input.map_values(f), output.map_values(f), ltv),
{
    let p = choose|p: Seq<int>|
        is_arrangement(input, output, p) && is_sorted_by(output, lt) && keeps_ties_in_order(
            output,
            p,
            lt,
        );
    let vi = input.map_values(f);
    let vo = output.map_values(f);
    assert forall|k: int| 0 <= k < p.len() implies vo[k] == vi[#[trigger] p[k]] by {
        assert(output[k] == input[p[k]]);
    }
    assert(is_arrangement(vi, vo, p));
    assert forall|k: int, l: int| 0 <= k < l < vo.len() implies !ltv(
        #[trigger] vo[l],
        #[trigger] vo[k],
    ) by {
        assert(!lt(output[l], output[k]));
    }
    assert forall|k: int, l: int|
        0 <= k < l < vo.len() && !ltv(#[trigger] vo[k], #[trigger] vo[l]) implies p[k] < p[l] by {
        assert(!lt(output[k], output[l]));
    }
}

/// Input position `i` goes before input position `j` in a stable sort:
/// its element comes strictly first, or the two tie and `i` is earlier.
pub open spec fn goes_before<T>(input: Seq<T>, lt: spec_fn(T, T) -> bool, i: int, j: int) -> bool {
    lt(input[i], input[j]) || (!lt(input[j], input[i]) && i < j)
}

/// An arrangement takes every input position somewhere.
proof fn lemma_arrangement_covers<T>(input: Seq<T>, output: Seq<T>, p: Seq<int>, i: int)
    requires
        is_arrangement(input, output, p),
        0 <= i < input.len(),
    ensures
        exists|k: int| 0 <= k < p.len() && p[k] == i,
{
    assert forall|k: int, l: int| 0 <= k < p.len() && 0 <= l < p.len() && k != l implies p[k]
        != p[l] by {
        if k < l {
            assert(p[k] != p[l]);
        } else {
            assert(p[l] != p[k]);
        }
    }
    assert(p.no_duplicates());
    p.unique_seq_to_set();
    let range = vstd::set_lib::set_int_range(0, input.len() as int);
    vstd::set_lib::lemma_int_range(0, input.len() as int);
    assert forall|x: int| p.to_set().contains(x) implies range.contains(x) by {
        let k = choose|k: int| 0 <= k < p.len() && p[k] == x;
        assert(0 <= p[k] < input.len());
    }
    assert(p.to_set().subset_of(range));
    vstd::set_lib::lemma_len_subset(p.to_set(), range);
    vstd::set_lib::lemma_subset_equality(p.to_set(), range);
    assert(range.contains(i));
    assert(p.to_set().contains(i));
}

/// The positions of a stable sort follow `goes_before`.
proof fn lemma_stable_positions_ordered<T>(
    input: Seq<T>,
    output: Seq<T>,
    p: Seq<int>,
    lt: spec_fn(T, T) -> bool,
    k: int,
    l: int,
)
    requires
        is_arrangement(input, output, p),
        is_sorted_by(output, lt),
        keeps_ties_in_order(output, p, lt),
        0 <= k < l < p.len(),
    ensures
        goes_before(input, lt, p[k], p[l]),
{
    assert(!lt(output[l], output[k]));
    assert(output[k] == input[p[k]] && output[l] == input[p[l]]);
    if !lt(output[k], output[l]) {
        assert(p[k] < p[l]);
    }
}

/// Two stable sorts that agree before position `k` agree at `k`.
proof fn lemma_stable_positions_agree<T>(
    input: Seq<T>,
    a: Seq<T>,
    b: Seq<T>,
    p: Seq<int>,
    q: Seq<int>,
    lt: spec_fn(T, T) -> bool,
    dom: spec_fn(T) -> bool,
    k: int,
)
    requires
        sort_applies(input, dom, lt),
        is_arrangement(input, a, p) && is_sorted_by(a, lt) && keeps_ties_in_order(a, p, lt),
        is_arrangement(input, b, q) && is_sorted_by(b, lt) && keeps_ties_in_order(b, q, lt),
        0 <= k < p.len(),
        forall|m: int| 0 <= m < k ==> p[m] == q[m],
    ensures
        p[k] == q[k],
{
    if p[k] != q[k] {
        lemma_arrangement_covers(input, b, q, p[k]);
        let m1 = choose|m: int| 0 <= m < q.len() && q[m] == p[k];
        lemma_arrangement_covers(input, a, p, q[k]);
        let m2 = choose|m: int| 0 <= m < p.len() && p[m] == q[k];
        if m1 < k {
            assert(p[m1] == p[k]);
        }
        if m2 < k {
            assert(q[m2] == q[k]);
        }
        assert(m1 > k && m2 > k);
        lemma_stable_positions_ordered(input, a, p, lt, k, m2);
        lemma_stable_positions_ordered(input, b, q, lt, k, m1);
        let x = input[p[k]];
        let y = input[q[k]];
        assert(dom(x) && dom(y));
        if lt(x, y) && lt(y, x) {
            assert(lt(x, x));
        }
    }
}

/// Two stable sorts agree on their first `k` positions.
proof fn lemma_stable_positions_agree_upto<T>(
    input: Seq<T>,
    a: Seq<T>,
    b: Seq<T>,
    p: Seq<int>,
    q: Seq<int>,
    lt: spec_fn(T, T) -> bool,
    dom: spec_fn(T) -> bool,
    k: int,
)
    requires
        sort_applies(input, dom, lt),
        is_arrangement(input, a, p) && is_sorted_by(a, lt) && keeps_ties_in_order(a, p, lt),
        is_arrangement(input, b, q) && is_sorted_by(b, lt) && keeps_ties_in_order(b, q, lt),
        0 <= k <= p.len(),
    ensures
        forall|m: int| 0 <= m < k ==> p[m] == q[m],
    decreases k,
{
    if k > 0 {
        lemma_stable_positions_agree_upto(input, a, b, p, q, lt, dom, k - 1);
        lemma_stable_positions_agree(input, a, b, p, q, lt, dom, k - 1);
    }
}

/// A stable sort has a single result: under a strict weak order, two
/// stable sorts of one input are the same sequence.
pub proof fn lemma_stable_sort_unique<T>(
    input: Seq<T>,
    a: Seq<T>,
    b: Seq<T>,
    lt: spec_fn(T, T) -> bool,
    dom: spec_fn(T) -> bool,
)
    requires
        sort_applies(input, dom, lt),
        is_stable_sort_of(input, a, lt),
        is_stable_sort_of(input, b, lt),
    ensures
        a == b,
{
    let p = choose|p: Seq<int>|
        is_arrangement(input, a, p) && is_sorted_by(a, lt) && keeps_ties_in_order(a, p, lt);
    let q = choose|q: Seq<int>|
        is_arrangement(input, b, q) && is_sorted_by(b, lt) && keeps_ties_in_order(b, q, lt);
    lemma_stable_positions_agree_upto(input, a, b, p, q, lt, dom, p.len() as int);
    assert forall|m: int| 0 <= m < a.len() implies a[m] == b[m] by {
        assert(a[m] == input[p[m]] && b[m] == input[q[m]]);
    }
    assert(a =~= b);
}

/// A permutation stays a permutation under any element view.
pub proof fn lemma_permutation_map<T, V>(input: Seq<T>, output: Seq<T>, f: spec_fn(T) -> V)
    requires
        is_permutation_of(input, output),
    ensures
        is_permutation_of(input.map_values(f), output.map_values(f)),
{
    let p = choose|p: Seq<int>| is_arrangement(input, output, p);
    let vi = input.map_values(f);
    let vo = output.map_values(f);
    assert forall|k: int| 0 <= k < p.len() implies vo[k] == vi[#[trigger] p[k]] by {
        assert(output[k] == input[p[k]]);
    }
    assert(is_arrangement(vi, vo, p));
}

} // verus!
