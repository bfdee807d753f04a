//! Depth ordering of elements: a stable sort by depth key, so that
//! rendering in ascending order paints higher-depth elements over lower
//! ones and elements of equal depth keep their insertion order.

use vstd::prelude::*;
use vstd::seq_lib::*;

use crate::model::Element;
use crate::model::spec_depth_key;
use crate::model::spec_background_depth;

verus! {

/// Whether a run of elements is ordered by ascending depth key.
pub open spec fn spec_sorted_by_depth(s: Seq<Element>) -> bool {
    forall|i: int, j: int|
        0 <= i <= j < s.len() ==> spec_depth_key(#[trigger] s[i]) <= spec_depth_key(#[trigger] s[j])
}

/// The elements of `s` whose depth key is `k`, in their order in `s`.
pub open spec fn spec_with_key(s: Seq<Element>, k: int) -> Seq<Element> {
    s.filter(|e: Element| spec_depth_key(e) == k)
}

/// A run without any element of key `k` filters to the empty sequence.
proof fn lemma_filter_key_none(s: Seq<Element>, k: int)
    requires
        forall|i: int| 0 <= i < s.len() ==> spec_depth_key(#[trigger] s[i]) != k,
    ensures
        spec_with_key(s, k) =~= Seq::<Element>::empty(),
    decreases s.len(),
{
    reveal(Seq::filter);
    if s.len() > 0 {
        assert(forall|i: int|
            0 <= i < s.drop_last().len() ==> spec_depth_key(#[trigger] s.drop_last()[i]) != k);
        lemma_filter_key_none(s.drop_last(), k);
    }
}

/// Stable sort of elements by depth key: the result is ordered by
/// ascending key, and for every key the elements carrying it appear
/// exactly as they did in the input, in the same order (so ties keep their
/// insertion order and nothing is added, dropped, or reordered within a
/// depth).
pub fn sorted_elements(elements: Vec<Element>) -> (r: Vec<Element>)
    ensures
        r@.len() == elements@.len(),
        spec_sorted_by_depth(r@),
        forall|k: int| #[trigger] spec_with_key(r@, k) == spec_with_key(elements@, k),
{
    let ghost orig = elements@;
    let mut rest = elements;
    let mut out: Vec<Element> = Vec::new();
    proof {
        assert(out@.len() == 0);
        assert forall|k: int| #[trigger] spec_with_key(orig, k) == spec_with_key(out@, k)
            + spec_with_key(rest@, k) by {
            reveal(Seq::filter);
            assert(spec_with_key(out@, k) =~= Seq::<Element>::empty());
            assert(spec_with_key(out@, k) + spec_with_key(rest@, k) =~= spec_with_key(rest@, k));
        }
    }
    while rest.len() > 0
        invariant
            out@.len() + rest@.len() == orig.len(),
            spec_sorted_by_depth(out@),
            forall|k: int| #[trigger] spec_with_key(orig, k) == spec_with_key(out@, k)
                + spec_with_key(rest@, k),
        decreases rest@.len(),
    {
        let ghost old_out = out@;
        let ghost old_rest = rest@;
        let e = rest.remove(0);
        let key = e.depth_key();
        let mut p: usize = 0;
        while p < out.len() && out[p].depth_key() <= key
            invariant
                0 <= p <= out@.len(),
                out@ == old_out,
                key == spec_depth_key(e),
                spec_sorted_by_depth(out@),
                forall|j: int| 0 <= j < p ==> spec_depth_key(#[trigger] out@[j]) <= key,
            decreases out@.len() - p,
        {
            p = p + 1;
        }
        proof {
            assert(forall|j: int|
                p <= j < out@.len() ==> spec_depth_key(#[trigger] out@[j]) > key);
        }
        out.insert(p, e);
        proof {
            broadcast use Seq::filter_distributes_over_add;

            let pp = p as int;
            let a = old_out.subrange(0, pp);
            let b = old_out.subrange(pp, old_out.len() as int);
            let sing = seq![e];
            assert(a.push(e) =~= a + sing);
            assert(out@ == old_out.insert(pp, e));
            assert(out@ =~= a + sing + b);
            assert(old_out =~= a + b);
            // the new run stays sorted: everything before the insertion
            // point has key at most `key`, everything after has a larger
            // key.
            assert forall|i: int, j: int| 0 <= i <= j < out@.len() implies spec_depth_key(
                #[trigger] out@[i],
            ) <= spec_depth_key(#[trigger] out@[j]) by {
                if i < pp {
                    assert(out@[i] == old_out[i]);
                }
                if j < pp {
                    assert(out@[j] == old_out[j]);
                }
                if i > pp {
                    assert(out@[i] == old_out[i - 1]);
                }
                if j > pp {
                    assert(out@[j] == old_out[j - 1]);
                }
            }
            // the head of the remainder moves to the end of its key class.
            assert(old_rest =~= sing + rest@);
            assert forall|k: int| #[trigger] spec_with_key(orig, k) == spec_with_key(out@, k)
                + spec_with_key(rest@, k) by {
                let fa = spec_with_key(a, k);
                let fb = spec_with_key(b, k);
                let fs = spec_with_key(sing, k);
                let fr = spec_with_key(rest@, k);
                assert(spec_with_key(sing + rest@, k) == fs + fr);
                assert(spec_with_key(a + sing + b, k) == spec_with_key(a + sing, k) + fb);
                assert(spec_with_key(a + sing, k) == fa + fs);
                assert(spec_with_key(a + b, k) == fa + fb);
                assert(spec_with_key(orig, k) == spec_with_key(old_out, k) + spec_with_key(
                    old_rest,
                    k,
                ));
                assert(fs == if spec_depth_key(e) == k {
                    sing
                } else {
                    Seq::<Element>::empty()
                }) by {
                    reveal_with_fuel(Seq::filter, 2);
                    assert(sing.drop_last() =~= Seq::<Element>::empty());
                    assert(sing.last() == e);
                    if spec_depth_key(e) == k {
                        assert(fs =~= sing);
                    } else {
                        assert(fs =~= Seq::<Element>::empty());
                    }
                }
                if k == spec_depth_key(e) {
                    assert(forall|i: int|
                        0 <= i < b.len() ==> spec_depth_key(#[trigger] b[i]) != k);
                    lemma_filter_key_none(b, k);
                    assert(spec_with_key(out@, k) =~= fa + fs);
                    assert(spec_with_key(old_out, k) =~= fa);
                    assert(spec_with_key(orig, k) =~= fa + (fs + fr));
                    assert(fa + (fs + fr) =~= (fa + fs) + fr);
                } else {
                    assert(fs =~= Seq::<Element>::empty());
                    assert(spec_with_key(out@, k) =~= fa + fb);
                    assert(spec_with_key(old_rest, k) =~= fr);
                    assert(spec_with_key(orig, k) =~= (fa + fb) + fr);
                }
            }
        }
    }
    proof {
        assert forall|k: int| #[trigger] spec_with_key(out@, k) == spec_with_key(orig, k) by {
            assert(spec_with_key(rest@, k) =~= Seq::<Element>::empty());
            assert(spec_with_key(out@, k) + spec_with_key(rest@, k) =~= spec_with_key(out@, k));
        }
    }
    out
}

/// Depth sorting puts every background element first: in the sorted run no
/// image or text element precedes any background, as long as no image or
/// text element carries an explicit depth at or below the background key
/// (an explicit depth that low would sort among the backgrounds).
pub proof fn lemma_backgrounds_first(v: Seq<Element>, r: Seq<Element>)
    requires
        spec_sorted_by_depth(r),
        forall|k: int| #[trigger] spec_with_key(r, k) == spec_with_key(v, k),
        forall|i: int|
            0 <= i < v.len() && !(#[trigger] v[i] is Background) ==> spec_depth_key(v[i])
                > spec_background_depth(),
    ensures
        forall|i: int, j: int|
            0 <= i <= j < r.len() && #[trigger] r[j] is Background ==> #[trigger] r[
                i
            ] is Background,
{
    assert forall|i: int, j: int|
        0 <= i <= j < r.len() && #[trigger] r[j] is Background implies #[trigger] r[
        i
    ] is Background by {
        let k = spec_depth_key(r[i]);
        assert(spec_depth_key(r[j]) == spec_background_depth());
        assert(k <= spec_background_depth());
        if !(r[i] is Background) {
            r.lemma_filter_contains(|e: Element| spec_depth_key(e) == k, i);
            assert(spec_with_key(r, k).contains(r[i]));
            assert(spec_with_key(v, k).contains(r[i]));
            v.lemma_filter_contains_rev(|e: Element| spec_depth_key(e) == k, r[i]);
            let w = choose|w: int| 0 <= w < v.len() && v[w] == r[i];
            assert(spec_depth_key(v[w]) > spec_background_depth());
        }
    }
}

} // verus!
