//! The pipeline's accounting laws.
//!
//! `stage_result` already pins each stage run: an ordered stage emits one
//! worker result per input in input order, an unordered stage emits one
//! worker result per input reordered by some permutation of the input
//! indices. The lemmas here restate that accounting in the forms the
//! design promises: no item is lost or duplicated (the multiset reaching
//! the sink equals the multiset of the stage's results), and an ordered
//! stage's output sequence is exactly its input's results in input order.

use crate::pipeline::pipeline_trace;
use crate::pipeline::StageConfig;
use crate::stage::is_distinct_selection;
use crate::stage::is_index_permutation;
use crate::stage::stage_result;
use vstd::prelude::*;

verus! {

/// The source transformed by the first `k` stages' worker functions, in
/// source order.
pub open spec fn apply_chain<T>(gs: Seq<spec_fn(T) -> T>, k: int, source: Seq<T>) -> Seq<T>
    decreases k,
{
    if k <= 0 {
        source
    } else {
        apply_chain(gs, k - 1, source).map_values(gs[k - 1])
    }
}

/// No loss, no duplication: reordering a sequence by a permutation of its
/// indices preserves the multiset of its items.
pub proof fn lemma_permutation_preserves_multiset<T>(s: Seq<T>, t: Seq<T>, perm: Seq<int>)
    requires
        is_index_permutation(perm, s.len() as int),
        t.len() == s.len(),
        forall|j: int| 0 <= j < t.len() ==> t[j] == s[perm[j]],
    ensures
        t.to_multiset() == s.to_multiset(),
    decreases t.len(),
{
    broadcast use vstd::multiset::group_multiset_axioms;

    if t.len() == 0 {
        assert(t =~= s);
    } else {
        let n = t.len() as int;
        let i0 = perm[n - 1];
        let v = t[n - 1];
        let s2 = s.remove(i0);
        let t2 = t.drop_last();
        let perm2 = Seq::new(
            (n - 1) as nat,
            |j: int|
                if perm[j] > i0 {
                    perm[j] - 1
                } else {
                    perm[j]
                },
        );
        s.remove_ensures(i0);
        assert forall|a: int, b: int| 0 <= a < b < perm2.len() implies perm2[a] != perm2[b] by {
            assert(perm[a] != perm[b]);
            assert(perm[a] != i0);
            assert(perm[b] != i0);
        };
        assert forall|a: int| 0 <= a < perm2.len() implies 0 <= #[trigger] perm2[a] < n - 1 by {
            assert(perm[a] != i0);
            assert(0 <= perm[a] < n);
        };
        assert forall|j: int| 0 <= j < t2.len() implies t2[j] == s2[perm2[j]] by {
            assert(perm[j] != i0);
            assert(t2[j] == t[j]);
            assert(t[j] == s[perm[j]]);
            if perm[j] < i0 {
                assert(s2[perm[j]] == s[perm[j]]);
            } else {
                assert(s2[perm[j] - 1] == s[perm[j]]);
            }
        };
        lemma_permutation_preserves_multiset(s2, t2, perm2);
        s.to_multiset_ensures();
        t2.to_multiset_ensures();
        assert(t =~= t2.push(v));
        assert(t.to_multiset() =~= t2.to_multiset().insert(v));
        assert(s2.to_multiset() =~= s.to_multiset().remove(v));
        assert(s.contains(v));
        assert(s.to_multiset().count(v) > 0);
        assert forall|x: T| t.to_multiset().count(x) == s.to_multiset().count(x) by {
            if x == v {
                assert(t.to_multiset().count(v) == t2.to_multiset().count(v) + 1);
                assert(s2.to_multiset().count(v) == s.to_multiset().count(v) - 1);
            }
        };
        assert(t.to_multiset() =~= s.to_multiset());
    }
}

/// An ordered stage reproduces its input order: when the worker's result
/// on `x` can only be `Ok(g(x))` and no failure occurred, the output is
/// exactly the input mapped through `g`, element for element.
pub proof fn lemma_ordered_stage_in_order<T, U, E, F: Fn(T) -> Result<U, E>>(
    f: F,
    g: spec_fn(T) -> U,
    inp: Seq<T>,
    outp: Seq<U>,
)
    requires
        stage_result(f, true, inp, outp, Option::<E>::None),
        forall|x: T, y: Result<U, E>| call_ensures(f, (x,), y) ==> y == Result::<U, E>::Ok(g(x)),
    ensures
        outp == inp.map_values(g),
{
    assert forall|j: int| 0 <= j < outp.len() implies outp[j] == g(inp[j]) by {
        assert(call_ensures(f, (inp[j],), Result::<U, E>::Ok(outp[j])));
    };
    assert(outp =~= inp.map_values(g));
}

/// No loss or duplication through an unordered stage: when the worker's
/// result on `x` can only be `Ok(g(x))` and no failure occurred, the
/// multiset of outputs equals the multiset of the inputs' results — every
/// input is transformed and delivered exactly once, whatever completion
/// order the schedule produced.
pub proof fn lemma_unordered_stage_no_loss<T, U, E, F: Fn(T) -> Result<U, E>>(
    f: F,
    g: spec_fn(T) -> U,
    inp: Seq<T>,
    outp: Seq<U>,
)
    requires
        stage_result(f, false, inp, outp, Option::<E>::None),
        forall|x: T, y: Result<U, E>| call_ensures(f, (x,), y) ==> y == Result::<U, E>::Ok(g(x)),
    ensures
        outp.to_multiset() == inp.map_values(g).to_multiset(),
{
    let sel = choose|sel: Seq<int>|
        crate::stage::is_distinct_selection(sel, inp.len() as int) && sel.len() == outp.len() && (
        forall|j: int|
            0 <= j < outp.len() ==> call_ensures(f, (inp[sel[j]],), Result::<U, E>::Ok(outp[j])));
    let mapped = inp.map_values(g);
    assert(outp.len() == inp.len());
    assert(is_index_permutation(sel, mapped.len() as int));
    assert forall|j: int| 0 <= j < outp.len() implies outp[j] == mapped[sel[j]] by {
        assert(call_ensures(f, (inp[sel[j]],), Result::<U, E>::Ok(outp[j])));
    };
    lemma_permutation_preserves_multiset(mapped, outp, sel);
}

/// After `k` stages, the items present are a permutation of the source
/// transformed by those stages' worker functions: every stage hands on
/// each of its inputs exactly once, reordered or not.
proof fn lemma_levels_permutation<T, E, F: Fn(T) -> Result<T, E>>(
    levels: Seq<Seq<T>>,
    workers: Seq<F>,
    stages: Seq<StageConfig>,
    source: Seq<T>,
    output: Seq<T>,
    fails: Seq<Option<E>>,
    gs: Seq<spec_fn(T) -> T>,
    k: int,
) -> (perm: Seq<int>)
    requires
        pipeline_trace(levels, workers, stages, source, output, fails),
        gs.len() == stages.len(),
        forall|m: int, x: T, y: Result<T, E>|
            0 <= m < stages.len() && #[trigger] call_ensures(workers[m], (x,), y) ==> y
                == Result::<T, E>::Ok(gs[m](x)),
        forall|m: int| 0 <= m < fails.len() ==> fails[m] is None,
        0 <= k <= stages.len(),
    ensures
        is_index_permutation(perm, source.len() as int),
        apply_chain(gs, k, source).len() == source.len(),
        levels[k].len() == source.len(),
        forall|j: int|
            0 <= j < source.len() ==> levels[k][j] == apply_chain(gs, k, source)[perm[j]],
    decreases k,
{
    let n = source.len() as int;
    if k == 0 {
        let perm = Seq::new(n as nat, |j: int| j);
        perm
    } else {
        let p0 = lemma_levels_permutation(levels, workers, stages, source, output, fails, gs, k - 1);
        let m = k - 1;
        let inp = levels[m];
        let outp = levels[k];
        let chain_prev = apply_chain(gs, m, source);
        let chain_k = apply_chain(gs, k, source);
        assert(stage_result(
            workers[m],
            stages[m].policy.spec_is_ordered(),
            inp,
            outp,
            fails[m],
        ));
        assert(fails[m] is None);
        assert(outp.len() == inp.len());
        assert(chain_k =~= chain_prev.map_values(gs[m]));
        if stages[m].policy.spec_is_ordered() {
            assert forall|j: int| 0 <= j < n implies outp[j] == chain_k[p0[j]] by {
                assert(call_ensures(workers[m], (inp[j],), Result::<T, E>::Ok(outp[j])));
                assert(outp[j] == gs[m](inp[j]));
                assert(inp[j] == chain_prev[p0[j]]);
            };
            p0
        } else {
            let sel = choose|sel: Seq<int>|
                is_distinct_selection(sel, inp.len() as int) && sel.len() == outp.len() && (forall|
                    j: int,
                |
                    0 <= j < outp.len() ==> call_ensures(
                        workers[m],
                        (inp[sel[j]],),
                        Result::<T, E>::Ok(outp[j]),
                    ));
            let perm = Seq::new(n as nat, |j: int| p0[sel[j]]);
            assert forall|a: int, b: int| 0 <= a < b < n implies perm[a] != perm[b] by {
                assert(sel[a] != sel[b]);
                assert(0 <= sel[a] < n);
                assert(0 <= sel[b] < n);
            };
            assert forall|j: int| 0 <= j < n implies outp[j] == chain_k[perm[j]] by {
                assert(call_ensures(workers[m], (inp[sel[j]],), Result::<T, E>::Ok(outp[j])));
                assert(outp[j] == gs[m](inp[sel[j]]));
                assert(inp[sel[j]] == chain_prev[p0[sel[j]]]);
            };
            perm
        }
    }
}

/// No loss or duplication through the whole pipeline: with no failure,
/// and each stage's worker able to return only `Ok(g(x))` on `x`, the
/// multiset reaching the sink equals the multiset of the source items
/// transformed by every stage in turn — whatever mix of ordered and
/// unordered stages the pipeline ran, and whatever the schedules did.
pub proof fn lemma_pipeline_no_loss<T, E, F: Fn(T) -> Result<T, E>>(
    levels: Seq<Seq<T>>,
    workers: Seq<F>,
    stages: Seq<StageConfig>,
    source: Seq<T>,
    output: Seq<T>,
    fails: Seq<Option<E>>,
    gs: Seq<spec_fn(T) -> T>,
)
    requires
        pipeline_trace(levels, workers, stages, source, output, fails),
        gs.len() == stages.len(),
        forall|m: int, x: T, y: Result<T, E>|
            0 <= m < stages.len() && #[trigger] call_ensures(workers[m], (x,), y) ==> y
                == Result::<T, E>::Ok(gs[m](x)),
        forall|m: int| 0 <= m < fails.len() ==> fails[m] is None,
    ensures
        output.len() == source.len(),
        output.to_multiset() == apply_chain(gs, stages.len() as int, source).to_multiset(),
{
    let k = stages.len() as int;
    let perm = lemma_levels_permutation(levels, workers, stages, source, output, fails, gs, k);
    assert(output =~= levels[k]);
    lemma_permutation_preserves_multiset(apply_chain(gs, k, source), output, perm);
}

} // verus!
