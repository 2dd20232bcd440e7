//! Facts about truncation and the two aggregation policies, stated over the
//! model and proved.
use crate::outcome::{
    errors_of, fail_fast_outcome, fail_slow_outcome, has_err, lemma_has_err_iff_errors,
    payloads_of, truncated,
};
use vstd::prelude::*;

verus! {

/// Whether a result is a failure; the filter that picks out the failures.
pub open spec fn is_failure<T, E>(r: Result<T, E>) -> bool {
    r is Err
}

/// The failures of `s`, in order.
pub open spec fn failures_of<T, E>(s: Seq<Result<T, E>>) -> Seq<Result<T, E>> {
    s.filter(|r: Result<T, E>| is_failure(r))
}

proof fn lemma_has_err_tail<T, E>(s: Seq<Result<T, E>>)
    requires
        s.len() > 0,
        s[0] is Ok,
    ensures
        has_err(s) <==> has_err(s.drop_first()),
{
    if has_err(s) {
        let i = choose|i: int| 0 <= i < s.len() && (#[trigger] s[i]) is Err;
        assert(s.drop_first()[i - 1] is Err);
    }
    if has_err(s.drop_first()) {
        let i = choose|i: int| 0 <= i < s.len() - 1 && (#[trigger] s.drop_first()[i]) is Err;
        assert(s[i + 1] is Err);
    }
}

/// Truncation yields the prefix of the sequence that ends with its first
/// failure, or the whole sequence when no element fails.
pub proof fn law_truncation_length<T, E>(s: Seq<Result<T, E>>)
    ensures
        truncated(s).len() <= s.len(),
        truncated(s) == s.take(truncated(s).len() as int),
        forall|i: int| 0 <= i < truncated(s).len() - 1 ==> (#[trigger] s[i]) is Ok,
        has_err(s) ==> truncated(s).len() >= 1 && s[truncated(s).len() - 1] is Err,
        !has_err(s) ==> truncated(s).len() == s.len(),
    decreases s.len(),
{
    if s.len() == 0 {
        assert(s.take(0) =~= s);
    } else if s[0] is Err {
        assert(s.take(1) =~= seq![s[0]]);
        assert(has_err(s) && s[0] is Err);
    } else {
        let rest = s.drop_first();
        law_truncation_length(rest);
        lemma_has_err_tail(s);
        let k = truncated(s).len() as int;
        assert(s.take(k) =~= seq![s[0]] + rest.take(k - 1));
        assert forall|i: int| 0 <= i < k - 1 implies (#[trigger] s[i]) is Ok by {
            if i > 0 {
                assert(s[i] == rest[i - 1]);
            }
        }
        if has_err(s) {
            assert(s[k - 1] == rest[k - 2]);
        }
    }
}

/// A sequence without failures passes through truncation unchanged.
pub proof fn law_no_failure_identity<T, E>(s: Seq<Result<T, E>>)
    requires
        !has_err(s),
    ensures
        truncated(s) == s,
{
    law_truncation_length(s);
    assert(s.take(s.len() as int) =~= s);
}

proof fn lemma_payloads_all<T, E>(s: Seq<Result<T, E>>)
    requires
        !has_err(s),
    ensures
        payloads_of(s).len() == s.len(),
        forall|i: int| 0 <= i < s.len() ==> s[i] == Ok::<T, E>(#[trigger] payloads_of(s)[i]),
    decreases s.len(),
{
    if s.len() > 0 {
        assert(!(s[0] is Err));
        lemma_has_err_tail(s);
        let rest = s.drop_first();
        lemma_payloads_all(rest);
        assert forall|i: int| 0 <= i < s.len() implies s[i] == Ok::<T, E>(
            #[trigger] payloads_of(s)[i],
        ) by {
            if i > 0 {
                assert(s[i] == rest[i - 1]);
                assert(payloads_of(s)[i] == payloads_of(rest)[i - 1]);
            }
        }
    }
}

/// Collecting all errors over a sequence without failures succeeds with the
/// payload of every element, in order.
pub proof fn law_fail_slow_success<T, E>(s: Seq<Result<T, E>>)
    requires
        !has_err(s),
    ensures
        fail_slow_outcome(s) is Ok,
        fail_slow_outcome(s)->Ok_0.len() == s.len(),
        forall|i: int|
            0 <= i < s.len() ==> s[i] == Ok::<T, E>(#[trigger] fail_slow_outcome(s)->Ok_0[i]),
{
    lemma_has_err_iff_errors(s);
    lemma_payloads_all(s);
}

proof fn lemma_errors_are_failures<T, E>(s: Seq<Result<T, E>>)
    ensures
        errors_of(s).len() == failures_of(s).len(),
        forall|i: int|
            0 <= i < errors_of(s).len() ==> failures_of(s)[i] == Err::<T, E>(
                #[trigger] errors_of(s)[i],
            ),
    decreases s.len(),
{
    if s.len() > 0 {
        let rest = s.drop_first();
        lemma_errors_are_failures(rest);
        let pred = |r: Result<T, E>| is_failure(r);
        assert(s =~= seq![s[0]] + rest);
        Seq::filter_distributes_over_add(seq![s[0]], rest, pred);
        reveal_with_fuel(Seq::filter, 2);
        assert(seq![s[0]].drop_last() =~= Seq::<Result<T, E>>::empty());
        if s[0] is Err {
            assert(failures_of(seq![s[0]]) =~= seq![s[0]]);
            assert forall|i: int| 0 <= i < errors_of(s).len() implies failures_of(s)[i]
                == Err::<T, E>(#[trigger] errors_of(s)[i]) by {
                if i > 0 {
                    assert(failures_of(s)[i] == failures_of(rest)[i - 1]);
                    assert(errors_of(s)[i] == errors_of(rest)[i - 1]);
                }
            }
        } else {
            assert(failures_of(seq![s[0]]) =~= Seq::<Result<T, E>>::empty());
            assert(failures_of(s) =~= failures_of(rest));
        }
    }
}

/// Collecting all errors over a sequence with at least one failure fails with
/// one error for each failure, in encounter order; no payload is kept.
pub proof fn law_fail_slow_failure<T, E>(s: Seq<Result<T, E>>)
    requires
        has_err(s),
    ensures
        fail_slow_outcome(s) is Err,
        fail_slow_outcome(s)->Err_0.len() == failures_of(s).len(),
        fail_slow_outcome(s)->Err_0.len() >= 1,
        forall|i: int|
            0 <= i < failures_of(s).len() ==> failures_of(s)[i] == Err::<T, E>(
                #[trigger] fail_slow_outcome(s)->Err_0[i],
            ),
{
    lemma_has_err_iff_errors(s);
    lemma_errors_are_failures(s);
}

proof fn lemma_truncated_errors<T, E>(s: Seq<Result<T, E>>)
    requires
        has_err(s),
    ensures
        errors_of(truncated(s)).len() == 1,
        errors_of(truncated(s))[0] == errors_of(s)[0],
    decreases s.len(),
{
    let rest = s.drop_first();
    if s[0] is Err {
        assert(seq![s[0]].drop_first() =~= Seq::<Result<T, E>>::empty());
        reveal_with_fuel(errors_of, 2);
    } else {
        lemma_has_err_tail(s);
        lemma_truncated_errors(rest);
        assert((seq![s[0]] + truncated(rest)).drop_first() =~= truncated(rest));
    }
}

/// Stopping at the first error succeeds exactly when collecting all errors
/// does, with the same payloads; when both fail, the single error is the first
/// of the collected ones.
pub proof fn law_fail_fast_fail_slow_agree<T, E>(s: Seq<Result<T, E>>)
    ensures
        fail_fast_outcome(s) is Ok <==> fail_slow_outcome(s) is Ok,
        fail_slow_outcome(s) is Ok ==> fail_fast_outcome(s)->Ok_0 == fail_slow_outcome(s)->Ok_0,
        fail_slow_outcome(s) is Err ==> fail_fast_outcome(s)->Err_0 == fail_slow_outcome(
            s,
        )->Err_0[0],
{
    lemma_has_err_iff_errors(s);
    if has_err(s) {
        lemma_truncated_errors(s);
    } else {
        law_no_failure_identity(s);
    }
}

} // verus!
