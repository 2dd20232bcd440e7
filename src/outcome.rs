//! The mathematical model: what truncation yields and what each policy returns.
use vstd::prelude::*;

verus! {

/// Whether any element of `s` is a failure.
pub open spec fn has_err<T, E>(s: Seq<Result<T, E>>) -> bool {
    exists|i: int| 0 <= i < s.len() && (#[trigger] s[i]) is Err
}

/// The prefix of `s` up to and including its first failure; all of `s` when
/// it holds no failure.
pub open spec fn truncated<T, E>(s: Seq<Result<T, E>>) -> Seq<Result<T, E>>
    decreases s.len(),
{
    if s.len() == 0 {
        s
    } else if s[0] is Err {
        seq![s[0]]
    } else {
        seq![s[0]] + truncated(s.drop_first())
    }
}

/// The payloads of the successes of `s`, in order.
pub open spec fn payloads_of<T, E>(s: Seq<Result<T, E>>) -> Seq<T>
    decreases s.len(),
{
    if s.len() == 0 {
        Seq::empty()
    } else {
        match s[0] {
            Ok(t) => seq![t] + payloads_of(s.drop_first()),
            Err(_) => payloads_of(s.drop_first()),
        }
    }
}

/// The errors of the failures of `s`, in order.
pub open spec fn errors_of<T, E>(s: Seq<Result<T, E>>) -> Seq<E>
    decreases s.len(),
{
    if s.len() == 0 {
        Seq::empty()
    } else {
        match s[0] {
            Ok(_) => errors_of(s.drop_first()),
            Err(e) => seq![e] + errors_of(s.drop_first()),
        }
    }
}

/// What collecting all errors returns: every payload when there is no
/// failure, otherwise every error.
pub open spec fn fail_slow_outcome<T, E>(s: Seq<Result<T, E>>) -> Result<Seq<T>, Seq<E>> {
    if errors_of(s).len() == 0 {
        Ok(payloads_of(s))
    } else {
        Err(errors_of(s))
    }
}

/// What stopping at the first error returns: collecting all errors over the
/// truncated sequence, with the single error taken out of its list.
pub open spec fn fail_fast_outcome<T, E>(s: Seq<Result<T, E>>) -> Result<Seq<T>, E> {
    match fail_slow_outcome(truncated(s)) {
        Ok(v) => Ok(v),
        Err(es) => Err(es[0]),
    }
}

/// Splitting a sequence in two splits its payloads the same way.
pub proof fn lemma_payloads_of_append<T, E>(a: Seq<Result<T, E>>, b: Seq<Result<T, E>>)
    ensures
        payloads_of(a + b) == payloads_of(a) + payloads_of(b),
    decreases a.len(),
{
    if a.len() == 0 {
        assert(a + b == b);
    } else {
        assert((a + b).drop_first() == a.drop_first() + b);
        lemma_payloads_of_append(a.drop_first(), b);
    }
}

/// Splitting a sequence in two splits its errors the same way.
pub proof fn lemma_errors_of_append<T, E>(a: Seq<Result<T, E>>, b: Seq<Result<T, E>>)
    ensures
        errors_of(a + b) == errors_of(a) + errors_of(b),
    decreases a.len(),
{
    if a.len() == 0 {
        assert(a + b == b);
    } else {
        assert((a + b).drop_first() == a.drop_first() + b);
        lemma_errors_of_append(a.drop_first(), b);
    }
}

/// A sequence holds a failure exactly when its list of errors is not empty.
pub proof fn lemma_has_err_iff_errors<T, E>(s: Seq<Result<T, E>>)
    ensures
        has_err(s) <==> errors_of(s).len() > 0,
    decreases s.len(),
{
    if s.len() > 0 {
        lemma_has_err_iff_errors(s.drop_first());
        if has_err(s) && !(s[0] is Err) {
            let i = choose|i: int| 0 <= i < s.len() && (#[trigger] s[i]) is Err;
            assert(s.drop_first()[i - 1] is Err);
        }
        if has_err(s.drop_first()) {
            let i = choose|i: int| 0 <= i < s.len() - 1 && (#[trigger] s.drop_first()[i]) is Err;
            assert(s[i + 1] is Err);
        }
    }
}

} // verus!
