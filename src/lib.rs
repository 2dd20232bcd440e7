//! Turning a sequence of fallible results into one outcome, either stopping
//! at the first error or collecting every error.
mod laws;
mod multi_error;
mod outcome;
mod result_iter;

pub use laws::{
    failures_of, is_failure, law_fail_fast_fail_slow_agree, law_fail_slow_failure,
    law_fail_slow_success, law_no_failure_identity, law_truncation_length,
};
pub use multi_error::MultiError;
pub use outcome::{
    errors_of, fail_fast_outcome, fail_slow_outcome, has_err, lemma_errors_of_append,
    lemma_has_err_iff_errors, lemma_payloads_of_append, payloads_of, truncated,
};
pub use result_iter::{EndIfErrIter, ResultIterExt, ResultSource};
