pub mod import;
pub mod regen;

use vstd::prelude::*;

verus! {

/// A job's error log is capped so that a run over a very large library cannot
/// grow it without bound.
pub const MAX_JOB_ERRORS: usize = 100;

/// The single entry appended once the cap is reached.
pub open spec fn truncation_sentinel() -> Seq<char> {
    "(additional errors truncated)"@
}

/// One append to a capped error log: below the cap the message goes in, at the
/// cap the sentinel goes in instead, past the cap nothing changes.
pub open spec fn spec_push_error(errs: Seq<Seq<char>>, msg: Seq<char>) -> Seq<Seq<char>> {
    if errs.len() < MAX_JOB_ERRORS {
        errs.push(msg)
    } else if errs.len() == MAX_JOB_ERRORS {
        errs.push(truncation_sentinel())
    } else {
        errs
    }
}

/// A whole sequence of appends, first message first.
pub open spec fn spec_push_errors(errs: Seq<Seq<char>>, msgs: Seq<Seq<char>>) -> Seq<Seq<char>>
    decreases msgs.len(),
{
    if msgs.len() == 0 {
        errs
    } else {
        spec_push_errors(spec_push_error(errs, msgs.first()), msgs.drop_first())
    }
}

proof fn lemma_push_errors_saturated(errs: Seq<Seq<char>>, msgs: Seq<Seq<char>>)
    requires
        errs.len() == MAX_JOB_ERRORS + 1,
    ensures
        spec_push_errors(errs, msgs) == errs,
    decreases msgs.len(),
{
    if msgs.len() > 0 {
        lemma_push_errors_saturated(errs, msgs.drop_first());
    }
}

proof fn lemma_push_errors_at_cap(errs: Seq<Seq<char>>, msgs: Seq<Seq<char>>)
    requires
        errs.len() == MAX_JOB_ERRORS,
        msgs.len() > 0,
    ensures
        spec_push_errors(errs, msgs) == errs.push(truncation_sentinel()),
{
    lemma_push_errors_saturated(errs.push(truncation_sentinel()), msgs.drop_first());
}

/// Bounding of the error log: however many failures a run drives through a
/// job, an error log that starts below the cap ends with at most `cap + 1`
/// entries, and if the cap was exceeded it holds exactly `cap + 1` entries,
/// the last being the truncation sentinel.
pub proof fn lemma_error_log_bounded(errs: Seq<Seq<char>>, msgs: Seq<Seq<char>>)
    requires
        errs.len() < MAX_JOB_ERRORS,
    ensures
        spec_push_errors(errs, msgs).len() <= MAX_JOB_ERRORS + 1,
        errs.len() + msgs.len() > MAX_JOB_ERRORS ==> {
            let out = spec_push_errors(errs, msgs);
            out.len() == MAX_JOB_ERRORS + 1 && out.last() == truncation_sentinel()
        },
        errs.len() + msgs.len() <= MAX_JOB_ERRORS ==> spec_push_errors(errs, msgs).len()
            == errs.len() + msgs.len(),
    decreases msgs.len(),
{
    if msgs.len() > 0 {
        let next = spec_push_error(errs, msgs.first());
        if next.len() < MAX_JOB_ERRORS {
            lemma_error_log_bounded(next, msgs.drop_first());
        } else {
            if msgs.len() == 1 {
            } else {
                lemma_push_errors_at_cap(next, msgs.drop_first());
            }
        }
    }
}

/// Append to a capped error log. Shared shape of the two job classes' logs.
pub fn push_error_entry(errors: &mut Vec<String>, message: &str)
    ensures
        final(errors).deep_view() == spec_push_error(old(errors).deep_view(), message@),
{
    if errors.len() < MAX_JOB_ERRORS {
        errors.push(message.to_owned());
        assert(errors.deep_view() =~= old(errors).deep_view().push(message@));
    } else if errors.len() == MAX_JOB_ERRORS {
        errors.push("(additional errors truncated)".to_owned());
        assert(errors.deep_view() =~= old(errors).deep_view().push(truncation_sentinel()));
    } else {
        assert(errors.deep_view() =~= old(errors).deep_view());
    }
}

} // verus!
