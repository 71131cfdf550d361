//! Collecting the errors of a batch before deciding how it ended.

use crate::utils::error::{lemma_view_of_multiple, views_of, Error, ErrorView};
use vstd::prelude::*;

verus! {

/// The errors met so far, in the order they were added.
pub struct Report {
    errors: Vec<Error>,
}

impl View for Report {
    type V = Seq<ErrorView>;

    closed spec fn view(&self) -> Seq<ErrorView> {
        views_of(self.errors@)
    }
}

/// How a batch with the errors `errors` ends when it would otherwise have
/// produced `value`: well if there are none, with the error itself if there is
/// one, with all of them in order if there are more.
pub open spec fn outcome_of<T>(errors: Seq<ErrorView>, value: T) -> std::result::Result<
    T,
    ErrorView,
> {
    if errors.len() == 0 {
        Ok(value)
    } else if errors.len() == 1 {
        Err(errors[0])
    } else {
        Err(ErrorView::Multiple(errors))
    }
}

impl Report {
    /// A report without errors.
    pub fn new() -> (report: Report)
        ensures
            report@ == Seq::<ErrorView>::empty(),
    {
        let report = Report { errors: Vec::new() };
        assert(report@ =~= Seq::<ErrorView>::empty());
        report
    }

    /// Adds `error` after those met before.
    pub fn add(&mut self, error: Error)
        ensures
            final(self)@ == old(self)@.push(error@),
    {
        self.errors.push(error);
        assert(self@ =~= old(self)@.push(error@));
    }

    /// Ends the batch: `value` if no error was added, else what was added.
    pub fn wrap<T>(self, value: T) -> (result: std::result::Result<T, Error>)
        ensures
            match result {
                Ok(kept) => outcome_of(self@, value) == Ok::<T, ErrorView>(kept),
                Err(error) => outcome_of(self@, value) == Err::<T, ErrorView>(error@),
            },
    {
        let mut errors = self.errors;
        if errors.len() == 0 {
            Ok(value)
        } else if errors.len() == 1 {
            let only = errors.remove(0);
            Err(only)
        } else {
            proof {
                lemma_view_of_multiple(errors);
            }
            Err(Error::Multiple(errors))
        }
    }
}

} // verus!
