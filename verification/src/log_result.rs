//! Reporting the error of a result on its way through.

use vstd::prelude::*;

verus! {

/// A result whose error can be reported without consuming it.
pub trait LogResult: Sized {
    type Failure;

    /// The error that there is to report.
    spec fn failure(&self) -> Option<Self::Failure>;

    /// Hands the error to `report`, if there is one, and returns the result unchanged.
    fn log_error<F: FnOnce(&Self::Failure)>(self, report: F) -> (result: Self)
        requires
            self.failure() matches Some(error) ==> report.requires((&error,)),
        ensures
            result == self,
            self.failure() matches Some(error) ==> report.ensures((&error,), ()),
    ;
}

impl<T, E> LogResult for Result<T, E> {
    type Failure = E;

    open spec fn failure(&self) -> Option<E> {
        match *self {
            Ok(_) => None,
            Err(error) => Some(error),
        }
    }

    fn log_error<F: FnOnce(&E)>(self, report: F) -> (result: Self) {
        if let Err(ref error) = self {
            report(error);
        }
        self
    }
}

/// The error of a result is what there is to report, and a success has none.
pub proof fn law_failure<T, E>(value: T, error: E)
    ensures
        Err::<T, E>(error).failure() == Some(error),
        Ok::<T, E>(value).failure() is None,
{
}

} // verus!
