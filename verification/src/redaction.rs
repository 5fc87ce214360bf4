//! Values that must not reach a log.

use vstd::prelude::*;

verus! {

/// What is shown in place of a sensitive value.
pub const REDACTED: &'static str = "[REDACTED]";

/// A value that must not reach a log.
pub struct Sensitive<T>(pub T);

impl<T> Sensitive<T> {
    /// The value itself.
    pub fn inner(&self) -> (v: &T)
        ensures
            *v == self.0,
    {
        &self.0
    }

    /// What is shown in place of the value, whatever it is.
    pub fn shown(&self) -> (s: &'static str)
        ensures
            s@ == REDACTED@,
    {
        REDACTED
    }
}

/// What is shown of two values is the same, so it tells nothing of either; asked
/// for itself, each comes back.
pub proof fn law_what_is_shown_tells_nothing<T>(
    a: &Sensitive<T>,
    b: &Sensitive<T>,
    of_a: &'static str,
    of_b: &'static str,
    inner: &T,
)
    requires
        call_ensures(Sensitive::<T>::shown, (a,), of_a),
        call_ensures(Sensitive::<T>::shown, (b,), of_b),
        call_ensures(Sensitive::<T>::inner, (a,), inner),
    ensures
        of_a@ == of_b@,
        of_a@ == "[REDACTED]"@,
        *inner == a.0,
{
}

} // verus!
