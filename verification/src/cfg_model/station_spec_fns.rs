use vstd::prelude::*;

verus! {

/// Grouping of a station's behaviours.
///
/// `C` is the type of the function that checks whether a station needs to be
/// visited, and `V` the type of the function that visits it. The library only
/// reads whether a check function is present; running either function is
/// left to the caller.
#[derive(Clone, Debug, PartialEq)]
pub struct StationSpecFns<C, V> {
    /// Checks whether a station needs to be visited.
    ///
    /// This is run before and after `visit_fn` is executed.
    pub check_fn: Option<C>,
    /// Steps to execute when visiting a station.
    pub visit_fn: V,
}

impl<C, V> StationSpecFns<C, V> {
    /// Returns new `StationSpecFns` with minimal logic: no check function.
    pub fn new(visit_fn: V) -> (fns: Self)
        ensures
            fns.check_fn is None,
            fns.visit_fn == visit_fn,
    {
        Self { check_fn: None, visit_fn }
    }

    /// Sets the `check_fn` for this `StationSpecFns`.
    pub fn with_check_fn(self, check_fn: C) -> (fns: Self)
        ensures
            fns.check_fn == Some(check_fn),
            fns.visit_fn == self.visit_fn,
    {
        let mut fns = self;
        fns.check_fn = Some(check_fn);
        fns
    }
}

} // verus!
