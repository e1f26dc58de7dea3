//! Values as contracts speak of them.
use vstd::prelude::*;

verus! {

/// What a result says: the model of its value, or of its error.
pub open spec fn outcome<T: DeepView, E: DeepView>(r: Result<T, E>) -> Result<T::V, E::V> {
    match r {
        Ok(x) => Ok(x.deep_view()),
        Err(e) => Err(e.deep_view()),
    }
}

} // verus!
