//! The error value handed across the boundary to the user interface.

use vstd::prelude::*;
use vstd::std_specs::convert::FromSpecImpl;
use crate::types::AppError;

verus! {

/// An `AppError` as the interface layer returns it from its commands.
#[derive(Debug)]
pub struct AppErrorWrapper(pub AppError);

impl From<AppError> for AppErrorWrapper {
    fn from(err: AppError) -> (r: Self) {
        AppErrorWrapper(err)
    }
}

impl FromSpecImpl<AppError> for AppErrorWrapper {
    open spec fn obeys_from_spec() -> bool {
        true
    }

    open spec fn from_spec(v: AppError) -> AppErrorWrapper {
        AppErrorWrapper(v)
    }
}

} // verus!
