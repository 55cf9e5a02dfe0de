use crate::problem::{detailed, status_problem, Problem};
use vstd::prelude::*;

verus! {

/// What every operation of the library returns: a value, or the `Problem` that stands for the failure.
pub type BusinessResult<T> = Result<T, Problem>;

/// Turns any failure into an internal-server-error `Problem` that carries `details`;
/// the failure's own value is dropped.
pub trait BusinessResultExt<T> {
    fn chain_problem(self, details: &str) -> BusinessResult<T>;
}

impl<T, E> BusinessResultExt<T> for Result<T, E> {
    fn chain_problem(self, details: &str) -> (r: BusinessResult<T>)
        ensures
            match self {
                Ok(value) => r == Ok::<T, Problem>(value),
                Err(_) => r matches Err(problem) && problem@ == detailed(
                    status_problem(500, "Internal server error"@),
                    details@,
                ),
            },
    {
        match self {
            Ok(result) => Ok(result),
            Err(_) => Err(Problem::internal_server_error().with_details(details)),
        }
    }
}

} // verus!
