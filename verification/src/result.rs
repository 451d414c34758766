//! Result of the execution of a four-letter-word command.

use crate::errors::ZK4LWError;
use vstd::prelude::*;

verus! {

/// Result produced by executing a `ZK4LWCommand`.
pub type ZK4LWResult<T> = Result<T, ZK4LWError>;

} // verus!
