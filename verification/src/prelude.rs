//! Common imports: the pipeline error type and the convenience bounds
//! used for user identifiers and filesystem paths.

use vstd::prelude::*;
use std::fmt::Debug;

pub use crate::errors::UploaderError;

verus! {

/// Anything that can stand in for a user identifier in messages and
/// lookups.
pub trait EasyString: Into<String> + Clone + Debug + Send + Sync {

}

impl<T> EasyString for T where T: Into<String> + Clone + Debug + Send + Sync {

}

} // verus!
