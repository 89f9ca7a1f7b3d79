//! The repository contract.

use vstd::prelude::*;

verus! {

/// A repository: an abstraction over the storage a read model projects
/// into. Implement it to define how projected data is kept; the runtime
/// never touches it directly.
pub trait Repository: Sized + Clone {

}

} // verus!
