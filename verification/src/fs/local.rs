//! The file system of this machine, as one of the transports the editor can
//! read files through.  The reading itself happens in the application.
use vstd::prelude::*;

verus! {

/// The local file system.
pub struct FSLocal;

} // verus!
