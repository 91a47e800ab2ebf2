//! The errors of the library.
use vstd::prelude::*;

verus! {

/// What can go wrong in the window manager.
#[derive(Debug)]
pub enum ManagerError {
    /// A value could not be serialized to JSON.
    Json,
    /// The runtime does not accept the icon given to a window; its error.
    InvalidIcon(String),
    /// No asset is stored under the requested path.
    AssetNotFound(String),
}

} // verus!
