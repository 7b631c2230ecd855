//! Errors of the reload manager.

use vstd::prelude::*;

verus! {

/// What can go wrong while setting up, reloading, or resolving symbols.
///
/// Failures of the filesystem and of the dynamic loader reach the library as
/// plain messages, carried by the variant that classifies them.
#[derive(Debug, Clone, PartialEq, Eq)]
pub enum HotReloaderError {
    /// The lock guarding the loaded library could not be taken.
    CannotLockLibrary(String),
    /// Copying the watched file to its load artifact failed.
    LibraryCopyError(String),
    /// The dynamic loader refused the new image.
    LibraryLoadError(String),
    /// No library image is currently loaded.
    LibraryNotLoaded,
}

/// The description of `e`: a fixed phrase per variant, followed by the
/// carried message where there is one.
pub open spec fn error_message(e: HotReloaderError) -> Seq<char> {
    match e {
        HotReloaderError::CannotLockLibrary(m) => "Cannot lock library: "@ + m@,
        HotReloaderError::LibraryCopyError(m) => "Unable to copy library file: "@ + m@,
        HotReloaderError::LibraryLoadError(m) => "Unable to load library: "@ + m@,
        HotReloaderError::LibraryNotLoaded => {
            "The hot reloadable library has not been loaded. Has it not been built yet?"@
        },
    }
}

impl HotReloaderError {
    /// Renders the error for display.
    pub fn message(&self) -> (r: String)
        ensures
            r@ == error_message(*self),
    {
        match self {
            HotReloaderError::CannotLockLibrary(m) => {
                let mut r = String::from_str("Cannot lock library: ");
                r.append(m.as_str());
                r
            },
            HotReloaderError::LibraryCopyError(m) => {
                let mut r = String::from_str("Unable to copy library file: ");
                r.append(m.as_str());
                r
            },
            HotReloaderError::LibraryLoadError(m) => {
                let mut r = String::from_str("Unable to load library: ");
                r.append(m.as_str());
                r
            },
            HotReloaderError::LibraryNotLoaded => {
                String::from_str(
                    "The hot reloadable library has not been loaded. Has it not been built yet?",
                )
            },
        }
    }
}

} // verus!
