//! Reload-safe dynamic library management: a watched library file is copied to
//! a uniquely named artifact, loaded, and swapped for a newer version when the
//! file's content changes.
//!
//! The crate verifies the decision core of that process: platform file naming,
//! content fingerprints, the pending-change flag, the generation counter, and
//! the about-to-reload / reloaded notification handshake. The host process
//! performs the filesystem and loader effects and feeds their outcomes back
//! into these verified transitions.

pub mod error;
pub mod lib_reload_events;
pub mod lib_reloader;
pub mod paths;
pub mod util;

pub use error::HotReloaderError;
pub use lib_reload_events::{BlockReload, ChangedEvent, LibReloadNotifier, LibReloadObserver};
pub use lib_reloader::LibReloader;
pub use paths::Platform;
