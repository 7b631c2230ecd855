//! The reload manager: watches one library file (through a host-run watcher),
//! tracks the pending-change flag and the content fingerprint, and drives the
//! unload/copy/reload cycle with a monotonically growing generation counter.
//!
//! The manager here is the decision core. The host performs the filesystem
//! and loader effects — copying the watched file, reading its bytes, loading
//! and unloading images, deleting stale artifacts — and feeds each outcome
//! into the transition that records it. Every transition is verified against
//! the abstract state [`ReloaderView`].

use vstd::prelude::*;

use crate::error::HotReloaderError;
use crate::paths::{
    artifact_file_name, join_path, lib_file_name, watched_and_loaded_library_paths, Platform,
};

verus! {

/// The name of what `crc32fast::hash` returns: the CRC-32 (IEEE) checksum,
/// a function of the bytes alone.
pub uninterp spec fn crc32_of(bytes: Seq<u8>) -> u32;

/// Relies on `crc32fast::hash`: computes the CRC-32 (IEEE) checksum of the
/// given bytes, which depends on the bytes alone.
#[verifier::external_body]
fn crc32(data: &Vec<u8>) -> (r: u32)
    ensures
        r == crc32_of(data@),
{
    crc32fast::hash(data)
}

/// The fingerprint of the watched file: the checksum of its bytes, or 0
/// where the file could not be read.
pub fn hash_file_bytes(content: Option<&Vec<u8>>) -> (r: u32)
    ensures
        match content {
            Some(bytes) => r == crc32_of(bytes@),
            None => r == 0,
        },
{
    match content {
        Some(bytes) => crc32(bytes),
        None => 0,
    }
}

/// A filesystem event concerning the watched file, as the watcher thread
/// classifies it.
#[derive(Clone, Copy, Debug, PartialEq, Eq, Structural)]
pub enum WatchEvent {
    Create,
    Write,
    Chmod,
    Remove,
    Other,
}

/// What the watcher must do with an event.
#[derive(Clone, Copy, Debug, PartialEq, Eq, Structural)]
pub enum WatchAction {
    /// Recompute the fingerprint and signal a change if it differs.
    CheckForChange,
    /// Re-establish the lost watch, then check for a change.
    RewatchAndCheck,
    /// Nothing: the event cannot affect the loaded image.
    Ignore,
}

/// The watcher's response to each event kind: creation, writes and
/// attribute changes may carry new content; a removal loses the watch and
/// the file may be replaced; everything else is noise.
pub open spec fn spec_watch_action(e: WatchEvent) -> WatchAction {
    match e {
        WatchEvent::Create => WatchAction::CheckForChange,
        WatchEvent::Write => WatchAction::CheckForChange,
        WatchEvent::Chmod => WatchAction::CheckForChange,
        WatchEvent::Remove => WatchAction::RewatchAndCheck,
        WatchEvent::Other => WatchAction::Ignore,
    }
}

/// Decides how the watcher handles the event `e`.
pub fn watch_event_action(e: WatchEvent) -> (r: WatchAction)
    ensures
        r == spec_watch_action(e),
{
    match e {
        WatchEvent::Create => WatchAction::CheckForChange,
        WatchEvent::Write => WatchAction::CheckForChange,
        WatchEvent::Chmod => WatchAction::CheckForChange,
        WatchEvent::Remove => WatchAction::RewatchAndCheck,
        WatchEvent::Other => WatchAction::Ignore,
    }
}

/// The abstract state of a [`LibReloader`].
pub struct ReloaderView {
    /// How many successful reloads have happened; generation of the current
    /// artifact.
    pub load_counter: u64,
    /// The directory holding the watched library.
    pub lib_dir: Seq<char>,
    /// The logical library name, without prefix and extension.
    pub lib_name: Seq<char>,
    /// Decides the file-name prefix and extension.
    pub platform: Platform,
    /// Whether a content change is pending, waiting for `update`.
    pub changed: bool,
    /// Whether a library image is currently loaded.
    pub loaded: bool,
    /// The path of the watched library file.
    pub watched_lib_file: Seq<char>,
    /// The path of the artifact of generation `load_counter`.
    pub loaded_lib_file: Seq<char>,
    /// The fingerprint of the content last copied and loaded; 0 before any
    /// load.
    pub lib_file_hash: u32,
}

impl ReloaderView {
    /// Well-formedness: the two paths are the ones the naming scheme gives
    /// for the directory, name, platform and generation.
    pub open spec fn wf(self) -> bool {
        &&& self.watched_lib_file == join_path(
            self.lib_dir,
            lib_file_name(self.platform, self.lib_name),
        )
        &&& self.loaded_lib_file == join_path(
            self.lib_dir,
            artifact_file_name(self.platform, self.lib_name, self.load_counter as nat),
        )
    }
}

/// The watcher's change-signal step: with a freshly computed fingerprint
/// `h`, a change is recorded only if `h` differs from the stored fingerprint
/// and no change is already pending (multiple events coalesce into one).
pub open spec fn spec_signal_change(v: ReloaderView, h: u32) -> (ReloaderView, bool) {
    if h == v.lib_file_hash || v.changed {
        (v, false)
    } else {
        (ReloaderView { changed: true, ..v }, true)
    }
}

/// The update poll: consumes the pending-change flag and reports whether a
/// reload must now be performed; everything else is untouched.
pub open spec fn spec_update(v: ReloaderView) -> (ReloaderView, bool) {
    (ReloaderView { changed: false, ..v }, v.changed)
}

/// A successful reload with content fingerprint `h`: the generation counter
/// advances by one, the artifact path moves to the new generation, the new
/// image is current.
pub open spec fn spec_complete_reload(v: ReloaderView, h: u32) -> ReloaderView {
    ReloaderView {
        load_counter: (v.load_counter + 1) as u64,
        loaded: true,
        loaded_lib_file: join_path(
            v.lib_dir,
            artifact_file_name(v.platform, v.lib_name, (v.load_counter + 1) as nat),
        ),
        lib_file_hash: h,
        ..v
    }
}

/// An update poll with no pending change reports "no change" and leaves the
/// manager exactly as it was.
pub proof fn lemma_update_without_change_is_noop(v: ReloaderView)
    requires
        !v.changed,
    ensures
        spec_update(v) == (v, false),
{
}

/// A write of new content becomes visible exactly once: the poll before the
/// change sees nothing, the first poll after the watcher signals it reports
/// a reload, and the next poll reports "no change" again.
pub proof fn lemma_reload_visible_exactly_once(v: ReloaderView, h: u32)
    requires
        !v.changed,
        h != v.lib_file_hash,
    ensures
        ({
            let (v0, r0) = spec_update(v);
            let (v1, r1) = spec_signal_change(v0, h);
            let (v2, r2) = spec_update(v1);
            let (v3, r3) = spec_update(v2);
            !r0 && v0 == v && r1 && r2 && !r3 && v3 == v2
        }),
{
}

/// An event that leaves the file's content with the stored fingerprint
/// signals nothing, and the following update poll reports "no change".
pub proof fn lemma_fingerprint_suppresses_false_positives(v: ReloaderView)
    requires
        !v.changed,
    ensures
        spec_signal_change(v, v.lib_file_hash) == (v, false),
        !spec_update(spec_signal_change(v, v.lib_file_hash).0).1,
{
}

/// Two consecutive update polls never both report a reload: whatever the
/// state, the second poll finds the flag consumed.
pub proof fn lemma_consecutive_updates_report_once(v: ReloaderView)
    ensures
        !spec_update(spec_update(v).0).1,
{
}

/// The state after `hashes.len()` successive successful reloads.
pub open spec fn spec_reload_n(v: ReloaderView, hashes: Seq<u32>) -> ReloaderView
    decreases hashes.len(),
{
    if hashes.len() == 0 {
        v
    } else {
        spec_reload_n(spec_complete_reload(v, hashes[0]), hashes.skip(1))
    }
}

/// The generation counter is monotonic and counts reloads: after `n`
/// successful reloads it has advanced by exactly `n`, and the current
/// artifact carries that generation in its name.
pub proof fn lemma_generation_counter_monotonic(v: ReloaderView, hashes: Seq<u32>)
    requires
        v.load_counter + hashes.len() <= u64::MAX,
    ensures
        ({
            let w = spec_reload_n(v, hashes);
            &&& w.load_counter == v.load_counter + hashes.len()
            &&& w.lib_dir == v.lib_dir
            &&& w.lib_name == v.lib_name
            &&& w.platform == v.platform
            &&& hashes.len() > 0 ==> w.loaded && w.loaded_lib_file == join_path(
                v.lib_dir,
                artifact_file_name(
                    v.platform,
                    v.lib_name,
                    (v.load_counter + hashes.len()) as nat,
                ),
            )
        }),
    decreases hashes.len(),
{
    if hashes.len() > 0 {
        lemma_generation_counter_monotonic(spec_complete_reload(v, hashes[0]), hashes.skip(1));
    }
}

/// Before the `i`-th of a run of successful reloads, the artifact of
/// generation `load_counter + i` is the loaded one — so it is exactly the
/// artifact that the `i`-th reload reports as superseded, for the host to
/// delete. Together with the counter law this leaves, after `n` reloads,
/// only the artifact of the final generation: all earlier ones have been
/// handed over for deletion.
pub proof fn lemma_each_reload_supersedes_previous_artifact(v: ReloaderView, hashes: Seq<u32>)
    requires
        v.wf(),
        v.loaded,
        v.load_counter + hashes.len() <= u64::MAX,
    ensures
        forall|i: int|
            0 <= i < hashes.len() ==> {
                let w = spec_reload_n(v, #[trigger] hashes.take(i));
                &&& w.loaded
                &&& w.loaded_lib_file == join_path(
                    v.lib_dir,
                    artifact_file_name(v.platform, v.lib_name, (v.load_counter + i) as nat),
                )
            },
{
    assert forall|i: int| 0 <= i < hashes.len() implies {
        let w = spec_reload_n(v, #[trigger] hashes.take(i));
        &&& w.loaded
        &&& w.loaded_lib_file == join_path(
            v.lib_dir,
            artifact_file_name(v.platform, v.lib_name, (v.load_counter + i) as nat),
        )
    } by {
        if i == 0 {
            assert(hashes.take(0) =~= Seq::<u32>::empty());
            assert(spec_reload_n(v, hashes.take(0)) == v);
        } else {
            lemma_generation_counter_monotonic(v, hashes.take(i));
        }
    }
}

/// Manages one watched library: pending-change flag, content fingerprint,
/// generation counter, and the paths derived from them.
pub struct LibReloader {
    load_counter: u64,
    lib_dir: String,
    lib_name: String,
    platform: Platform,
    changed: bool,
    loaded: bool,
    watched_lib_file: String,
    loaded_lib_file: String,
    lib_file_hash: u32,
}

impl View for LibReloader {
    type V = ReloaderView;

    closed spec fn view(&self) -> ReloaderView {
        ReloaderView {
            load_counter: self.load_counter,
            lib_dir: self.lib_dir@,
            lib_name: self.lib_name@,
            platform: self.platform,
            changed: self.changed,
            loaded: self.loaded,
            watched_lib_file: self.watched_lib_file@,
            loaded_lib_file: self.loaded_lib_file@,
            lib_file_hash: self.lib_file_hash,
        }
    }
}

impl LibReloader {
    /// Sets up the manager for the library `lib_name` in `lib_dir`.
    ///
    /// Where the watched file existed, the host has already copied it to the
    /// generation-0 artifact, loaded that image, and passes the fingerprint
    /// of the copied bytes as `initial_hash`; where it did not — the library
    /// has not been built yet — it passes `None` and the manager starts with
    /// no library loaded.
    pub fn new(lib_dir: &str, lib_name: &str, platform: Platform, initial_hash: Option<u32>) -> (r:
        Self)
        ensures
            r@.wf(),
            r@.lib_dir == lib_dir@,
            r@.lib_name == lib_name@,
            r@.platform == platform,
            r@.load_counter == 0,
            !r@.changed,
            r@.loaded == initial_hash is Some,
            r@.lib_file_hash == match initial_hash {
                Some(h) => h,
                None => 0u32,
            },
    {
        let (watched_lib_file, loaded_lib_file) = watched_and_loaded_library_paths(
            lib_dir,
            lib_name,
            0,
            platform,
        );
        let (loaded, lib_file_hash) = match initial_hash {
            Some(h) => (true, h),
            None => (false, 0),
        };
        LibReloader {
            load_counter: 0,
            lib_dir: String::from_str(lib_dir),
            lib_name: String::from_str(lib_name),
            platform,
            changed: false,
            loaded,
            watched_lib_file,
            loaded_lib_file,
            lib_file_hash,
        }
    }

    /// The watcher's change-signal step. `current_hash` is the fingerprint
    /// of the watched file as it is now; returns whether a change was
    /// recorded. A fingerprint equal to the stored one, or an already
    /// pending change, records nothing.
    pub fn signal_change(&mut self, current_hash: u32) -> (r: bool)
        ensures
            (final (self)@, r) == spec_signal_change(old(self)@, current_hash),
            current_hash == old(self)@.lib_file_hash ==> final (self)@ == old(self)@ && !r,
    {
        if current_hash == self.lib_file_hash || self.changed {
            return false;
        }
        self.changed = true;
        true
    }

    /// The update poll: reports whether a change is pending and consumes the
    /// flag. When nothing is pending this is a no-op: the manager is left
    /// exactly as it was. When `true` is returned the host must now run the
    /// reload cycle and record its outcome with [`Self::complete_reload`] or
    /// [`Self::mark_watched_file_missing`].
    pub fn update(&mut self) -> (r: bool)
        ensures
            (final (self)@, r) == spec_update(old(self)@),
            !old(self)@.changed ==> final (self)@ == old(self)@ && !r,
    {
        let was_changed = self.changed;
        self.changed = false;
        was_changed
    }

    /// The path the artifact of the next generation will have.
    pub fn next_loaded_lib_file(&self) -> (r: String)
        requires
            self@.load_counter < u64::MAX,
        ensures
            r@ == join_path(
                self@.lib_dir,
                artifact_file_name(self@.platform, self@.lib_name, (self@.load_counter + 1) as nat),
            ),
    {
        let (_, next) = watched_and_loaded_library_paths(
            self.lib_dir.as_str(),
            self.lib_name.as_str(),
            self.load_counter + 1,
            self.platform,
        );
        next
    }

    /// Records a successful reload: the host copied the watched file to the
    /// next-generation artifact (fingerprint `new_hash`) and loaded it, and
    /// the previous image is closed. Returns the path of the superseded
    /// artifact, which the host must delete, or `None` where no image was
    /// loaded before.
    pub fn complete_reload(&mut self, new_hash: u32) -> (stale: Option<String>)
        requires
            old(self)@.load_counter < u64::MAX,
        ensures
            final (self)@ == spec_complete_reload(old(self)@, new_hash),
            final (self)@.load_counter == old(self)@.load_counter + 1,
            old(self)@.wf() ==> final (self)@.wf(),
            match stale {
                Some(p) => old(self)@.loaded && p@ == old(self)@.loaded_lib_file,
                None => !old(self)@.loaded,
            },
    {
        let stale = if self.loaded {
            Some(self.loaded_lib_file.clone())
        } else {
            None
        };
        self.load_counter = self.load_counter + 1;
        let (_, loaded_lib_file) = watched_and_loaded_library_paths(
            self.lib_dir.as_str(),
            self.lib_name.as_str(),
            self.load_counter,
            self.platform,
        );
        self.loaded_lib_file = loaded_lib_file;
        self.loaded = true;
        self.lib_file_hash = new_hash;
        stale
    }

    /// Records that a pending reload found the watched file gone: the host
    /// closed the current image and the manager is left with no library
    /// loaded. Returns the path of the now stale artifact, which the host
    /// must delete, or `None` where no image was loaded.
    pub fn mark_watched_file_missing(&mut self) -> (stale: Option<String>)
        ensures
            final (self)@ == (ReloaderView { loaded: false, ..old(self)@ }),
            match stale {
                Some(p) => old(self)@.loaded && p@ == old(self)@.loaded_lib_file,
                None => !old(self)@.loaded,
            },
    {
        let stale = if self.loaded {
            Some(self.loaded_lib_file.clone())
        } else {
            None
        };
        self.loaded = false;
        stale
    }

    /// The path of the watched library file.
    pub fn watched_lib_file(&self) -> (r: &String)
        ensures
            r@ == self@.watched_lib_file,
    {
        &self.watched_lib_file
    }

    /// The path of the artifact of the current generation.
    pub fn loaded_lib_file(&self) -> (r: &String)
        ensures
            r@ == self@.loaded_lib_file,
    {
        &self.loaded_lib_file
    }

    /// Whether a library image is currently loaded.
    pub fn is_loaded(&self) -> (r: bool)
        ensures
            r == self@.loaded,
    {
        self.loaded
    }

    /// Whether a content change is pending, waiting for [`Self::update`].
    pub fn update_pending(&self) -> (r: bool)
        ensures
            r == self@.changed,
    {
        self.changed
    }

    /// How many successful reloads have happened.
    pub fn load_counter(&self) -> (r: u64)
        ensures
            r == self@.load_counter,
    {
        self.load_counter
    }

    /// The fingerprint of the content last copied and loaded.
    pub fn lib_file_hash(&self) -> (r: u32)
        ensures
            r == self@.lib_file_hash,
    {
        self.lib_file_hash
    }

    /// The generation of the currently loaded image, for a symbol lookup
    /// bound to the current version — or `LibraryNotLoaded` where no image
    /// is loaded, as when the watched file has never been built.
    pub fn loaded_library_generation(&self) -> (r: Result<u64, HotReloaderError>)
        ensures
            self@.loaded ==> r == Ok::<u64, HotReloaderError>(self@.load_counter),
            !self@.loaded ==> r == Err::<u64, HotReloaderError>(HotReloaderError::LibraryNotLoaded),
    {
        if self.loaded {
            Ok(self.load_counter)
        } else {
            Err(HotReloaderError::LibraryNotLoaded)
        }
    }
}

} // verus!
