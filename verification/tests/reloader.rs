use hot_lib_reloader::lib_reloader::hash_file_bytes;
use hot_lib_reloader::{HotReloaderError, LibReloader, Platform};

#[test]
fn fingerprint_matches_crc32_check_value() {
    let bytes: Vec<u8> = b"123456789".to_vec();
    assert_eq!(hash_file_bytes(Some(&bytes)), 0xCBF43926);
}

#[test]
fn fingerprint_of_unreadable_file_is_zero() {
    assert_eq!(hash_file_bytes(None), 0);
}

#[test]
fn fingerprint_depends_only_on_content() {
    let a: Vec<u8> = b"same bytes".to_vec();
    let b: Vec<u8> = b"same bytes".to_vec();
    let c: Vec<u8> = b"other bytes".to_vec();
    assert_eq!(hash_file_bytes(Some(&a)), hash_file_bytes(Some(&b)));
    assert_ne!(hash_file_bytes(Some(&a)), hash_file_bytes(Some(&c)));
}

#[test]
fn update_without_change_is_noop() {
    let mut m = LibReloader::new("target/debug", "lib", Platform::Linux, Some(11));
    assert!(!m.update());
    assert!(!m.update());
    assert!(m.is_loaded());
    assert_eq!(m.lib_file_hash(), 11);
    assert_eq!(m.loaded_lib_file().as_str(), "target/debug/liblib-hot-0.so");
}

#[test]
fn reload_visible_exactly_once_per_change() {
    let mut m = LibReloader::new("target/debug", "lib", Platform::Linux, Some(11));
    assert!(!m.update());
    assert!(m.signal_change(22));
    // a burst of further events before the poll coalesces into one change
    assert!(!m.signal_change(22));
    assert!(m.update());
    assert!(!m.update());
}

#[test]
fn fingerprint_suppresses_false_positives() {
    let mut m = LibReloader::new("target/debug", "lib", Platform::Linux, Some(11));
    // a touch that leaves the bytes as they are recomputes the same hash
    assert!(!m.signal_change(11));
    assert!(!m.update());
}

#[test]
fn generation_counter_counts_reloads() {
    let mut m = LibReloader::new("target/debug", "lib", Platform::Linux, Some(1));
    for generation in 1..=4u64 {
        assert!(m.signal_change(generation as u32 + 1));
        assert!(m.update());
        let next = m.next_loaded_lib_file();
        let stale = m.complete_reload(generation as u32 + 1);
        // the superseded artifact carries the previous generation and is
        // handed back for deletion
        let expected_stale = format!("target/debug/liblib-hot-{}.so", generation - 1);
        assert_eq!(stale.expect("an image was loaded").as_str(), expected_stale);
        let expected = format!("target/debug/liblib-hot-{}.so", generation);
        assert_eq!(next.as_str(), expected);
        assert_eq!(m.loaded_lib_file().as_str(), expected);
        assert_eq!(m.loaded_library_generation(), Ok(generation));
    }
}

#[test]
fn end_to_end_reload_scenario() {
    // the host would copy target/debug/liblib.so to the generation-0
    // artifact, load it, and hash its bytes
    let v3 = b"image returning 3".to_vec();
    let h0 = hash_file_bytes(Some(&v3));
    let mut m = LibReloader::new("target/debug", "lib", Platform::Linux, Some(h0));
    assert_eq!(m.loaded_library_generation(), Ok(0));
    assert_eq!(m.loaded_lib_file().as_str(), "target/debug/liblib-hot-0.so");

    // the library is rebuilt with new content; the watcher sees it
    let v5 = b"image returning 5".to_vec();
    let h1 = hash_file_bytes(Some(&v5));
    assert!(m.signal_change(h1));
    assert!(m.update());
    let stale = m.complete_reload(h1);

    // generation 0's artifact is gone (the host deletes the returned path);
    // generation 1's artifact is the loaded one
    assert_eq!(
        stale.expect("generation 0 was loaded").as_str(),
        "target/debug/liblib-hot-0.so"
    );
    assert_eq!(m.loaded_lib_file().as_str(), "target/debug/liblib-hot-1.so");
    assert_eq!(m.loaded_library_generation(), Ok(1));
    assert_eq!(m.lib_file_hash(), h1);
    assert!(!m.update());
}

#[test]
fn construction_without_library_file() {
    let mut m = LibReloader::new("target/debug", "lib", Platform::Linux, None);
    assert!(!m.is_loaded());
    assert_eq!(
        m.loaded_library_generation(),
        Err(HotReloaderError::LibraryNotLoaded)
    );

    // the first successful build appears and reloads
    let bytes = b"first build".to_vec();
    let h = hash_file_bytes(Some(&bytes));
    assert!(m.signal_change(h));
    assert!(m.update());
    let stale = m.complete_reload(h);
    assert_eq!(stale, None);
    assert_eq!(m.loaded_library_generation(), Ok(1));
}

#[test]
fn watched_file_removed_during_reload() {
    let mut m = LibReloader::new("target/debug", "lib", Platform::Linux, Some(5));
    assert!(m.signal_change(6));
    assert!(m.update());
    // the host finds the watched file gone: the handle is cleared and the
    // stale artifact handed back for deletion
    let stale = m.mark_watched_file_missing();
    assert_eq!(
        stale.expect("an image was loaded").as_str(),
        "target/debug/liblib-hot-0.so"
    );
    assert!(!m.is_loaded());
    assert_eq!(
        m.loaded_library_generation(),
        Err(HotReloaderError::LibraryNotLoaded)
    );
}

#[test]
fn error_messages() {
    assert_eq!(
        HotReloaderError::LibraryNotLoaded.message(),
        "The hot reloadable library has not been loaded. Has it not been built yet?"
    );
    assert_eq!(
        HotReloaderError::LibraryCopyError(String::from("disk full")).message(),
        "Unable to copy library file: disk full"
    );
    assert_eq!(
        HotReloaderError::LibraryLoadError(String::from("bad image")).message(),
        "Unable to load library: bad image"
    );
    assert_eq!(
        HotReloaderError::CannotLockLibrary(String::from("poisoned")).message(),
        "Cannot lock library: poisoned"
    );
}
