use hot_lib_reloader::paths::{ancestor_search_paths, decimal, watched_and_loaded_library_paths};
use hot_lib_reloader::Platform;

#[test]
fn watched_and_loaded_paths_linux() {
    let (watched, loaded) =
        watched_and_loaded_library_paths("target/debug", "lib", 0, Platform::Linux);
    assert_eq!(watched.as_str(), "target/debug/liblib.so");
    assert_eq!(loaded.as_str(), "target/debug/liblib-hot-0.so");
}

#[test]
fn watched_and_loaded_paths_macos() {
    let (watched, loaded) =
        watched_and_loaded_library_paths("target/debug", "game", 3, Platform::MacOs);
    assert_eq!(watched.as_str(), "target/debug/libgame.dylib");
    assert_eq!(loaded.as_str(), "target/debug/libgame-hot-3.dylib");
}

#[test]
fn watched_and_loaded_paths_windows() {
    let (watched, loaded) =
        watched_and_loaded_library_paths("target/debug", "game", 7, Platform::Windows);
    assert_eq!(watched.as_str(), "target/debug/game.dll");
    assert_eq!(loaded.as_str(), "target/debug/game-hot-7.dll");
}

#[test]
fn artifact_generation_multi_digit() {
    let (_, loaded) = watched_and_loaded_library_paths("d", "lib", 12, Platform::Linux);
    assert_eq!(loaded.as_str(), "d/liblib-hot-12.so");
}

#[test]
fn decimal_rendering() {
    assert_eq!(decimal(0).as_str(), "0");
    assert_eq!(decimal(9).as_str(), "9");
    assert_eq!(decimal(10).as_str(), "10");
    assert_eq!(decimal(907).as_str(), "907");
    assert_eq!(decimal(u64::MAX).as_str(), "18446744073709551615");
}

#[test]
fn ancestor_search_walks_up() {
    let candidates = ancestor_search_paths("/a/b/c", "target/debug");
    let expected = vec![
        "/a/b/c/target/debug",
        "/a/b/target/debug",
        "/a/target/debug",
        "/target/debug",
    ];
    assert_eq!(candidates.len(), expected.len());
    for (got, want) in candidates.iter().zip(expected.iter()) {
        assert_eq!(got.as_str(), *want);
    }
}

#[test]
fn ancestor_search_without_separator() {
    let candidates = ancestor_search_paths("somewhere", "lib.so");
    assert_eq!(candidates.len(), 1);
    assert_eq!(candidates[0].as_str(), "somewhere/lib.so");
}
