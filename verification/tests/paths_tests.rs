use harnessd::paths::{join, runtime_dir, runtime_dir_under, same_path, socket_path, threads_path};
use std::path::Path;

#[test]
fn test_runtime_dir_returns_valid_path() {
    let dir = runtime_dir().expect("home directory");

    // Should not be empty
    assert!(!dir.is_empty());

    // Should end with "harnessd"
    assert!(dir.ends_with("harnessd"));
}

#[test]
fn test_runtime_dir_is_absolute() {
    let dir = runtime_dir().expect("home directory");
    assert!(Path::new(&dir).is_absolute());
}

#[test]
fn test_runtime_dir_on_unix() {
    let dir = runtime_dir().expect("home directory");

    // On Unix, should be under .local/share
    assert!(
        dir.contains(".local/share"),
        "Unix runtime dir should be under .local/share: {}",
        dir
    );
}

#[test]
fn runtime_files_live_in_the_runtime_dir() {
    let dir = runtime_dir().unwrap();
    assert_eq!(socket_path().unwrap(), format!("{dir}/daemon.sock"));
    assert_eq!(threads_path().unwrap(), format!("{dir}/threads.json"));
    assert_eq!(runtime_dir_under("/home/u"), "/home/u/.local/share/harnessd");
    assert_eq!(runtime_dir_under("/home/u/"), "/home/u/.local/share/harnessd");
}

#[test]
fn joins_and_compares_like_paths() {
    assert_eq!(join("/a", "b"), "/a/b");
    assert_eq!(join("/a/", "b"), "/a/b");
    assert_eq!(join("/a", "/b"), "/b");
    assert_eq!(join("", "b"), "b");
    assert!(same_path("/a//b/./c/", "/a/b/c"));
    assert!(same_path("./a", "./a/"));
    assert!(!same_path("./a", "a"));
    assert!(!same_path("/a", "a"));
    assert!(!same_path("/a/b", "/a/c"));
}
