use clserver::paths::{config_file, config_file_in, join_path, log_file, log_file_in, PathsError};

#[test]
fn joins_paths_like_pathbuf() {
    assert_eq!(join_path("/srv", "survival"), "/srv/survival");
    assert_eq!(join_path("/srv/", "survival"), "/srv/survival");
    assert_eq!(join_path("/srv", "/abs"), "/abs");
    assert_eq!(join_path("", "rel"), "rel");
}

#[test]
fn places_config_and_log_files() {
    assert_eq!(config_file_in("/home/u/.config"), "/home/u/.config/clserver/clserver.toml");
    assert_eq!(log_file_in("/home/u/.local/state", "clserver"), "/home/u/.local/state/clserver/clserver.log");
    match config_file() {
        Ok(p) => assert!(p.ends_with("/clserver/clserver.toml")),
        Err(e) => assert_eq!(e, PathsError::NoConfigDirectory),
    }
    match log_file("clserver") {
        Ok(p) => assert!(p.ends_with("/clserver/clserver.log")),
        Err(e) => assert_eq!(e, PathsError::NoStateDirectory),
    }
}
