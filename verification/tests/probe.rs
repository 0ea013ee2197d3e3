use std::path::Path;

use clife::probe::{create_root_folder, detect_root_folder, Config, FsError, FsErrorKind};

/// Asks the operating system whether `path` is there.
fn probe(path: &str) -> Result<bool, FsErrorKind> {
    Path::new(path).try_exists().map_err(|error| match error.kind() {
        std::io::ErrorKind::NotFound => FsErrorKind::NotFound,
        std::io::ErrorKind::PermissionDenied => FsErrorKind::PermissionDenied,
        _ => FsErrorKind::Other,
    })
}

#[test]
fn test_detect_root_folder_exists() {
    let config = Config { root_dir: String::from("/home") };
    let result = detect_root_folder(&config, probe(&config.root_dir));
    assert_eq!(result, Ok(true))
}

#[test]
fn test_detect_root_folder_not_exists() {
    let config = Config { root_dir: String::from("~/nonsense_folder_ntuyfwntw/") };
    let result = detect_root_folder(&config, probe(&config.root_dir));
    assert_eq!(result, Ok(false))
}

#[test]
fn detect_root_folder_passes_the_probe_on() {
    let config = Config { root_dir: String::from("/somewhere/notes") };
    assert_eq!(detect_root_folder(&config, Ok(true)), Ok(true));
    assert_eq!(detect_root_folder(&config, Ok(false)), Ok(false));
}

#[test]
fn detect_root_folder_reports_a_failed_probe_on_the_root() {
    let config = Config { root_dir: String::from("/locked/notes") };
    let result = detect_root_folder(&config, Err(FsErrorKind::PermissionDenied));
    assert_eq!(
        result,
        Err(FsError { kind: FsErrorKind::PermissionDenied, path: String::from("/locked/notes") })
    );
    let result = detect_root_folder(&config, Err(FsErrorKind::Other));
    assert_eq!(
        result,
        Err(FsError { kind: FsErrorKind::Other, path: String::from("/locked/notes") })
    );
}

#[test]
fn create_root_folder_passes_success_on() {
    let config = Config { root_dir: String::from("/home/someone/.clife") };
    assert_eq!(create_root_folder(&config, Ok(())), Ok(()));
}

#[test]
fn create_root_folder_does_not_hide_a_failure() {
    let config = Config { root_dir: String::from("/home/someone/.clife") };
    assert_eq!(
        create_root_folder(&config, Err(FsErrorKind::NotFound)),
        Err(FsError { kind: FsErrorKind::NotFound, path: String::from("/home/someone/.clife") })
    );
}
