use hdiff_apply::binary_version::BinaryVersion;
use hdiff_apply::error::Error;
use hdiff_apply::tool::join_path;
use hdiff_apply::utils::{
    confirmation_choice, determine_game_path, get_update_archives, is_archive_path,
    verify_hdiff_version,
};

fn v(major: u32, minor: u32, patch: u32) -> BinaryVersion {
    BinaryVersion { major_version: major, minor_version: minor, patch_version: patch }
}

#[test]
fn direct_successor_is_patch_plus_one_only() {
    // isDirectSuccessor(a, b) holds exactly when major and minor agree and
    // b's patch is a's plus one; any major or minor change breaks it.
    assert!(verify_hdiff_version(&v(1, 2, 3), &v(1, 2, 4)));
    assert!(!verify_hdiff_version(&v(1, 2, 3), &v(1, 2, 5)));
    assert!(!verify_hdiff_version(&v(1, 2, 3), &v(1, 2, 3)));
    assert!(!verify_hdiff_version(&v(1, 2, 3), &v(1, 3, 4)));
    assert!(!verify_hdiff_version(&v(1, 2, 3), &v(2, 2, 4)));
    assert!(!verify_hdiff_version(&v(1, 2, 4), &v(1, 2, 3)));
    assert!(!verify_hdiff_version(&v(u32::MAX, 0, u32::MAX), &v(u32::MAX, 0, 0)));
}

#[test]
fn archives_are_picked_by_extension_case_blind() {
    let paths: Vec<String> = vec![
        "game/update.7z".to_string(),
        "game/update.ZIP".to_string(),
        "game/notes.txt".to_string(),
        "game/update.Rar".to_string(),
        "game/archive.tAr".to_string(),
        "game/binary".to_string(),
    ];
    let r = get_update_archives(&paths).unwrap();
    assert_eq!(
        r,
        vec![
            "game/update.7z".to_string(),
            "game/update.ZIP".to_string(),
            "game/update.Rar".to_string(),
            "game/archive.tAr".to_string(),
        ]
    );
}

#[test]
fn no_archive_is_the_distinguished_error() {
    let paths: Vec<String> = vec!["a.txt".to_string(), "b.exe".to_string()];
    assert_eq!(get_update_archives(&paths), Err(Error::ArchiveNotFound()));
    assert_eq!(get_update_archives(&vec![]), Err(Error::ArchiveNotFound()));
}

#[test]
fn extension_reading_matches_path_semantics() {
    assert!(is_archive_path("a.7z"));
    assert!(is_archive_path("dir\\nested\\a.zip"));
    assert!(is_archive_path("dir/a.tar"));
    // A leading dot hides the file: it opens no extension.
    assert!(!is_archive_path(".7z"));
    assert!(!is_archive_path("dir/.rar"));
    // The extension is read off the final component only.
    assert!(!is_archive_path("dir.7z/file"));
    assert!(!is_archive_path("file.7zz"));
    assert!(!is_archive_path("file."));
    assert!(!is_archive_path(""));
    assert!(is_archive_path("double.ext.7z"));
}

#[test]
fn explicit_game_path_wins() {
    let r = determine_game_path(Some("given".to_string()), "cwd".to_string(), false);
    assert_eq!(r, Ok("given".to_string()));
}

#[test]
fn cwd_stands_only_with_the_client_exe() {
    assert_eq!(
        determine_game_path(None, "cwd".to_string(), true),
        Ok("cwd".to_string())
    );
    assert_eq!(
        determine_game_path(None, "cwd".to_string(), false),
        Err(Error::PathNotFound("cwd".to_string()))
    );
}

#[test]
fn confirmation_reads_yes_and_no() {
    assert!(confirmation_choice("y", false));
    assert!(confirmation_choice("yes", false));
    assert!(!confirmation_choice("n", true));
    assert!(!confirmation_choice("no", true));
    assert!(confirmation_choice("", true));
    assert!(!confirmation_choice("", false));
    assert!(confirmation_choice("whatever", true));
}

#[test]
fn join_path_inserts_one_separator() {
    assert_eq!(join_path("root", "a/b.bin"), "root/a/b.bin");
    assert_eq!(join_path("", ""), "/");
}

#[test]
fn component_errors_convert_into_the_run_error() {
    let e = Error::from(hdiff_apply::deletefiles::DeleteFileError::NotFound("x".to_string()));
    assert!(matches!(e, Error::DeleteFileError(_)));
    let e2 = Error::from(hdiff_apply::hdiffmap::PatchError::Json());
    assert!(matches!(e2, Error::PatchError(_)));
}
