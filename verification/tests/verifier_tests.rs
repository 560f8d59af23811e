use hdiff_apply::error::Error;
use hdiff_apply::hdiffmap::DiffEntry;
use hdiff_apply::tool::SizeOutcome;
use hdiff_apply::integrity::Verifier;

fn sized_entry(source: &str, size: Option<u64>) -> DiffEntry {
    DiffEntry {
        source_file_name: source.to_string(),
        target_file_name: source.to_string(),
        patch_file_name: format!("{}.hdiff", source),
        source_file_size: size,
    }
}

#[test]
fn exact_size_verifies() {
    // An entry expecting N bytes against a source of exactly N bytes.
    let verifier = Verifier::new("root".to_string(), "hdiffmap.json".to_string());
    let manifest = vec![sized_entry("a.bin", Some(1024))];
    let sizes = vec![SizeOutcome::Size(1024)];
    assert_eq!(verifier.by_file_size(&manifest, &sizes), Ok(true));
}

#[test]
fn off_by_one_sizes_fail() {
    let verifier = Verifier::new("root".to_string(), "hdiffmap.json".to_string());
    let manifest = vec![sized_entry("a.bin", Some(1024))];
    assert_eq!(
        verifier.by_file_size(&manifest, &vec![SizeOutcome::Size(1023)]),
        Ok(false)
    );
    assert_eq!(
        verifier.by_file_size(&manifest, &vec![SizeOutcome::Size(1025)]),
        Ok(false)
    );
}

#[test]
fn first_mismatch_decides() {
    let verifier = Verifier::new("root".to_string(), "m.json".to_string());
    let manifest = vec![
        sized_entry("a.bin", Some(10)),
        sized_entry("b.bin", Some(20)),
    ];
    // The second entry's probe failed, but the first mismatch is reached
    // first and decides the verdict without raising the I/O error.
    let sizes = vec![
        SizeOutcome::Size(11),
        SizeOutcome::IoError("unreadable".to_string()),
    ];
    assert_eq!(verifier.by_file_size(&manifest, &sizes), Ok(false));
}

#[test]
fn unknown_sizes_are_skipped_not_failed() {
    let verifier = Verifier::new("root".to_string(), "m.json".to_string());
    let manifest = vec![
        sized_entry("a.bin", None),
        sized_entry("b.bin", Some(5)),
    ];
    let sizes = vec![
        SizeOutcome::IoError("never probed".to_string()),
        SizeOutcome::Size(5),
    ];
    assert_eq!(verifier.by_file_size(&manifest, &sizes), Ok(true));
}

#[test]
fn unreadable_source_raises_io() {
    let verifier = Verifier::new("root".to_string(), "m.json".to_string());
    let manifest = vec![sized_entry("a.bin", Some(10))];
    let sizes = vec![SizeOutcome::IoError("permission denied".to_string())];
    assert_eq!(
        verifier.by_file_size(&manifest, &sizes),
        Err(Error::Io("permission denied".to_string()))
    );
}

#[test]
fn empty_manifest_verifies() {
    let verifier = Verifier::new("root".to_string(), "m.json".to_string());
    assert_eq!(verifier.by_file_size(&vec![], &vec![]), Ok(true));
}

#[test]
fn new_verifier_keeps_its_paths() {
    let verifier = Verifier::new("root".to_string(), "m.json".to_string());
    assert_eq!(verifier.game_path, "root");
    assert_eq!(verifier.hdiff_map_path, "m.json");
}
