use std::sync::Mutex;

use hdiff_apply::error::Error;
use hdiff_apply::hdiffmap::DiffEntry;
use hdiff_apply::tool::{
    ExtractOutcome, Extractor, FileRemover, PatchTool, RemoveOutcome, ToolOutcome,
};

use hdiff_apply::updater::run_updater;

struct HappyExtractor;

impl Extractor for HappyExtractor {
    fn extract_hdiff_to(&self, _archive: &String, _dst: &String) -> ExtractOutcome {
        ExtractOutcome::Extracted
    }
}

struct BrokenExtractor;

impl Extractor for BrokenExtractor {
    fn extract_hdiff_to(&self, _archive: &String, _dst: &String) -> ExtractOutcome {
        ExtractOutcome::Failed("archive is corrupt".to_string())
    }
}

struct AllSucceedTool;

impl PatchTool for AllSucceedTool {
    fn apply(&self, _source: &String, _patch: &String, _target: &String) -> ToolOutcome {
        ToolOutcome::Success
    }
}

struct CountingRemover {
    calls: Mutex<u32>,
}

impl FileRemover for CountingRemover {
    fn remove(&self, _path: &String) -> RemoveOutcome {
        *self.calls.lock().unwrap() += 1;
        RemoveOutcome::Removed
    }
}

fn entry(source: &str, target: &str, patch: &str) -> DiffEntry {
    DiffEntry {
        source_file_name: source.to_string(),
        target_file_name: target.to_string(),
        patch_file_name: patch.to_string(),
        source_file_size: None,
    }
}

#[test]
fn one_bundle_tallies_deletions_and_patches() {
    let manifest = vec![
        entry("a.bin", "a.bin", "a.hdiff"),
        entry("b.bin", "c.bin", "b.hdiff"),
    ];
    let deletions = vec!["stale.bin".to_string(), "old.cfg".to_string()];
    let remover = CountingRemover { calls: Mutex::new(0) };
    let (r, removals, patches) = run_updater(
        &HappyExtractor,
        &remover,
        &AllSucceedTool,
        &"root".to_string(),
        &"hpatchz".to_string(),
        &"update.7z".to_string(),
        &"deletefiles.txt".to_string(),
        Some(&deletions),
        &manifest,
    )
    .unwrap();
    assert_eq!(r.deleted_count, 2);
    assert_eq!(r.patched_count, 2);
    assert_eq!(removals, vec![RemoveOutcome::Removed, RemoveOutcome::Removed]);
    assert_eq!(patches, vec![ToolOutcome::Success, ToolOutcome::Success]);
    // Two deletions, plus per entry the patch file and, for the renaming
    // entry, the source file.
    assert_eq!(*remover.calls.lock().unwrap(), 5);
}

#[test]
fn extraction_failure_aborts_the_bundle() {
    let remover = CountingRemover { calls: Mutex::new(0) };
    let r = run_updater(
        &BrokenExtractor,
        &remover,
        &AllSucceedTool,
        &"root".to_string(),
        &"hpatchz".to_string(),
        &"update.7z".to_string(),
        &"deletefiles.txt".to_string(),
        None,
        &vec![],
    );
    assert!(matches!(r, Err(Error::Extraction(ref m)) if m == "archive is corrupt"));
    assert_eq!(*remover.calls.lock().unwrap(), 0);
}

#[test]
fn absent_deletion_list_is_tolerated() {
    let manifest = vec![entry("a.bin", "a.bin", "a.hdiff")];
    let remover = CountingRemover { calls: Mutex::new(0) };
    let (r, removals, patches) = run_updater(
        &HappyExtractor,
        &remover,
        &AllSucceedTool,
        &"root".to_string(),
        &"hpatchz".to_string(),
        &"update.7z".to_string(),
        &"deletefiles.txt".to_string(),
        None,
        &manifest,
    )
    .unwrap();
    assert_eq!(r.deleted_count, 0);
    assert_eq!(r.patched_count, 1);
    assert!(removals.is_empty());
    assert_eq!(patches.len(), 1);
}
