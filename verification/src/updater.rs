//! Applying one resolved bundle: extract, retire, patch, tally.

use vstd::prelude::*;

use crate::deletefiles::{spec_removed_count, DeleteFiles};
use crate::error::Error;
use crate::hdiffmap::{spec_success_count, DiffEntry, HDiffMap};
use crate::tool::{ExtractOutcome, Extractor, FileRemover, PatchTool, RemoveOutcome, ToolOutcome};

verus! {

/// One bundle's tally: how many listed files were deleted and how many
/// entries were patched. Purely observational; nothing persists it.
#[derive(Clone, Copy, Debug, PartialEq, Eq, Structural)]
pub struct ApplicationResult {
    pub deleted_count: u32,
    pub patched_count: u32,
}

/// Applies one bundle against the installation root: unpacks the bundle's
/// payload over the root, retires the files its deletion list names, then
/// patches every manifest entry. Extraction failure aborts the bundle with
/// `Error::Extraction` before anything else runs, and is the only error:
/// an absent deletion list and per-entry misses of either kind are
/// non-fatal and only shape the outcomes. On success the two passes'
/// per-entry outcomes come back — one removal outcome per deletion-list
/// line, one tool outcome per manifest entry — and the tally counts
/// exactly the removals and patch successes among them.
pub fn run_updater<E: Extractor, R: FileRemover + Sync, T: PatchTool + Sync>(
    extractor: &E,
    remover: &R,
    tool: &T,
    game_path: &String,
    hpatchz_path: &String,
    hdiff_archive: &String,
    deletefiles_path: &String,
    deletion_list: Option<&Vec<String>>,
    manifest: &Vec<DiffEntry>,
) -> (r: Result<(ApplicationResult, Vec<RemoveOutcome>, Vec<ToolOutcome>), Error>)
    requires
        manifest@.len() <= u32::MAX,
        deletion_list matches Some(l) ==> l@.len() <= u32::MAX,
    ensures
        match r {
            Ok((res, removals, patches)) => patches@.len() == manifest@.len()
                && res.patched_count == spec_success_count(patches@) && (match deletion_list {
                Some(l) => removals@.len() == l@.len(),
                None => removals@.len() == 0,
            }) && res.deleted_count == spec_removed_count(removals@),
            Err(e) => e matches Error::Extraction(_),
        },
{
    match extractor.extract_hdiff_to(hdiff_archive, game_path) {
        ExtractOutcome::Extracted => {},
        ExtractOutcome::Failed(message) => {
            return Err(Error::Extraction(message));
        },
    }
    let mut delete_files = DeleteFiles::new(game_path.clone());
    let removals = match delete_files.remove(remover, deletefiles_path, deletion_list) {
        Ok(outcomes) => outcomes,
        Err(_) => {
            // Only an absent deletion list: an acceptable state, nothing
            // retired.
            Vec::new()
        },
    };
    let mut hdiff_map = HDiffMap::new(game_path.clone(), hpatchz_path.clone());
    let patches = hdiff_map.patch(tool, remover, manifest);
    let result = ApplicationResult {
        deleted_count: delete_files.count(),
        patched_count: hdiff_map.count(),
    };
    proof {
        assert(spec_removed_count(Seq::<RemoveOutcome>::empty()) == 0);
    }
    Ok((result, removals, patches))
}

} // verus!
