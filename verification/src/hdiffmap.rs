//! The diff manifest — one bundle's list of binary-patch entries — and the
//! executor that applies them.
//!
//! Entries are applied independently, on a worker pool, with no ordering
//! guarantees between them; the only shared state is the success tally.
//! This is sound on the documented assumption that the entries of one
//! manifest touch disjoint target files, a guarantee of the bundle
//! producer that is not re-validated here.

use rayon::iter::IntoParallelRefIterator;
use rayon::iter::ParallelIterator;
use vstd::prelude::*;

use crate::json::{diff_map_array, get_str_field, get_u64_field, rows_of, spec_row_of};
use crate::tool::{join_path, spec_join_path, FileRemover, PatchTool, ToolOutcome};

verus! {

/// Failure to obtain a usable manifest (per-entry patch failures are
/// tallied, not raised).
#[derive(Debug, Clone, PartialEq, Eq)]
pub enum PatchError {
    /// The manifest text was not a JSON object with a `diff_map` array of
    /// well-formed entries.
    Json(),
    /// The manifest file itself was absent.
    NotFound(String),
    Io(String),
}

/// One row of a manifest: patch `patch_file_name` turns `source_file_name`
/// into `target_file_name`; all three are paths relative to the
/// installation root, and the source may equal the target (in-place patch)
/// or differ (rename-on-patch). `source_file_size`, when known, is the
/// expected byte length of the source file before patching.
#[derive(Debug, Clone, PartialEq, Eq)]
pub struct DiffEntry {
    pub source_file_name: String,
    pub target_file_name: String,
    pub patch_file_name: String,
    pub source_file_size: Option<u64>,
}

/// Builds one manifest row from the pieces read out of its JSON object.
/// All three name fields must have been present as strings, and the size
/// field, if present at all (`Some`), must have been an unsigned integer
/// (`Some(Some(n))`); everything else is the structural manifest error.
pub fn entry_from_fields(
    source: Option<String>,
    target: Option<String>,
    patch: Option<String>,
    size_field: Option<Option<u64>>,
) -> (r: Result<DiffEntry, PatchError>)
    ensures
        match (source, target, patch, size_field) {
            (Some(s), Some(t), Some(p), None) => r == Ok::<DiffEntry, PatchError>(
                DiffEntry {
                    source_file_name: s,
                    target_file_name: t,
                    patch_file_name: p,
                    source_file_size: None,
                },
            ),
            (Some(s), Some(t), Some(p), Some(Some(n))) => r == Ok::<DiffEntry, PatchError>(
                DiffEntry {
                    source_file_name: s,
                    target_file_name: t,
                    patch_file_name: p,
                    source_file_size: Some(n),
                },
            ),
            _ => r == Err::<DiffEntry, PatchError>(PatchError::Json()),
        },
{
    match (source, target, patch, size_field) {
        (Some(s), Some(t), Some(p), None) => Ok(
            DiffEntry {
                source_file_name: s,
                target_file_name: t,
                patch_file_name: p,
                source_file_size: None,
            },
        ),
        (Some(s), Some(t), Some(p), Some(Some(n))) => Ok(
            DiffEntry {
                source_file_name: s,
                target_file_name: t,
                patch_file_name: p,
                source_file_size: Some(n),
            },
        ),
        _ => Err(PatchError::Json()),
    }
}

/// Reads one entry of the `diff_map` array, exactly as `spec_row_of` reads
/// the row object: the entry built from its fields, or the structural
/// error where the row is ill-formed. The decision of what makes a
/// well-formed entry is `entry_from_fields`; this only gathers the pieces.
fn entry_from_value(v: &serde_json::Value) -> (r: Result<DiffEntry, PatchError>)
    ensures
        match spec_row_of(*v) {
            Some(row) => r matches Ok(e) && e.source_file_name@ == row.0 && e.target_file_name@
                == row.1 && e.patch_file_name@ == row.2 && e.source_file_size == row.3,
            None => r == Err::<DiffEntry, PatchError>(PatchError::Json()),
        },
{
    let source = get_str_field(v, "source_file_name");
    let target = get_str_field(v, "target_file_name");
    let patch = get_str_field(v, "patch_file_name");
    let size_field = get_u64_field(v, "source_file_size");
    entry_from_fields(source, target, patch, size_field)
}

/// The manifest written in a text: the row contents of its `diff_map`
/// array, provided the text parses to a JSON object with such an array and
/// every row is well-formed; `None` otherwise.
pub open spec fn spec_manifest_of(s: Seq<char>) -> Option<
    Seq<(Seq<char>, Seq<char>, Seq<char>, Option<u64>)>,
> {
    match rows_of(s, "diff_map"@) {
        None => None,
        Some(rows) => if forall|i: int| 0 <= i < rows.len() ==> (#[trigger] rows[i]) is Some {
            Some(Seq::new(rows.len(), |i: int| rows[i]->0))
        } else {
            None
        },
    }
}

/// Whether the entries carry exactly the given rows' fields, in order.
pub open spec fn entries_match_rows(
    es: Seq<DiffEntry>,
    rows: Seq<(Seq<char>, Seq<char>, Seq<char>, Option<u64>)>,
) -> bool {
    es.len() == rows.len() && forall|i: int|
        0 <= i < es.len() ==> (#[trigger] es[i]).source_file_name@ == rows[i].0
            && es[i].target_file_name@ == rows[i].1 && es[i].patch_file_name@ == rows[i].2
            && es[i].source_file_size == rows[i].3
}

/// Whether `r` is the `NotFound` error citing `path`.
pub open spec fn is_manifest_not_found<A>(r: Result<A, PatchError>, path: Seq<char>) -> bool {
    match r {
        Err(PatchError::NotFound(p)) => p@ == path,
        _ => false,
    }
}

/// Parses a manifest file's text: a JSON object holding a `diff_map` array
/// of entries. `None` stands for an absent manifest file, reported as the
/// `NotFound` error with the file's path. Present text yields exactly the
/// entries of the manifest it writes (`spec_manifest_of`); any other shape
/// — text that is not JSON, no `diff_map` field, a non-array `diff_map`,
/// an ill-formed entry — is `PatchError::Json()`, never a silent empty
/// list. An empty `diff_map` array, by contrast, is a valid manifest of
/// zero entries.
pub fn load_diff_map(hdiffmap_path: &String, text: Option<&str>) -> (r: Result<
    Vec<DiffEntry>,
    PatchError,
>)
    ensures
        text is None ==> is_manifest_not_found(r, hdiffmap_path@),
        text matches Some(t) ==> match spec_manifest_of(t@) {
            Some(rows) => r matches Ok(es) && entries_match_rows(es@, rows),
            None => r == Err::<Vec<DiffEntry>, PatchError>(PatchError::Json()),
        },
{
    let body = match text {
        Some(t) => t,
        None => {
            return Err(PatchError::NotFound(hdiffmap_path.clone()));
        },
    };
    let arr = match diff_map_array(body, "diff_map") {
        Some(a) => a,
        None => {
            return Err(PatchError::Json());
        },
    };
    let ghost rows = rows_of(body@, "diff_map"@)->0;
    let mut entries: Vec<DiffEntry> = Vec::new();
    let mut i: usize = 0;
    while i < arr.len()
        invariant
            text == Some(body),
            rows_of(body@, "diff_map"@) == Some(rows),
            arr@.len() == rows.len(),
            forall|k: int| 0 <= k < rows.len() ==> spec_row_of(#[trigger] arr@[k]) == rows[k],
            i <= arr@.len(),
            entries@.len() == i,
            forall|k: int| 0 <= k < i ==> (#[trigger] rows[k]) is Some,
            forall|k: int|
                0 <= k < i ==> (#[trigger] entries@[k]).source_file_name@ == (rows[k]->0).0
                    && entries@[k].target_file_name@ == (rows[k]->0).1
                    && entries@[k].patch_file_name@ == (rows[k]->0).2
                    && entries@[k].source_file_size == (rows[k]->0).3,
        decreases arr@.len() - i,
    {
        match entry_from_value(&arr[i]) {
            Ok(e) => {
                entries.push(e);
            },
            Err(e) => {
                proof {
                    assert(rows[i as int] is None);
                }
                return Err(e);
            },
        }
        i = i + 1;
    }
    proof {
        let m = Seq::new(rows.len(), |k: int| rows[k]->0);
        assert(spec_manifest_of(body@) == Some(m));
        assert(entries_match_rows(entries@, m));
    }
    Ok(entries)
}

/// How many outcomes report success.
pub open spec fn spec_success_count(s: Seq<ToolOutcome>) -> int
    decreases s.len(),
{
    if s.len() == 0 {
        0
    } else {
        spec_success_count(s.drop_last()) + if s.last() == ToolOutcome::Success {
            1int
        } else {
            0int
        }
    }
}

/// One more outcome raises the success tally by exactly one when it
/// reports success and not at all otherwise: a tool failure or a launch
/// failure on one entry never aborts or zeroes the batch tally.
pub proof fn lemma_success_count_step(s: Seq<ToolOutcome>, outcome: ToolOutcome)
    ensures
        spec_success_count(s.push(outcome)) == spec_success_count(s) + (
        if outcome == ToolOutcome::Success {
            1int
        } else {
            0int
        }),
{
    assert(s.push(outcome).drop_last() =~= s);
}

pub proof fn lemma_success_count_bounds(s: Seq<ToolOutcome>)
    ensures
        0 <= spec_success_count(s) <= s.len(),
    decreases s.len(),
{
    if s.len() > 0 {
        lemma_success_count_bounds(s.drop_last());
    }
}

/// Tallies the successes among the outcomes of one manifest's entries.
pub fn count_successes(outcomes: &Vec<ToolOutcome>) -> (r: u32)
    requires
        outcomes@.len() <= u32::MAX,
    ensures
        r == spec_success_count(outcomes@),
{
    let mut count: u32 = 0;
    let mut i: usize = 0;
    while i < outcomes.len()
        invariant
            i <= outcomes@.len() <= u32::MAX,
            count == spec_success_count(outcomes@.subrange(0, i as int)),
            count <= i,
        decreases outcomes@.len() - i,
    {
        let ghost prefix = outcomes@.subrange(0, i as int);
        proof {
            assert(outcomes@.subrange(0, i as int + 1) =~= prefix.push(outcomes@[i as int]));
            lemma_success_count_step(prefix, outcomes@[i as int]);
        }
        if matches!(outcomes[i], ToolOutcome::Success) {
            count = count + 1;
        }
        i = i + 1;
    }
    proof {
        assert(outcomes@.subrange(0, outcomes@.len() as int) =~= outcomes@);
    }
    count
}

/// The files retired after one entry's patch attempt: on success the
/// consumed patch file, and the old source file too when the patch renamed
/// it; on any failure nothing, so a retry or manual intervention stays
/// possible.
pub open spec fn spec_removal_targets(
    root: Seq<char>,
    source: Seq<char>,
    target: Seq<char>,
    patch: Seq<char>,
    outcome: ToolOutcome,
) -> Seq<Seq<char>> {
    if outcome == ToolOutcome::Success {
        if source == target {
            seq![spec_join_path(root, patch)]
        } else {
            seq![spec_join_path(root, patch), spec_join_path(root, source)]
        }
    } else {
        Seq::empty()
    }
}

/// Decides which files one entry's outcome retires, as full paths.
pub fn removal_targets(root: &str, entry: &DiffEntry, outcome: ToolOutcome) -> (r: Vec<String>)
    ensures
        r@.map_values(|s: String| s@) == spec_removal_targets(
            root@,
            entry.source_file_name@,
            entry.target_file_name@,
            entry.patch_file_name@,
            outcome,
        ),
{
    let mut r: Vec<String> = Vec::new();
    if matches!(outcome, ToolOutcome::Success) {
        r.push(join_path(root, entry.patch_file_name.as_str()));
        if !string_views_equal(&entry.source_file_name, &entry.target_file_name) {
            r.push(join_path(root, entry.source_file_name.as_str()));
        }
    }
    proof {
        assert(r@.map_values(|s: String| s@) =~= spec_removal_targets(
            root@,
            entry.source_file_name@,
            entry.target_file_name@,
            entry.patch_file_name@,
            outcome,
        ));
    }
    r
}

/// Whether two strings hold the same characters.
fn string_views_equal(a: &String, b: &String) -> (r: bool)
    ensures
        r == (a@ == b@),
{
    a.eq(b)
}

/// Applies one manifest entry: asks the tool to patch, then retires the
/// consumed inputs exactly as `spec_removal_targets` decides for the
/// outcome the tool reported.
fn apply_one_entry<T: PatchTool, R: FileRemover>(
    tool: &T,
    remover: &R,
    root: &str,
    entry: &DiffEntry,
) -> (r: ToolOutcome) {
    let source = join_path(root, entry.source_file_name.as_str());
    let patch = join_path(root, entry.patch_file_name.as_str());
    let target = join_path(root, entry.target_file_name.as_str());
    let outcome = tool.apply(&source, &patch, &target);
    let removals = removal_targets(root, entry, outcome);
    let mut i: usize = 0;
    while i < removals.len()
        decreases removals@.len() - i,
    {
        let _ = remover.remove(&removals[i]);
        i = i + 1;
    }
    outcome
}

/// Relies on rayon's parallel iterators: runs `apply_one_entry` over the
/// entries on a worker pool and collects the outcomes in entry order, one
/// per entry (`par_iter().map().collect()` keeps length and order).
#[verifier::external_body]
fn apply_entries_parallel<T: PatchTool + Sync, R: FileRemover + Sync>(
    tool: &T,
    remover: &R,
    root: &str,
    entries: &Vec<DiffEntry>,
) -> (r: Vec<ToolOutcome>)
    ensures
        r@.len() == entries@.len(),
{
    entries.par_iter().map(|e| apply_one_entry(tool, remover, root, e)).collect()
}

/// The patch executor for one bundle: applies every entry of a manifest
/// against an installation root and tallies the successes.
pub struct HDiffMap {
    pub game_path: String,
    pub hpatchz_path: String,
    /// The tally of entries patched by the last `patch` call.
    pub count: u32,
}

impl HDiffMap {
    pub fn new(game_path: String, hpatchz_path: String) -> (r: Self)
        ensures
            r.game_path == game_path,
            r.hpatchz_path == hpatchz_path,
            r.count == 0,
    {
        HDiffMap { game_path, hpatchz_path, count: 0 }
    }

    /// Applies every entry of the manifest, in parallel and without
    /// ordering guarantees between entries. Returns the per-entry outcomes
    /// in entry order; the stored tally counts exactly the successes among
    /// them, whatever the tool decided. A launch failure or tool failure
    /// on one entry never aborts the others.
    pub fn patch<T: PatchTool + Sync, R: FileRemover + Sync>(
        &mut self,
        tool: &T,
        remover: &R,
        entries: &Vec<DiffEntry>,
    ) -> (r: Vec<ToolOutcome>)
        requires
            entries@.len() <= u32::MAX,
        ensures
            r@.len() == entries@.len(),
            final(self).count == spec_success_count(r@),
            final(self).game_path == old(self).game_path,
            final(self).hpatchz_path == old(self).hpatchz_path,
    {
        let outcomes = apply_entries_parallel(tool, remover, self.game_path.as_str(), entries);
        proof {
            lemma_success_count_bounds(outcomes@);
        }
        self.count = count_successes(&outcomes);
        outcomes
    }

    pub fn count(&self) -> (r: u32)
        ensures
            r == self.count,
    {
        self.count
    }
}

} // verus!
