//! Capability interfaces through which the updater touches the outside
//! world: the binary patch tool, file removal and archive extraction.
//!
//! The library's decisions are verified over the outcomes these hand back;
//! implementations (spawning the real tools, calling the filesystem) live
//! with the embedding program. Nothing is assumed of an outcome: every
//! contract downstream holds whatever an implementation returns.

use vstd::prelude::*;
use vstd::string::StringExecFns;

verus! {

/// Outcome of one invocation of the external patch tool on one entry.
#[derive(Clone, Copy, Debug, PartialEq, Eq, Structural)]
pub enum ToolOutcome {
    /// The tool ran and exited with status zero.
    Success,
    /// The tool ran and exited nonzero; its diagnostics are advisory only.
    Failure,
    /// The tool could not be launched at all (not found, I/O error).
    LaunchError,
}

/// Outcome of removing one file.
#[derive(Clone, Copy, Debug, PartialEq, Eq, Structural)]
pub enum RemoveOutcome {
    /// The file existed and was removed.
    Removed,
    /// The file was already gone: an acceptable end state, not an error.
    Missing,
    /// The file could not be removed (permissions, lock, ...).
    Failed,
}

/// Outcome of probing a file's byte length.
#[derive(Debug, Clone, PartialEq, Eq)]
pub enum SizeOutcome {
    /// The file could be opened; its length in bytes.
    Size(u64),
    /// The file could not be opened or measured; the operation's message.
    IoError(String),
}

/// Outcome of extracting an archive.
#[derive(Debug, Clone, PartialEq, Eq)]
pub enum ExtractOutcome {
    Extracted,
    /// Extraction failed; the tool's message.
    Failed(String),
}

/// Applies one binary patch: `apply(source, patch, target)` produces
/// `target` from `source` and `patch`, overwriting an existing target
/// (the force flag of the external tool). Success means exit status zero.
pub trait PatchTool {
    fn apply(&self, source: &String, patch: &String, target: &String) -> ToolOutcome;
}

/// Removes a single file by path, best effort.
pub trait FileRemover {
    fn remove(&self, path: &String) -> RemoveOutcome;
}

/// Unpacks an update archive's payload into a directory, overwriting
/// existing files.
pub trait Extractor {
    fn extract_hdiff_to(&self, archive: &String, dst: &String) -> ExtractOutcome;
}

/// The path `root/rel`.
pub open spec fn spec_join_path(root: Seq<char>, rel: Seq<char>) -> Seq<char> {
    root + seq!['/'] + rel
}

/// Joins a path relative to the installation root onto the root.
pub fn join_path(root: &str, rel: &str) -> (r: String)
    ensures
        r@ == spec_join_path(root@, rel@),
{
    proof {
        reveal_strlit("/");
    }
    let mut s = root.to_owned();
    s.append("/");
    s.append(rel);
    s
}

} // verus!
