//! Pre-flight integrity checking: the on-disk state against a manifest's
//! expectations, before anything is mutated.

use vstd::prelude::*;

use crate::error::Error;
use crate::hdiffmap::DiffEntry;
use crate::tool::SizeOutcome;

verus! {

/// The size check's verdict over a manifest and the probed source sizes,
/// scanned in entry order: entries without a known expected size are
/// unverifiable and skipped; the first entry whose source could not be
/// measured stops the scan with its index (`Err`); the first measured
/// mismatch decides `Ok(false)`; and a manifest with no decisive entry
/// verifies, `Ok(true)`.
pub open spec fn spec_by_file_size(entries: Seq<DiffEntry>, sizes: Seq<SizeOutcome>) -> Result<
    bool,
    int,
>
    decreases entries.len(),
{
    if entries.len() == 0 {
        Ok(true)
    } else {
        match entries[0].source_file_size {
            None => shift_index(spec_by_file_size(entries.drop_first(), sizes.drop_first())),
            Some(expected) => match sizes[0] {
                SizeOutcome::IoError(_) => Err(0),
                SizeOutcome::Size(actual) => if actual != expected {
                    Ok(false)
                } else {
                    shift_index(spec_by_file_size(entries.drop_first(), sizes.drop_first()))
                },
            },
        }
    }
}

/// Moves a verdict of a manifest's tail back to the whole manifest's
/// indexing.
pub open spec fn shift_index(r: Result<bool, int>) -> Result<bool, int> {
    match r {
        Ok(b) => Ok(b),
        Err(i) => Err(i + 1),
    }
}

/// Whether `r` is the I/O error carrying the message of the probe `oc`.
pub open spec fn io_error_of(r: Result<bool, Error>, oc: SizeOutcome) -> bool {
    match (r, oc) {
        (Err(Error::Io(m)), SizeOutcome::IoError(probe_msg)) => m@ == probe_msg@,
        _ => false,
    }
}

/// Checks the installed files a manifest is about to patch against the
/// byte lengths it expects of them.
pub struct Verifier {
    pub game_path: String,
    pub hdiff_map_path: String,
}

impl Verifier {
    pub fn new(game_path: String, hdiff_map_path: String) -> (r: Self)
        ensures
            r.game_path == game_path,
            r.hdiff_map_path == hdiff_map_path,
    {
        Verifier { game_path, hdiff_map_path }
    }

    /// The size check, fail-fast, exactly as `spec_by_file_size` decides
    /// on the manifest and the probed sizes (one probe outcome per entry,
    /// aligned by index): `Ok(false)` on the first measured mismatch,
    /// `Err` with the probe's I/O message where a source could not be
    /// measured, `Ok(true)` otherwise. A verdict of `false` is a warning
    /// signal for the caller to act on, not an abort baked in here.
    pub fn by_file_size(&self, manifest: &Vec<DiffEntry>, sizes: &Vec<SizeOutcome>) -> (r: Result<
        bool,
        Error,
    >)
        requires
            manifest@.len() == sizes@.len(),
        ensures
            match spec_by_file_size(manifest@, sizes@) {
                Ok(b) => r == Ok::<bool, Error>(b),
                Err(i) => 0 <= i < sizes@.len() && io_error_of(r, sizes@[i]),
            },
    {
        let n = manifest.len();
        proof {
            assert(manifest@.skip(0) =~= manifest@);
            assert(sizes@.skip(0) =~= sizes@);
        }
        let mut i: usize = 0;
        while i < n
            invariant
                i <= n == manifest@.len() == sizes@.len(),
                spec_by_file_size(manifest@, sizes@) == shift_index_by(
                    spec_by_file_size(manifest@.skip(i as int), sizes@.skip(i as int)),
                    i as int,
                ),
            decreases n - i,
        {
            let ghost tail_entries = manifest@.skip(i as int);
            let ghost tail_sizes = sizes@.skip(i as int);
            proof {
                assert(tail_entries.len() > 0);
                assert(tail_entries[0] == manifest@[i as int]);
                assert(tail_sizes[0] == sizes@[i as int]);
                assert(tail_entries.drop_first() =~= manifest@.skip(i as int + 1));
                assert(tail_sizes.drop_first() =~= sizes@.skip(i as int + 1));
            }
            match manifest[i].source_file_size {
                None => {},
                Some(expected) => {
                    match &sizes[i] {
                        SizeOutcome::IoError(m) => {
                            return Err(Error::Io(m.clone()));
                        },
                        SizeOutcome::Size(actual) => {
                            if *actual != expected {
                                return Ok(false);
                            }
                        },
                    }
                },
            }
            i = i + 1;
        }
        proof {
            assert(manifest@.skip(n as int).len() == 0);
        }
        Ok(true)
    }
}

/// `shift_index`, applied `k` times.
pub open spec fn shift_index_by(r: Result<bool, int>, k: int) -> Result<bool, int> {
    match r {
        Ok(b) => Ok(b),
        Err(i) => Err(i + k),
    }
}

/// A manifest entry whose expected source size is known verifies against a
/// measured source of exactly that many bytes, and against no other
/// length: the size check of a one-entry manifest is `Ok(true)` exactly
/// when the measured and expected lengths agree, `Ok(false)` otherwise.
pub proof fn lemma_size_verification_exact(entry: DiffEntry, expected: u64, measured: u64)
    requires
        entry.source_file_size == Some(expected),
    ensures
        spec_by_file_size(seq![entry], seq![SizeOutcome::Size(measured)]) == Ok::<bool, int>(
            measured == expected,
        ),
{
    let entries = seq![entry];
    let sizes = seq![SizeOutcome::Size(measured)];
    assert(entries.drop_first().len() == 0);
    assert(sizes.drop_first().len() == 0);
    assert(spec_by_file_size(entries.drop_first(), sizes.drop_first()) == Ok::<bool, int>(true));
    assert(entries[0] == entry);
    assert(sizes[0] == SizeOutcome::Size(measured));
}

} // verus!
