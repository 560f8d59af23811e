//! Small decision helpers around the updater: the successor check, archive
//! discovery and path/confirmation decisions, on values the caller has
//! already read in.

use vstd::prelude::*;
use vstd::string::StrSliceExecFns;

use crate::binary_version::{is_direct_successor, BinaryVersion};
use crate::error::Error;

verus! {

/// An update stamped `hdiff_version` may be applied on top of
/// `client_version` exactly when it is the direct successor: same major and
/// minor version, patch number one higher.
pub fn verify_hdiff_version(client_version: &BinaryVersion, hdiff_version: &BinaryVersion) -> (r:
    bool)
    ensures
        r == is_direct_successor(*client_version, *hdiff_version),
{
    client_version.major_version == hdiff_version.major_version && client_version.minor_version
        == hdiff_version.minor_version && client_version.patch_version < u32::MAX
        && hdiff_version.patch_version == client_version.patch_version + 1
}

/// The last path separator (`/` or `\`) in `s` strictly before index
/// `before`.
pub open spec fn spec_last_sep(s: Seq<char>, before: int) -> Option<int>
    decreases before,
{
    if before <= 0 || before > s.len() {
        None
    } else if s[before - 1] == '/' || s[before - 1] == '\\' {
        Some(before - 1)
    } else {
        spec_last_sep(s, before - 1)
    }
}

/// The last `.` in `s` strictly before index `before`.
pub open spec fn spec_last_dot(s: Seq<char>, before: int) -> Option<int>
    decreases before,
{
    if before <= 0 || before > s.len() {
        None
    } else if s[before - 1] == '.' {
        Some(before - 1)
    } else {
        spec_last_dot(s, before - 1)
    }
}

/// The final component of a path: everything after its last separator.
pub open spec fn spec_file_name(s: Seq<char>) -> Seq<char> {
    match spec_last_sep(s, s.len() as int) {
        Some(k) => s.subrange(k + 1, s.len() as int),
        None => s,
    }
}

/// The extension of a path's final component: what follows the component's
/// last `.`, provided that dot is not the component's first character (a
/// leading dot hides a file, it opens no extension).
pub open spec fn spec_extension(s: Seq<char>) -> Option<Seq<char>> {
    let name = spec_file_name(s);
    match spec_last_dot(name, name.len() as int) {
        Some(d) => if d > 0 {
            Some(name.subrange(d + 1, name.len() as int))
        } else {
            None
        },
        None => None,
    }
}

/// Whether an extension reads `7z`, `zip`, `rar` or `tar`, blind to ASCII
/// case.
pub open spec fn spec_is_archive_ext(e: Seq<char>) -> bool {
    ||| (e.len() == 2 && (e[0] == '7') && (e[1] == 'z' || e[1] == 'Z'))
    ||| (e.len() == 3 && (e[0] == 'z' || e[0] == 'Z') && (e[1] == 'i' || e[1] == 'I') && (e[2]
        == 'p' || e[2] == 'P'))
    ||| (e.len() == 3 && (e[0] == 'r' || e[0] == 'R') && (e[1] == 'a' || e[1] == 'A') && (e[2]
        == 'r' || e[2] == 'R'))
    ||| (e.len() == 3 && (e[0] == 't' || e[0] == 'T') && (e[1] == 'a' || e[1] == 'A') && (e[2]
        == 'r' || e[2] == 'R'))
}

/// Whether a path names an update archive by its extension.
pub open spec fn spec_is_archive_path(s: Seq<char>) -> bool {
    match spec_extension(s) {
        Some(e) => spec_is_archive_ext(e),
        None => false,
    }
}

/// The views of a list of strings.
pub open spec fn string_views(s: Seq<String>) -> Seq<Seq<char>> {
    s.map_values(|x: String| x@)
}

/// The archive paths among the given paths, in their given order.
pub open spec fn spec_archive_paths(paths: Seq<Seq<char>>) -> Seq<Seq<char>>
    decreases paths.len(),
{
    if paths.len() == 0 {
        Seq::empty()
    } else {
        let rest = spec_archive_paths(paths.drop_last());
        if spec_is_archive_path(paths.last()) {
            rest.push(paths.last())
        } else {
            rest
        }
    }
}

fn last_sep_exec(s: &str) -> (r: Option<usize>)
    ensures
        (match r {
            Some(i) => Some(i as int),
            None => None::<int>,
        }) == spec_last_sep(s@, s@.len() as int),
        r matches Some(i) ==> i < s@.len(),
{
    let n = s.unicode_len();
    let mut i = n;
    while i > 0
        invariant
            i <= n == s@.len(),
            spec_last_sep(s@, n as int) == spec_last_sep(s@, i as int),
        decreases i,
    {
        let c = s.get_char(i - 1);
        if c == '/' || c == '\\' {
            return Some(i - 1);
        }
        i = i - 1;
    }
    None
}

fn last_dot_exec(s: &str) -> (r: Option<usize>)
    ensures
        (match r {
            Some(i) => Some(i as int),
            None => None::<int>,
        }) == spec_last_dot(s@, s@.len() as int),
        r matches Some(i) ==> i < s@.len(),
{
    let n = s.unicode_len();
    let mut i = n;
    while i > 0
        invariant
            i <= n == s@.len(),
            spec_last_dot(s@, n as int) == spec_last_dot(s@, i as int),
        decreases i,
    {
        let c = s.get_char(i - 1);
        if c == '.' {
            return Some(i - 1);
        }
        i = i - 1;
    }
    None
}

fn is_archive_ext(e: &str) -> (r: bool)
    ensures
        r == spec_is_archive_ext(e@),
{
    let l = e.unicode_len();
    if l == 2 {
        let c0 = e.get_char(0);
        let c1 = e.get_char(1);
        c0 == '7' && (c1 == 'z' || c1 == 'Z')
    } else if l == 3 {
        let c0 = e.get_char(0);
        let c1 = e.get_char(1);
        let c2 = e.get_char(2);
        ((c0 == 'z' || c0 == 'Z') && (c1 == 'i' || c1 == 'I') && (c2 == 'p' || c2 == 'P')) || ((c0
            == 'r' || c0 == 'R') && (c1 == 'a' || c1 == 'A') && (c2 == 'r' || c2 == 'R')) || ((c0
            == 't' || c0 == 'T') && (c1 == 'a' || c1 == 'A') && (c2 == 'r' || c2 == 'R'))
    } else {
        false
    }
}

/// Whether a path names an update archive: its final component's extension
/// reads `7z`, `zip`, `rar` or `tar` in any ASCII case.
pub fn is_archive_path(s: &str) -> (r: bool)
    ensures
        r == spec_is_archive_path(s@),
{
    let n = s.unicode_len();
    let name_start = match last_sep_exec(s) {
        Some(k) => k + 1,
        None => 0,
    };
    let name = s.substring_char(name_start, n);
    proof {
        assert(name@ =~= spec_file_name(s@));
    }
    let m = name.unicode_len();
    let d = match last_dot_exec(name) {
        Some(d) => d,
        None => {
            return false;
        },
    };
    if d == 0 {
        return false;
    }
    let ext = name.substring_char(d + 1, m);
    is_archive_ext(ext)
}

/// Picks the update archives out of a directory listing, in listing
/// order: exactly the paths whose extension names an archive format. An
/// empty result is the distinguished "no archive found" error, never an
/// empty list.
pub fn get_update_archives(paths: &Vec<String>) -> (r: Result<Vec<String>, Error>)
    ensures
        match r {
            Ok(v) => string_views(v@) == spec_archive_paths(string_views(paths@)) && v@.len() > 0,
            Err(e) => e == Error::ArchiveNotFound() && spec_archive_paths(
                string_views(paths@),
            ).len() == 0,
        },
{
    let mut out: Vec<String> = Vec::new();
    let mut i: usize = 0;
    proof {
        assert(string_views(paths@.subrange(0, 0)) =~= Seq::<Seq<char>>::empty());
    }
    while i < paths.len()
        invariant
            i <= paths@.len(),
            string_views(out@) == spec_archive_paths(string_views(paths@.subrange(0, i as int))),
        decreases paths@.len() - i,
    {
        let ghost prefix_views = string_views(paths@.subrange(0, i as int));
        let ghost extended_views = string_views(paths@.subrange(0, i as int + 1));
        let ghost out_before = out@;
        proof {
            assert(extended_views =~= prefix_views.push(paths@[i as int]@));
            assert(extended_views.drop_last() =~= prefix_views);
        }
        if is_archive_path(paths[i].as_str()) {
            out.push(paths[i].clone());
            proof {
                assert(string_views(out@) =~= string_views(out_before).push(paths@[i as int]@));
            }
        }
        i = i + 1;
    }
    proof {
        assert(paths@.subrange(0, paths@.len() as int) =~= paths@);
        assert(string_views(out@).len() == out@.len());
    }
    if out.len() == 0 {
        Err(Error::ArchiveNotFound())
    } else {
        Ok(out)
    }
}

/// Decides the installation root: an explicit argument wins unexamined;
/// otherwise the current directory stands, provided the client executable
/// was found in it, and is otherwise reported in the error.
pub fn determine_game_path(game_path: Option<String>, cwd: String, client_exe_in_cwd: bool) -> (r:
    Result<String, Error>)
    ensures
        match game_path {
            Some(p) => r == Ok::<String, Error>(p),
            None => if client_exe_in_cwd {
                r == Ok::<String, Error>(cwd)
            } else {
                r == Err::<String, Error>(Error::PathNotFound(cwd))
            },
        },
{
    match game_path {
        Some(p) => Ok(p),
        None => {
            if client_exe_in_cwd {
                Ok(cwd)
            } else {
                Err(Error::PathNotFound(cwd))
            }
        },
    }
}

/// The yes/no reading of a console answer, already trimmed and lowercased
/// by the reader: `y`/`yes` and `n`/`no` decide; anything else falls back
/// to the default.
pub open spec fn spec_confirmation_choice(answer: Seq<char>, default_choice: bool) -> bool {
    if answer == seq!['y'] || answer == seq!['y', 'e', 's'] {
        true
    } else if answer == seq!['n'] || answer == seq!['n', 'o'] {
        false
    } else {
        default_choice
    }
}

/// Reads a trimmed, lowercased console answer as the yes/no choice it
/// makes, exactly as `spec_confirmation_choice` decides.
pub fn confirmation_choice(answer: &str, default_choice: bool) -> (r: bool)
    ensures
        r == spec_confirmation_choice(answer@, default_choice),
{
    let n = answer.unicode_len();
    if n == 1 {
        let c = answer.get_char(0);
        if c == 'y' {
            proof {
                assert(answer@ =~= seq!['y']);
            }
            true
        } else if c == 'n' {
            proof {
                assert(answer@ =~= seq!['n']);
            }
            false
        } else {
            default_choice
        }
    } else if n == 2 {
        let c0 = answer.get_char(0);
        let c1 = answer.get_char(1);
        if c0 == 'n' && c1 == 'o' {
            proof {
                assert(answer@ =~= seq!['n', 'o']);
            }
            false
        } else {
            default_choice
        }
    } else if n == 3 {
        let c0 = answer.get_char(0);
        let c1 = answer.get_char(1);
        let c2 = answer.get_char(2);
        if c0 == 'y' && c1 == 'e' && c2 == 's' {
            proof {
                assert(answer@ =~= seq!['y', 'e', 's']);
            }
            true
        } else {
            default_choice
        }
    } else {
        default_choice
    }
}

} // verus!
