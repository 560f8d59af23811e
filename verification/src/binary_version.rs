//! The client's version stamp: a comparable (major, minor, patch) triple,
//! parsed out of the fixed-format version-stamp bytes.

use vstd::prelude::*;
use vstd::string::StringExecFns;

use crate::error::Error;

verus! {

/// A version triple, totally ordered lexicographically by
/// (major, minor, patch).
#[derive(Clone, Copy, Debug, PartialEq, Eq, Structural)]
pub struct BinaryVersion {
    pub major_version: u32,
    pub minor_version: u32,
    pub patch_version: u32,
}

/// Lexicographic order on version triples.
pub open spec fn version_le(a: BinaryVersion, b: BinaryVersion) -> bool {
    ||| a.major_version < b.major_version
    ||| (a.major_version == b.major_version && a.minor_version < b.minor_version)
    ||| (a.major_version == b.major_version && a.minor_version == b.minor_version
        && a.patch_version <= b.patch_version)
}

/// `b` is the version that comes directly after `a`: same major and minor,
/// and a patch number exactly one higher.
pub open spec fn is_direct_successor(a: BinaryVersion, b: BinaryVersion) -> bool {
    &&& b.major_version == a.major_version
    &&& b.minor_version == a.minor_version
    &&& b.patch_version == a.patch_version + 1
}

impl BinaryVersion {
    /// Exec comparison matching `version_le`.
    pub fn le(&self, other: &BinaryVersion) -> (r: bool)
        ensures
            r == version_le(*self, *other),
    {
        if self.major_version != other.major_version {
            self.major_version < other.major_version
        } else if self.minor_version != other.minor_version {
            self.minor_version < other.minor_version
        } else {
            self.patch_version <= other.patch_version
        }
    }
}

/// The first occurrence of byte `b` in `s` within `[from, end)`.
pub open spec fn find_byte_in(s: Seq<u8>, b: u8, from: int, end: int) -> Option<int>
    decreases end - from,
{
    if from < 0 || from >= end || end > s.len() {
        None
    } else if s[from] == b {
        Some(from)
    } else {
        find_byte_in(s, b, from + 1, end)
    }
}

/// The last occurrence of byte `b` in `s` strictly before index `before`.
pub open spec fn rfind_byte(s: Seq<u8>, b: u8, before: int) -> Option<int>
    decreases before,
{
    if before <= 0 || before > s.len() {
        None
    } else if s[before - 1] == b {
        Some(before - 1)
    } else {
        rfind_byte(s, b, before - 1)
    }
}

pub open spec fn is_ascii_digit(c: u8) -> bool {
    48 <= c <= 57
}

pub open spec fn all_ascii_digits(s: Seq<u8>) -> bool {
    forall|i: int| 0 <= i < s.len() ==> is_ascii_digit(#[trigger] s[i])
}

/// The number written by a run of decimal digits.
pub open spec fn digits_val(s: Seq<u8>) -> int
    decreases s.len(),
{
    if s.len() == 0 {
        0
    } else {
        digits_val(s.drop_last()) * 10 + (s.last() - 48)
    }
}

/// A decimal field without its optional leading `+` sign.
pub open spec fn strip_plus(s: Seq<u8>) -> Seq<u8> {
    if s.len() > 0 && s[0] == 43 {
        s.drop_first()
    } else {
        s
    }
}

/// What `str::parse::<u32>` accepts of a version field: an optional `+`,
/// then at least one digit, with a value that fits in 32 bits.
pub open spec fn spec_parse_u32(s: Seq<u8>) -> Option<u32> {
    let body = strip_plus(s);
    if body.len() > 0 && all_ascii_digits(body) && digits_val(body) <= u32::MAX {
        Some(digits_val(body) as u32)
    } else {
        None
    }
}

/// Where the dot-separated field starting at `from` ends (exclusive),
/// looking no further than `end`.
pub open spec fn seg_end(s: Seq<u8>, from: int, end: int) -> int {
    match find_byte_in(s, 46, from, end) {
        Some(i) => i,
        None => end,
    }
}

/// The three dot-separated integer fields of `s[start..end)`, if the first
/// three fields all parse and at least three fields are present.
pub open spec fn spec_version_fields(s: Seq<u8>, start: int, end: int) -> Option<(u32, u32, u32)> {
    let e1 = seg_end(s, start, end);
    if e1 == end {
        None
    } else {
        let e2 = seg_end(s, e1 + 1, end);
        if e2 == end {
            None
        } else {
            let e3 = seg_end(s, e2 + 1, end);
            match (
                spec_parse_u32(s.subrange(start, e1)),
                spec_parse_u32(s.subrange(e1 + 1, e2)),
                spec_parse_u32(s.subrange(e2 + 1, e3)),
            ) {
                (Some(a), Some(b), Some(c)) => Some((a, b, c)),
                _ => None,
            }
        }
    }
}

/// The version triple written in a version-stamp blob: the three-integer
/// dot-separated run that starts at most six bytes before the blob's last
/// `-` and runs to the first `-` at or after that point.
pub open spec fn spec_parse_version(s: Seq<u8>) -> Option<(u32, u32, u32)> {
    match rfind_byte(s, 45, s.len() as int) {
        None => None,
        Some(d) => {
            let start: int = if d >= 6 {
                d - 6
            } else {
                0
            };
            let end: int = match find_byte_in(s, 45, start, s.len() as int) {
                Some(i) => i,
                None => s.len() as int,
            };
            spec_version_fields(s, start, end)
        },
    }
}

fn find_byte(data: &[u8], b: u8, from: usize, end: usize) -> (r: Option<usize>)
    requires
        from <= end <= data@.len(),
    ensures
        (match r {
            Some(i) => Some(i as int),
            None => None::<int>,
        }) == find_byte_in(data@, b, from as int, end as int),
        r matches Some(i) ==> from <= i < end,
{
    let mut i = from;
    while i < end
        invariant
            from <= i <= end <= data@.len(),
            find_byte_in(data@, b, from as int, end as int) == find_byte_in(
                data@,
                b,
                i as int,
                end as int,
            ),
        decreases end - i,
    {
        if data[i] == b {
            return Some(i);
        }
        i = i + 1;
    }
    None
}

fn rfind_byte_exec(data: &[u8], b: u8) -> (r: Option<usize>)
    ensures
        (match r {
            Some(i) => Some(i as int),
            None => None::<int>,
        }) == rfind_byte(data@, b, data@.len() as int),
        r matches Some(i) ==> i < data@.len(),
{
    let mut i = data.len();
    while i > 0
        invariant
            i <= data@.len(),
            rfind_byte(data@, b, data@.len() as int) == rfind_byte(data@, b, i as int),
        decreases i,
    {
        if data[i - 1] == b {
            return Some(i - 1);
        }
        i = i - 1;
    }
    None
}

/// Parses the decimal field `data[from..to)` as `str::parse::<u32>` would.
fn parse_u32_field(data: &[u8], from: usize, to: usize) -> (r: Option<u32>)
    requires
        from <= to <= data@.len(),
    ensures
        r == spec_parse_u32(data@.subrange(from as int, to as int)),
{
    let ghost field = data@.subrange(from as int, to as int);
    let body_from = if to > from && data[from] == 43 {
        from + 1
    } else {
        from
    };
    let ghost body = data@.subrange(body_from as int, to as int);
    proof {
        assert(body =~= strip_plus(field));
    }
    if body_from == to {
        return None;
    }
    let mut i = body_from;
    let mut acc: u32 = 0;
    let mut too_big = false;
    while i < to
        invariant
            body_from <= i <= to <= data@.len(),
            body == data@.subrange(body_from as int, to as int),
            body == strip_plus(data@.subrange(from as int, to as int)),
            from <= body_from,
            all_ascii_digits(data@.subrange(body_from as int, i as int)),
            !too_big ==> acc == digits_val(data@.subrange(body_from as int, i as int)),
            too_big ==> digits_val(data@.subrange(body_from as int, i as int)) > u32::MAX,
        decreases to - i,
    {
        let c = data[i];
        if c < 48 || c > 57 {
            proof {
                assert(body[i - body_from] == c);
                assert(!all_ascii_digits(body));
            }
            return None;
        }
        let d = c - 48;
        let ghost prefix = data@.subrange(body_from as int, i as int);
        let ghost extended = data@.subrange(body_from as int, i as int + 1);
        proof {
            assert(extended.drop_last() =~= prefix);
            assert(extended.last() == c);
            assert(digits_val(extended) == digits_val(prefix) * 10 + d);
        }
        if too_big {
            proof {
                assert(digits_val(prefix) * 10 + d > u32::MAX) by {
                    assert(digits_val(prefix) * 10 == 10 * digits_val(prefix));
                };
            }
        } else {
            let wide: u64 = (acc as u64) * 10 + (d as u64);
            if wide <= u32::MAX as u64 {
                acc = wide as u32;
            } else {
                too_big = true;
            }
        }
        i = i + 1;
    }
    if too_big {
        None
    } else {
        proof {
            assert(data@.subrange(body_from as int, to as int) =~= body);
        }
        Some(acc)
    }
}

impl BinaryVersion {
    /// Extracts the version triple from the raw bytes of a version-stamp
    /// file. Exactly the triple described by `spec_parse_version`: anything
    /// else (no `-` delimiter, fewer than three dot-separated fields, a
    /// field that is not an integer or does not fit) is a hard parse
    /// failure, never a partial result.
    pub fn parse(data: &[u8]) -> (r: Result<Self, Error>)
        ensures
            match spec_parse_version(data@) {
                Some(t) => r == Ok::<BinaryVersion, Error>(
                    BinaryVersion {
                        major_version: t.0,
                        minor_version: t.1,
                        patch_version: t.2,
                    },
                ),
                None => r == Err::<BinaryVersion, Error>(Error::VersionParse()),
            },
    {
        let d = match rfind_byte_exec(data, 45) {
            Some(d) => d,
            None => {
                return Err(Error::VersionParse());
            },
        };
        let start = if d >= 6 {
            d - 6
        } else {
            0
        };
        let end = match find_byte(data, 45, start, data.len()) {
            Some(i) => i,
            None => data.len(),
        };
        let e1 = match find_byte(data, 46, start, end) {
            Some(i) => i,
            None => end,
        };
        if e1 == end {
            return Err(Error::VersionParse());
        }
        let e2 = match find_byte(data, 46, e1 + 1, end) {
            Some(i) => i,
            None => end,
        };
        if e2 == end {
            return Err(Error::VersionParse());
        }
        let e3 = match find_byte(data, 46, e2 + 1, end) {
            Some(i) => i,
            None => end,
        };
        let major = parse_u32_field(data, start, e1);
        let minor = parse_u32_field(data, e1 + 1, e2);
        let patch = parse_u32_field(data, e2 + 1, e3);
        match (major, minor, patch) {
            (Some(a), Some(b), Some(c)) => Ok(
                BinaryVersion { major_version: a, minor_version: b, patch_version: c },
            ),
            _ => Err(Error::VersionParse()),
        }
    }
}

pub open spec fn spec_digit_char(d: int) -> char {
    if d == 0 {
        '0'
    } else if d == 1 {
        '1'
    } else if d == 2 {
        '2'
    } else if d == 3 {
        '3'
    } else if d == 4 {
        '4'
    } else if d == 5 {
        '5'
    } else if d == 6 {
        '6'
    } else if d == 7 {
        '7'
    } else if d == 8 {
        '8'
    } else {
        '9'
    }
}

/// The decimal rendering of a nonnegative number, most significant digit
/// first, without leading zeros (a single `0` for zero).
pub open spec fn spec_u32_digits(n: int) -> Seq<char>
    decreases n,
{
    if n < 10 {
        seq![spec_digit_char(n)]
    } else {
        spec_u32_digits(n / 10).push(spec_digit_char(n % 10))
    }
}

/// The `major.minor.patch` rendering of a version.
pub open spec fn spec_version_string(v: BinaryVersion) -> Seq<char> {
    spec_u32_digits(v.major_version as int) + seq!['.'] + spec_u32_digits(v.minor_version as int)
        + seq!['.'] + spec_u32_digits(v.patch_version as int)
}

fn digit_str(d: u32) -> (r: &'static str)
    requires
        d < 10,
    ensures
        r@ == seq![spec_digit_char(d as int)],
{
    proof {
        reveal_strlit("0");
        reveal_strlit("1");
        reveal_strlit("2");
        reveal_strlit("3");
        reveal_strlit("4");
        reveal_strlit("5");
        reveal_strlit("6");
        reveal_strlit("7");
        reveal_strlit("8");
        reveal_strlit("9");
    }
    if d == 0 {
        "0"
    } else if d == 1 {
        "1"
    } else if d == 2 {
        "2"
    } else if d == 3 {
        "3"
    } else if d == 4 {
        "4"
    } else if d == 5 {
        "5"
    } else if d == 6 {
        "6"
    } else if d == 7 {
        "7"
    } else if d == 8 {
        "8"
    } else {
        "9"
    }
}

/// Renders `n` in decimal.
pub fn u32_to_string(n: u32) -> (r: String)
    ensures
        r@ == spec_u32_digits(n as int),
    decreases n,
{
    if n < 10 {
        digit_str(n).to_owned()
    } else {
        proof {
            assert(n / 10 < n) by (nonlinear_arith)
                requires
                    n >= 10,
            ;
        }
        let mut s = u32_to_string(n / 10);
        s.append(digit_str(n % 10));
        s
    }
}

impl BinaryVersion {
    /// Renders the version as `major.minor.patch`.
    pub fn to_string(&self) -> (r: String)
        ensures
            r@ == spec_version_string(*self),
    {
        proof {
            reveal_strlit(".");
        }
        let mut s = u32_to_string(self.major_version);
        s.append(".");
        let minor = u32_to_string(self.minor_version);
        s.append(minor.as_str());
        s.append(".");
        let patch = u32_to_string(self.patch_version);
        s.append(patch.as_str());
        s
    }
}

impl Default for BinaryVersion {
    fn default() -> (r: Self)
        ensures
            r.major_version == 0,
            r.minor_version == 0,
            r.patch_version == 0,
    {
        BinaryVersion { major_version: 0, minor_version: 0, patch_version: 0 }
    }
}

} // verus!
