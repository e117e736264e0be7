//! Parsing of a logical tile request path.
//!
//! A tail path either names the capabilities document (it contains the TMS
//! descriptor's file name anywhere in it), or it addresses one tile as
//! `scheme/zoom/x/y` followed by a four-character suffix (`.` plus a
//! three-character extension).  The scheme is `tms` or `xyz`; zoom, x and y
//! are non-negative decimal integers.
//!
//! All contracts speak of the path's UTF-8 bytes, `path.spec_bytes()`.

use vstd::prelude::*;
use vstd::string::StringSliceAdditionalSpecFns;

verus! {

/// The row-addressing convention named by a tile path's first segment.
#[derive(Clone, Copy, Debug, PartialEq, Eq, Structural)]
pub enum TileScheme {
    /// Row 0 at the southern edge.
    Tms,
    /// Row 0 at the northern edge.
    Xyz,
}

/// One tile's address, as parsed from a request path.
#[derive(Clone, Copy, Debug, PartialEq, Eq, Structural)]
pub struct TileAddress {
    pub scheme: TileScheme,
    pub zoom: u32,
    pub x: u32,
    pub y: u32,
}

/// A parsed tile request.
#[derive(Clone, Copy, Debug, PartialEq, Eq, Structural)]
pub enum TileRequest {
    /// The capabilities document (the TMS XML descriptor).
    Capabilities,
    /// One tile.
    Tile(TileAddress),
}

/// Why a tail path failed to parse.
#[derive(Clone, Copy, Debug, PartialEq, Eq, Structural)]
pub enum ParseError {
    /// Too short to carry the four-character extension suffix.
    TooShort,
    /// The coordinate part does not split into exactly four segments.
    WrongSegmentCount,
    /// A zoom, x or y segment is not a decimal number a `u32` can hold.
    BadNumber,
    /// The scheme segment is neither `tms` nor `xyz`.
    BadScheme,
}

/// The file name whose presence anywhere in a path marks a capabilities
/// request.
pub open spec fn capabilities_marker() -> Seq<u8> {
    "tilemapresource.xml".spec_bytes()
}

/// `needle` occurs in `s` starting at position `i`.
pub open spec fn matches_at(s: Seq<u8>, needle: Seq<u8>, i: int) -> bool {
    0 <= i && i + needle.len() <= s.len() && s.subrange(i, i + needle.len()) == needle
}

/// `needle` occurs somewhere in `s`.
pub open spec fn contains_seq(s: Seq<u8>, needle: Seq<u8>) -> bool {
    exists|i: int| matches_at(s, needle, i)
}

/// The positions of `sep` in `s`, in ascending order.
pub open spec fn sep_positions(s: Seq<u8>, sep: u8) -> Seq<int>
    decreases s.len(),
{
    if s.len() == 0 {
        Seq::empty()
    } else if s.last() == sep {
        sep_positions(s.drop_last(), sep).push(s.len() - 1)
    } else {
        sep_positions(s.drop_last(), sep)
    }
}

/// A decimal digit byte.
pub open spec fn is_digit(b: u8) -> bool {
    48 <= b <= 57
}

/// Every byte of `s` is a decimal digit.
pub open spec fn all_digits(s: Seq<u8>) -> bool {
    forall|i: int| 0 <= i < s.len() ==> is_digit(#[trigger] s[i])
}

/// The value of `s` read as a decimal numeral.
pub open spec fn dec_val(s: Seq<u8>) -> int
    decreases s.len(),
{
    if s.len() == 0 {
        0
    } else {
        dec_val(s.drop_last()) * 10 + (s.last() - 48)
    }
}

/// `s` is a decimal numeral that a `u32` can hold: non-empty, digits only,
/// value at most `u32::MAX`.
pub open spec fn parses_u32(s: Seq<u8>) -> bool {
    s.len() > 0 && all_digits(s) && dec_val(s) <= u32::MAX
}

/// The scheme named by a segment, if any.
pub open spec fn scheme_of(s: Seq<u8>) -> Option<TileScheme> {
    if s == "tms".spec_bytes() {
        Some(TileScheme::Tms)
    } else if s == "xyz".spec_bytes() {
        Some(TileScheme::Xyz)
    } else {
        None
    }
}

/// What parsing a tail path yields, byte for byte: the capabilities marker
/// anywhere wins; otherwise the path, its last four bytes stripped, must be
/// `scheme/zoom/x/y` with numeric coordinates and a known scheme.  Numbers
/// are checked before the scheme, so a bad number in a path with an unknown
/// scheme reports `BadNumber`.
pub open spec fn parse_spec(path: Seq<u8>) -> Result<TileRequest, ParseError> {
    if contains_seq(path, capabilities_marker()) {
        Ok(TileRequest::Capabilities)
    } else if path.len() < 4 {
        Err(ParseError::TooShort)
    } else {
        let core = path.take(path.len() - 4);
        let ps = sep_positions(core, 47);
        if ps.len() != 3 {
            Err(ParseError::WrongSegmentCount)
        } else {
            let s0 = core.subrange(0, ps[0]);
            let s1 = core.subrange(ps[0] + 1, ps[1]);
            let s2 = core.subrange(ps[1] + 1, ps[2]);
            let s3 = core.subrange(ps[2] + 1, core.len() as int);
            if !(parses_u32(s1) && parses_u32(s2) && parses_u32(s3)) {
                Err(ParseError::BadNumber)
            } else {
                match scheme_of(s0) {
                    Some(scheme) => Ok(
                        TileRequest::Tile(
                            TileAddress {
                                scheme,
                                zoom: dec_val(s1) as u32,
                                x: dec_val(s2) as u32,
                                y: dec_val(s3) as u32,
                            },
                        ),
                    ),
                    None => Err(ParseError::BadScheme),
                }
            }
        }
    }
}

/// Every position `sep_positions` returns lies in `s`, holds `sep`, and the
/// sequence ascends strictly.
proof fn lemma_sep_positions_facts(s: Seq<u8>, sep: u8)
    ensures
        forall|k: int|
            0 <= k < sep_positions(s, sep).len() ==> 0 <= #[trigger] sep_positions(s, sep)[k]
                < s.len() && s[sep_positions(s, sep)[k]] == sep,
        forall|k: int, l: int|
            0 <= k < l < sep_positions(s, sep).len() ==> #[trigger] sep_positions(s, sep)[k]
                < #[trigger] sep_positions(s, sep)[l],
    decreases s.len(),
{
    if s.len() > 0 {
        lemma_sep_positions_facts(s.drop_last(), sep);
        let rec = sep_positions(s.drop_last(), sep);
        let cur = sep_positions(s, sep);
        assert(forall|i: int| #![auto] 0 <= i < s.len() - 1 ==> s[i] == s.drop_last()[i]);
        if s.last() == sep {
            assert(cur == rec.push(s.len() - 1));
            assert forall|k: int| 0 <= k < cur.len() implies 0 <= #[trigger] cur[k] < s.len()
                && s[cur[k]] == sep by {
                if k < rec.len() {
                    assert(cur[k] == rec[k]);
                } else {
                    assert(cur[k] == s.len() - 1);
                    assert(s[s.len() - 1] == s.last());
                }
            }
            assert forall|k: int, l: int| 0 <= k < l < cur.len() implies #[trigger] cur[k]
                < #[trigger] cur[l] by {
                if l < rec.len() {
                    assert(cur[k] == rec[k] && cur[l] == rec[l]);
                } else {
                    assert(cur[l] == s.len() - 1);
                    assert(cur[k] == rec[k]);
                }
            }
        } else {
            assert(cur == rec);
        }
    }
}

/// `needle` occurs in `s` at position `i` exactly when each byte matches.
pub(crate) fn slice_matches_at(s: &[u8], needle: &[u8], i: usize) -> (r: bool)
    requires
        i + needle@.len() <= s@.len(),
    ensures
        r == matches_at(s@, needle@, i as int),
{
    let n = needle.len();
    let sl = s.len();
    let mut j: usize = 0;
    while j < n
        invariant
            j <= n == needle@.len(),
            sl == s@.len(),
            i + n <= sl,
            forall|k: int| 0 <= k < j ==> s@[i + k] == needle@[k],
        decreases n - j,
    {
        if s[i + j] != needle[j] {
            proof {
                assert(s@.subrange(i as int, i + needle@.len())[j as int] != needle@[j as int]);
            }
            return false;
        }
        j = j + 1;
    }
    proof {
        assert(s@.subrange(i as int, i + needle@.len()) =~= needle@);
    }
    true
}

/// Whether `needle` occurs anywhere in `s`.
fn slice_contains(s: &[u8], needle: &[u8]) -> (r: bool)
    ensures
        r == contains_seq(s@, needle@),
{
    let n = needle.len();
    let m = s.len();
    if n > m {
        proof {
            assert(forall|i: int| !matches_at(s@, needle@, i));
        }
        return false;
    }
    if n == 0 {
        proof {
            assert(s@.subrange(0, 0) =~= needle@);
            assert(matches_at(s@, needle@, 0));
        }
        return true;
    }
    let last = m - n;
    let mut i: usize = 0;
    while i <= last
        invariant
            0 < n <= m == s@.len(),
            n == needle@.len(),
            last == m - n,
            i <= last + 1,
            forall|k: int| 0 <= k < i ==> !matches_at(s@, needle@, k),
        decreases last + 1 - i,
    {
        if slice_matches_at(s, needle, i) {
            return true;
        }
        i = i + 1;
    }
    proof {
        assert(forall|k: int| matches_at(s@, needle@, k) ==> 0 <= k <= m - n);
    }
    false
}

/// The positions of `sep` in the first `end` bytes of `s`, ascending.
fn find_separators(s: &[u8], end: usize, sep: u8) -> (ps: Vec<usize>)
    requires
        end <= s@.len(),
    ensures
        ps@.map_values(|p: usize| p as int) == sep_positions(s@.take(end as int), sep),
{
    let mut ps: Vec<usize> = Vec::new();
    let mut i: usize = 0;
    while i < end
        invariant
            i <= end <= s@.len(),
            ps@.map_values(|p: usize| p as int) == sep_positions(s@.take(i as int), sep),
        decreases end - i,
    {
        proof {
            assert(s@.take(i + 1).drop_last() =~= s@.take(i as int));
            assert(s@.take(i + 1).last() == s@[i as int]);
        }
        if s[i] == sep {
            ps.push(i);
            proof {
                assert(ps@.map_values(|p: usize| p as int) =~= ps@.drop_last().map_values(
                    |p: usize| p as int,
                ).push(i as int));
            }
        }
        i = i + 1;
    }
    ps
}

/// Digit prefixes only grow: a numeral is at least the value of any of its
/// prefixes.
proof fn lemma_dec_val_prefix(s: Seq<u8>, k: int)
    requires
        0 <= k <= s.len(),
        all_digits(s),
    ensures
        dec_val(s) >= dec_val(s.take(k)),
        dec_val(s) >= 0,
    decreases s.len() - k,
{
    if k == s.len() {
        assert(s.take(k) =~= s);
        lemma_dec_val_nonneg(s);
    } else {
        lemma_dec_val_prefix(s, k + 1);
        assert(s.take(k + 1).drop_last() =~= s.take(k));
        lemma_dec_val_nonneg(s.take(k));
    }
}

proof fn lemma_dec_val_nonneg(s: Seq<u8>)
    requires
        all_digits(s),
    ensures
        dec_val(s) >= 0,
    decreases s.len(),
{
    if s.len() > 0 {
        assert(all_digits(s.drop_last())) by {
            assert(forall|i: int| #![auto] 0 <= i < s.len() - 1 ==> s[i] == s.drop_last()[i]);
        }
        lemma_dec_val_nonneg(s.drop_last());
    }
}

/// Reads `s[lo..hi]` as a decimal `u32`; `None` exactly when that segment
/// is empty, has a non-digit, or exceeds `u32::MAX`.
fn parse_u32_segment(s: &[u8], lo: usize, hi: usize) -> (r: Option<u32>)
    requires
        lo <= hi <= s@.len(),
    ensures
        ({
            let seg = s@.subrange(lo as int, hi as int);
            match r {
                Some(v) => parses_u32(seg) && v == dec_val(seg),
                None => !parses_u32(seg),
            }
        }),
{
    let ghost seg = s@.subrange(lo as int, hi as int);
    if lo == hi {
        return None;
    }
    let mut acc: u64 = 0;
    let mut i = lo;
    while i < hi
        invariant
            lo <= i <= hi <= s@.len(),
            seg == s@.subrange(lo as int, hi as int),
            all_digits(seg.take(i - lo)),
            acc == dec_val(seg.take(i - lo)),
            acc <= u32::MAX,
        decreases hi - i,
    {
        let b = s[i];
        proof {
            assert(seg.take(i - lo + 1).drop_last() =~= seg.take(i - lo));
            assert(seg.take(i - lo + 1).last() == seg[i - lo]);
            assert(seg[i - lo] == s@[i as int]);
        }
        if b < 48 || b > 57 {
            proof {
                assert(!is_digit(seg[i - lo]));
            }
            return None;
        }
        acc = acc * 10 + (b - 48) as u64;
        proof {
            assert(all_digits(seg.take(i - lo + 1)));
        }
        if acc > 0xFFFF_FFFF {
            proof {
                if all_digits(seg) {
                    lemma_dec_val_prefix(seg, i - lo + 1);
                }
            }
            return None;
        }
        i = i + 1;
    }
    proof {
        assert(seg.take(hi - lo) =~= seg);
    }
    Some(acc as u32)
}

/// Whether `s[lo..hi]` equals `needle` byte for byte.
fn segment_eq(s: &[u8], lo: usize, hi: usize, needle: &[u8]) -> (r: bool)
    requires
        lo <= hi <= s@.len(),
    ensures
        r == (s@.subrange(lo as int, hi as int) == needle@),
{
    let n = needle.len();
    if hi - lo != n {
        proof {
            assert(s@.subrange(lo as int, hi as int).len() != needle@.len());
        }
        return false;
    }
    let r = slice_matches_at(s, needle, lo);
    proof {
        assert(s@.subrange(lo as int, lo + needle@.len()) == s@.subrange(lo as int, hi as int));
    }
    r
}

/// Parses a tail path: the capabilities marker anywhere makes a
/// capabilities request; otherwise the path, less its four-byte suffix,
/// must be `scheme/zoom/x/y`.  Returns exactly what [`parse_spec`] says on
/// the path's bytes.
pub fn parse_tile_path(path: &str) -> (r: Result<TileRequest, ParseError>)
    ensures
        r == parse_spec(path.spec_bytes()),
{
    let b = path.as_bytes();
    let marker = "tilemapresource.xml".as_bytes();
    if slice_contains(b, marker) {
        return Ok(TileRequest::Capabilities);
    }
    let n = b.len();
    if n < 4 {
        return Err(ParseError::TooShort);
    }
    let end = n - 4;
    let ghost core = b@.take(end as int);
    let ps = find_separators(b, end, 47);
    proof {
        lemma_sep_positions_facts(core, 47);
    }
    if ps.len() != 3 {
        return Err(ParseError::WrongSegmentCount);
    }
    let p0 = ps[0];
    let p1 = ps[1];
    let p2 = ps[2];
    proof {
        assert(ps@.map_values(|p: usize| p as int)[0] == p0 as int);
        assert(ps@.map_values(|p: usize| p as int)[1] == p1 as int);
        assert(ps@.map_values(|p: usize| p as int)[2] == p2 as int);
        assert(core.subrange(p0 + 1, p1 as int) =~= b@.subrange(p0 + 1, p1 as int));
        assert(core.subrange(p1 + 1, p2 as int) =~= b@.subrange(p1 + 1, p2 as int));
        assert(core.subrange(p2 + 1, core.len() as int) =~= b@.subrange(p2 + 1, end as int));
        assert(core.subrange(0, p0 as int) =~= b@.subrange(0, p0 as int));
    }
    let zoom = match parse_u32_segment(b, p0 + 1, p1) {
        Some(v) => v,
        None => {
            return Err(ParseError::BadNumber);
        },
    };
    let x = match parse_u32_segment(b, p1 + 1, p2) {
        Some(v) => v,
        None => {
            return Err(ParseError::BadNumber);
        },
    };
    let y = match parse_u32_segment(b, p2 + 1, end) {
        Some(v) => v,
        None => {
            return Err(ParseError::BadNumber);
        },
    };
    let scheme = if segment_eq(b, 0, p0, "tms".as_bytes()) {
        TileScheme::Tms
    } else if segment_eq(b, 0, p0, "xyz".as_bytes()) {
        TileScheme::Xyz
    } else {
        return Err(ParseError::BadScheme);
    };
    Ok(TileRequest::Tile(TileAddress { scheme, zoom, x, y }))
}

} // verus!
