//! Tile-set names: the base name of an archive file with its extension
//! stripped, and string equality for registry lookups.

use vstd::prelude::*;

verus! {

/// The position of the last occurrence of `c` in `s`, if any.
pub open spec fn last_pos(s: Seq<char>, c: char) -> Option<int>
    decreases s.len(),
{
    if s.len() == 0 {
        None
    } else if s.last() == c {
        Some(s.len() - 1)
    } else {
        last_pos(s.drop_last(), c)
    }
}

proof fn lemma_last_pos_in_range(s: Seq<char>, c: char)
    ensures
        last_pos(s, c) matches Some(i) ==> 0 <= i < s.len() && s[i] == c,
        last_pos(s, c) is None ==> forall|i: int| 0 <= i < s.len() ==> s[i] != c,
    decreases s.len(),
{
    if s.len() > 0 && s.last() != c {
        lemma_last_pos_in_range(s.drop_last(), c);
        assert(forall|i: int| #![auto] 0 <= i < s.len() - 1 ==> s[i] == s.drop_last()[i]);
    }
}

/// The base name of `p`: everything after the last `/`, the whole of `p`
/// when it has none.
pub open spec fn base_name_spec(p: Seq<char>) -> Seq<char> {
    match last_pos(p, '/') {
        Some(i) => p.skip(i + 1),
        None => p,
    }
}

/// The tile-set name derived from a file path: the base name with the part
/// from its last `.` on removed.  A `.` in first position marks a hidden
/// file, not an extension.  `None` when the base name is empty.
///
/// The path is read literally, character by character: a path ending in a
/// separator has no base name (`None`), and a `..` component is treated
/// like a hidden file's name (`Some`), where std's `Path` would normalize
/// components first and decide the other way.  The startup scan hands in
/// plain file paths, on which the two readings agree.
pub open spec fn stem_spec(p: Seq<char>) -> Option<Seq<char>> {
    let base = base_name_spec(p);
    if base.len() == 0 {
        None
    } else {
        match last_pos(base, '.') {
            Some(j) => if j >= 1 {
                Some(base.take(j))
            } else {
                Some(base)
            },
            None => Some(base),
        }
    }
}

/// Scans `s` backward from position `from` (exclusive) for `c`.
fn scan_last(s: &str, from: usize, c: char) -> (r: Option<usize>)
    requires
        from <= s@.len(),
    ensures
        match r {
            Some(i) => Some(i as int) == last_pos(s@.take(from as int), c),
            None => last_pos(s@.take(from as int), c) is None,
        },
{
    let mut i = from;
    while i > 0
        invariant
            i <= from <= s@.len(),
            last_pos(s@.take(from as int), c) == last_pos(s@.take(i as int), c),
        decreases i,
    {
        let ch = s.get_char(i - 1);
        proof {
            assert(s@.take(i as int).last() == s@[i - 1]);
            assert(s@.take(i as int).drop_last() =~= s@.take(i - 1));
        }
        if ch == c {
            return Some(i - 1);
        }
        i = i - 1;
    }
    proof {
        assert(s@.take(0) =~= Seq::<char>::empty());
    }
    None
}

/// The tile-set name for the archive at `path`: base file name, extension
/// stripped; `None` when the path has no base name.
pub fn derive_name(path: &str) -> (r: Option<String>)
    ensures
        r is Some <==> stem_spec(path@) is Some,
        r matches Some(s) ==> Some(s@) == stem_spec(path@),
{
    let n = path.unicode_len();
    proof {
        assert(path@.take(n as int) =~= path@);
    }
    let last_slash = scan_last(path, n, '/');
    proof {
        lemma_last_pos_in_range(path@, '/');
    }
    let start = match last_slash {
        Some(i) => i + 1,
        None => 0,
    };
    if start == n {
        return None;
    }
    let stem_end = match scan_last(path, n, '.') {
        Some(j) => if j >= start + 1 {
            j
        } else {
            n
        },
        None => n,
    };
    proof {
        lemma_last_pos_in_range(path@, '.');
        lemma_base_dot(path@, start as int, stem_end as int, n as int);
    }
    let stem = path.substring_char(start, stem_end);
    Some(stem.to_owned())
}

/// Relates a backward dot scan over the whole path to `last_pos` of the
/// base name: positions shift by the base name's start.
proof fn lemma_base_dot(p: Seq<char>, start: int, stem_end: int, n: int)
    requires
        n == p.len(),
        0 <= start < n,
        start == 0 ==> last_pos(p, '/') is None,
        start > 0 ==> last_pos(p, '/') == Some(start - 1),
        ({
            let d = last_pos(p, '.');
            (d matches Some(j) && j >= start + 1 && stem_end == j) || ((d is None || (
            d matches Some(j) && j < start + 1)) && stem_end == n)
        }),
    ensures
        stem_spec(p) == Some(p.subrange(start, stem_end)),
{
    let base = base_name_spec(p);
    assert(base =~= p.subrange(start, n));
    lemma_last_pos_shift(p, start);
    lemma_last_pos_in_range(p, '.');
    if stem_end == n {
        assert(base.take(base.len() as int) =~= base);
        assert(p.subrange(start, stem_end) =~= base);
    } else {
        assert(p.subrange(start, stem_end) =~= base.take(stem_end - start));
    }
}

/// `last_pos` of a suffix: occurrences at or after `start` keep their place
/// (shifted); when the last occurrence lies before `start`, or there is
/// none, the suffix has none.
proof fn lemma_last_pos_shift(p: Seq<char>, start: int)
    requires
        0 <= start <= p.len(),
    ensures
        match last_pos(p, '.') {
            Some(j) => if j >= start {
                last_pos(p.subrange(start, p.len() as int), '.') == Some(j - start)
            } else {
                last_pos(p.subrange(start, p.len() as int), '.') is None
            },
            None => last_pos(p.subrange(start, p.len() as int), '.') is None,
        },
    decreases p.len() - start,
{
    let suf = p.subrange(start, p.len() as int);
    if suf.len() == 0 {
        lemma_last_pos_in_range(p, '.');
    } else {
        assert(suf.last() == p.last());
        if p.last() == '.' {
        } else {
            lemma_last_pos_shift(p.drop_last(), start);
            assert(p.drop_last().subrange(start, p.drop_last().len() as int) =~= suf.drop_last());
        }
    }
}

/// Character-for-character string equality: `true` exactly when the two
/// views are the same sequence.
pub fn str_eq(a: &str, b: &str) -> (r: bool)
    ensures
        r == (a@ == b@),
{
    let na = a.unicode_len();
    let nb = b.unicode_len();
    if na != nb {
        proof {
            assert(a@ != b@);
        }
        return false;
    }
    let mut i: usize = 0;
    while i < na
        invariant
            i <= na,
            na == a@.len() == b@.len(),
            forall|j: int| 0 <= j < i ==> a@[j] == b@[j],
        decreases na - i,
    {
        if a.get_char(i) != b.get_char(i) {
            return false;
        }
        i = i + 1;
    }
    proof {
        assert(a@ =~= b@);
    }
    true
}

} // verus!
