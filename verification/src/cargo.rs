//! Build-output directory locator.
//!
//! The build tool's metadata command reports, somewhere in one large
//! machine-generated JSON document, a `"target_directory":` key whose
//! string value is the directory where build artifacts are placed. This
//! module extracts that one field by substring scanning instead of
//! structural parsing: it takes the *last* occurrence of the key marker
//! (earlier ones could come from nested, non-top-level structures; if
//! the producing tool ever nested a same-named key *after* the
//! authoritative one, the scan would pick that one instead — a known,
//! deliberate limit of the heuristic), reads the quoted value after it,
//! and collapses doubled backslashes, the escaping the format applies
//! to backslash path separators. Output that is not valid UTF-8, or in
//! which the key or either quote cannot be found, yields the single
//! undifferentiated "not found" outcome.
//!
//! Running the metadata command is the caller's job; [`target_dir`]
//! takes the outcome of that invocation as a value.

use crate::encoding::{
    is_utf8, lemma_ascii_boundaries, lemma_first_scalar_shape, lemma_single_ascii_byte_valid,
};
use vstd::prelude::*;
use vstd::utf8::*;

verus! {

/// The directory where build artifacts are placed, as reported by the
/// metadata command: the bytes of a native path string, every doubled
/// backslash of the raw field value collapsed to a single one.
#[derive(Debug)]
pub struct TargetDir(pub Vec<u8>);

impl View for TargetDir {
    type V = Seq<u8>;

    open spec fn view(&self) -> Seq<u8> {
        self.0@
    }
}

/// Why no target directory could be produced: the metadata command
/// could not be run at all (`Io`, carrying the platform cause), or it
/// ran but the expected field could not be located in its output
/// (`NotFound`, which has no underlying cause to carry).
#[derive(Debug)]
pub enum TargetDirError {
    Io(std::io::Error),
    NotFound,
}

/// True when the byte rendering of the key marker `"target_directory":`
/// occupies positions `i .. i + 19` of `m`.
pub open spec fn key_at(m: Seq<u8>, i: int) -> bool {
    &&& 0 <= i
    &&& i + 19 <= m.len()
    &&& m[i] == 34u8  // "
    &&& m[i + 1] == 116u8  // t
    &&& m[i + 2] == 97u8  // a
    &&& m[i + 3] == 114u8  // r
    &&& m[i + 4] == 103u8  // g
    &&& m[i + 5] == 101u8  // e
    &&& m[i + 6] == 116u8  // t
    &&& m[i + 7] == 95u8  // _
    &&& m[i + 8] == 100u8  // d
    &&& m[i + 9] == 105u8  // i
    &&& m[i + 10] == 114u8  // r
    &&& m[i + 11] == 101u8  // e
    &&& m[i + 12] == 99u8  // c
    &&& m[i + 13] == 116u8  // t
    &&& m[i + 14] == 111u8  // o
    &&& m[i + 15] == 114u8  // r
    &&& m[i + 16] == 121u8  // y
    &&& m[i + 17] == 34u8  // "
    &&& m[i + 18] == 58u8  // :
}

/// The position of the last key marker strictly before `end`, if any.
pub open spec fn last_key_before(m: Seq<u8>, end: int) -> Option<int>
    decreases end,
{
    if end <= 0 {
        None
    } else if key_at(m, end - 1) {
        Some(end - 1)
    } else {
        last_key_before(m, end - 1)
    }
}

/// The position of the first quotation byte at or after `i`, if any.
pub open spec fn first_quote_from(m: Seq<u8>, i: int) -> Option<int>
    decreases m.len() - i,
{
    if i < 0 || i >= m.len() {
        None
    } else if m[i] == 34u8 {
        Some(i)
    } else {
        first_quote_from(m, i + 1)
    }
}

/// `s` with every doubled backslash collapsed to a single backslash,
/// scanning left to right without overlap.
pub open spec fn unescape(s: Seq<u8>) -> Seq<u8>
    decreases s.len(),
{
    if s.len() >= 2 && s[0] == 92u8 && s[1] == 92u8 {
        seq![92u8] + unescape(s.skip(2))
    } else if s.len() >= 1 {
        seq![s[0]] + unescape(s.skip(1))
    } else {
        Seq::empty()
    }
}

/// The scan starts from the *last* key marker: what `last_key_before`
/// finds is a marker position before `end` and no later position before
/// `end` carries the marker; when it finds nothing, no position before
/// `end` carries the marker at all.
pub proof fn lemma_last_key_before_is_last(m: Seq<u8>, end: int)
    ensures
        (last_key_before(m, end) matches Some(k) ==> key_at(m, k) && k < end && forall|j: int|
            k < j < end ==> !key_at(m, j)),
        (last_key_before(m, end) is None ==> forall|j: int| 0 <= j < end ==> !key_at(m, j)),
    decreases end,
{
    if end > 0 && !key_at(m, end - 1) {
        lemma_last_key_before_is_last(m, end - 1);
    }
}

/// The scan copies a backslash-free prefix through unchanged, so it
/// can be crossed in one step of up to four bytes.
proof fn lemma_unescape_past_plain(s: Seq<u8>, k: int)
    requires
        0 <= k <= s.len(),
        k <= 4,
        k >= 1 ==> s[0] != 92u8,
        k >= 2 ==> s[1] != 92u8,
        k >= 3 ==> s[2] != 92u8,
        k >= 4 ==> s[3] != 92u8,
    ensures
        unescape(s) == s.take(k) + unescape(s.skip(k)),
    decreases k,
{
    if k == 0 {
        assert(s.skip(0) =~= s);
        assert(s.take(0) + unescape(s) =~= unescape(s));
    } else {
        assert(unescape(s) == seq![s[0]] + unescape(s.skip(1)));
        lemma_unescape_past_plain(s.skip(1), k - 1);
        assert(s.skip(1).skip(k - 1) =~= s.skip(k));
        assert(seq![s[0]] + s.skip(1).take(k - 1) =~= s.take(k));
        assert(seq![s[0]] + (s.skip(1).take(k - 1) + unescape(s.skip(k))) =~= (seq![s[0]] + s.skip(
            1,
        ).take(k - 1)) + unescape(s.skip(k)));
    }
}

/// Collapsing doubled backslashes never breaks a scalar encoding:
/// backslashes only occur as one-byte scalars, so the unescaped bytes
/// of well-formed UTF-8 are again well-formed UTF-8.
pub proof fn lemma_unescape_keeps_valid_utf8(s: Seq<u8>)
    requires
        valid_utf8(s),
    ensures
        valid_utf8(unescape(s)),
    decreases s.len(),
{
    if s.len() != 0 {
        reveal_with_fuel(valid_utf8, 3);
        lemma_first_scalar_shape(s);
        let w = length_of_first_scalar(s);
        if s.len() >= 2 && s[0] == 92u8 && s[1] == 92u8 {
            // two one-byte scalars collapse into one backslash
            assert(w == 1);
            assert(pop_first_scalar(s) =~= s.skip(1));
            assert(s.skip(1)[0] == 92u8);
            assert(pop_first_scalar(s.skip(1)) =~= s.skip(2));
            assert(valid_utf8(s.skip(2)));
            lemma_unescape_keeps_valid_utf8(s.skip(2));
            lemma_single_ascii_byte_valid(92u8);
            valid_utf8_concat(seq![92u8], unescape(s.skip(2)));
            assert(unescape(s) == seq![92u8] + unescape(s.skip(2)));
        } else if w == 1 {
            assert(pop_first_scalar(s) =~= s.skip(1));
            lemma_unescape_keeps_valid_utf8(s.skip(1));
            lemma_single_ascii_byte_valid(s[0]);
            valid_utf8_concat(seq![s[0]], unescape(s.skip(1)));
            assert(unescape(s) == seq![s[0]] + unescape(s.skip(1)));
        } else {
            // a multibyte scalar holds no backslash byte at all
            lemma_unescape_past_plain(s, w);
            let head = s.take(w);
            assert(head =~= s.subrange(0, w));
            assert(valid_first_scalar(head));
            assert(pop_first_scalar(head) =~= Seq::<u8>::empty());
            assert(valid_utf8(head));
            assert(pop_first_scalar(s) =~= s.skip(w));
            lemma_unescape_keeps_valid_utf8(s.skip(w));
            valid_utf8_concat(head, unescape(s.skip(w)));
        }
    }
}

/// The raw scan over metadata bytes `m`: the unescaped substring
/// between the first pair of quotes after the last key marker, or
/// nothing when the marker or either quote is missing.
pub open spec fn extracted_value(m: Seq<u8>) -> Option<Seq<u8>> {
    match last_key_before(m, m.len() as int) {
        None => None,
        Some(k) => match first_quote_from(m, k + 19) {
            None => None,
            Some(q1) => match first_quote_from(m, q1 + 1) {
                None => None,
                Some(q2) => Some(unescape(m.subrange(q1 + 1, q2))),
            },
        },
    }
}

/// What the locator produces from captured metadata bytes `m`: the
/// scanned value when `m` is valid UTF-8 text, nothing otherwise.
pub open spec fn located_target_dir(m: Seq<u8>) -> Option<Seq<u8>> {
    if valid_utf8(m) {
        extracted_value(m)
    } else {
        None
    }
}

/// Whether the key marker starts at position `i` of `m`.
fn key_at_index(m: &Vec<u8>, i: usize) -> (r: bool)
    requires
        i < m@.len(),
    ensures
        r == key_at(m@, i as int),
{
    let n = m.len();
    if n < 19 || i > n - 19 {
        return false;
    }
    m[i] == 34 && m[i + 1] == 116 && m[i + 2] == 97 && m[i + 3] == 114 && m[i + 4] == 103 && m[i
        + 5] == 101 && m[i + 6] == 116 && m[i + 7] == 95 && m[i + 8] == 100 && m[i + 9] == 105 && m[i
        + 10] == 114 && m[i + 11] == 101 && m[i + 12] == 99 && m[i + 13] == 116 && m[i + 14] == 111
        && m[i + 15] == 114 && m[i + 16] == 121 && m[i + 17] == 34 && m[i + 18] == 58
}

/// The position of the last key marker in `m`, if any.
fn rfind_key(m: &Vec<u8>) -> (r: Option<usize>)
    ensures
        (r matches Some(i) ==> last_key_before(m@, m@.len() as int) == Some(i as int) && key_at(
            m@,
            i as int,
        )),
        (r is None ==> last_key_before(m@, m@.len() as int) is None),
{
    let mut end = m.len();
    while end > 0
        invariant
            end <= m@.len(),
            last_key_before(m@, m@.len() as int) == last_key_before(m@, end as int),
        decreases end,
    {
        let idx = end - 1;
        if key_at_index(m, idx) {
            return Some(idx);
        }
        end = idx;
    }
    None
}

/// The position of the first quotation byte of `m` at or after `start`,
/// if any.
fn find_quote_from(m: &Vec<u8>, start: usize) -> (r: Option<usize>)
    ensures
        (r matches Some(q) ==> first_quote_from(m@, start as int) == Some(q as int) && start <= q
            < m@.len() && m@[q as int] == 34u8),
        (r is None ==> first_quote_from(m@, start as int) is None),
{
    let n = m.len();
    let mut j = start;
    while j < n
        invariant
            start <= j,
            n == m@.len(),
            first_quote_from(m@, start as int) == first_quote_from(m@, j as int),
        decreases n - j,
    {
        if m[j] == 34 {
            return Some(j);
        }
        j = j + 1;
    }
    None
}

/// Copies `m[lo .. hi]` out into a fresh vector.
fn copy_range(m: &Vec<u8>, lo: usize, hi: usize) -> (r: Vec<u8>)
    requires
        lo <= hi <= m@.len(),
    ensures
        r@ == m@.subrange(lo as int, hi as int),
{
    let mut out: Vec<u8> = Vec::new();
    proof {
        assert(out@ =~= m@.subrange(lo as int, lo as int));
    }
    let mut j = lo;
    while j < hi
        invariant
            lo <= j <= hi <= m@.len(),
            out@ == m@.subrange(lo as int, j as int),
        decreases hi - j,
    {
        out.push(m[j]);
        proof {
            assert(out@ =~= m@.subrange(lo as int, j + 1 as int));
        }
        j = j + 1;
    }
    out
}

/// Collapses every doubled backslash in `s` to a single backslash.
fn unescape_doubled(s: &Vec<u8>) -> (r: Vec<u8>)
    ensures
        r@ == unescape(s@),
{
    let n = s.len();
    let mut out: Vec<u8> = Vec::new();
    let mut j: usize = 0;
    proof {
        assert(s@.skip(0) =~= s@);
    }
    while j < n
        invariant
            j <= n,
            n == s@.len(),
            unescape(s@) == out@ + unescape(s@.skip(j as int)),
        decreases n - j,
    {
        let ghost t = s@.skip(j as int);
        if n - j >= 2 && s[j] == 92 && s[j + 1] == 92 {
            let ghost prev = out@;
            out.push(92);
            proof {
                assert(t[0] == 92u8 && t[1] == 92u8 && t.len() >= 2);
                assert(t.skip(2) =~= s@.skip(j + 2 as int));
                assert(out@ =~= prev + seq![92u8]);
                assert((prev + seq![92u8]) + unescape(s@.skip(j + 2 as int)) =~= prev + (seq![92u8]
                    + unescape(s@.skip(j + 2 as int))));
            }
            j = j + 2;
        } else {
            let b = s[j];
            let ghost prev = out@;
            out.push(b);
            proof {
                assert(t.len() >= 1 && t[0] == b);
                assert(t.skip(1) =~= s@.skip(j + 1 as int));
                assert(out@ =~= prev + seq![b]);
                assert((prev + seq![b]) + unescape(s@.skip(j + 1 as int)) =~= prev + (seq![b]
                    + unescape(s@.skip(j + 1 as int))));
            }
            j = j + 1;
        }
    }
    proof {
        assert(s@.skip(n as int) =~= Seq::<u8>::empty());
        assert(out@ + Seq::<u8>::empty() =~= out@);
    }
    out
}

/// Produces the build output directory from the outcome of the metadata
/// command invocation. A command that could not be run at all becomes
/// `Io` with the platform cause; captured output in which the field
/// cannot be located — not UTF-8 text, no key marker, or a missing
/// opening or closing quote — becomes the causeless `NotFound`.
pub fn target_dir(output: Result<Vec<u8>, std::io::Error>) -> (r: Result<
    TargetDir,
    TargetDirError,
>)
    ensures
        (output matches Err(cause) ==> r matches Err(e) && e matches TargetDirError::Io(c) && c
            == cause),
        (output matches Ok(metadata) ==> match located_target_dir(metadata@) {
            Some(value) => r matches Ok(dir) && dir@ == value,
            None => r matches Err(e) && e is NotFound,
        }),
        (r matches Ok(dir) ==> valid_utf8(dir@)),
{
    let metadata = match output {
        Ok(bytes) => bytes,
        Err(cause) => { return Err(TargetDirError::Io(cause)) },
    };
    if !is_utf8(&metadata) {
        return Err(TargetDirError::NotFound);
    }
    let key_index = match rfind_key(&metadata) {
        Some(i) => i,
        None => { return Err(TargetDirError::NotFound) },
    };
    let open_quote = match find_quote_from(&metadata, key_index + 19) {
        Some(q) => q,
        None => { return Err(TargetDirError::NotFound) },
    };
    let close_quote = match find_quote_from(&metadata, open_quote + 1) {
        Some(q) => q,
        None => { return Err(TargetDirError::NotFound) },
    };
    let raw = copy_range(&metadata, open_quote + 1, close_quote);
    let path = unescape_doubled(&raw);
    proof {
        // The quotes are one-byte scalars, so the value between them is
        // itself well-formed UTF-8, and unescaping keeps it so.
        let m = metadata@;
        let q1 = open_quote as int;
        let q2 = close_quote as int;
        lemma_ascii_boundaries(m, q1);
        valid_utf8_split(m, q1 + 1);
        let right = m.subrange(q1 + 1, m.len() as int);
        assert(right[q2 - q1 - 1] == m[q2]);
        lemma_ascii_boundaries(right, q2 - q1 - 1);
        valid_utf8_split(right, q2 - q1 - 1);
        assert(right.subrange(0, q2 - q1 - 1) =~= m.subrange(q1 + 1, q2));
        lemma_unescape_keeps_valid_utf8(m.subrange(q1 + 1, q2));
    }
    Ok(TargetDir(path))
}

} // verus!
