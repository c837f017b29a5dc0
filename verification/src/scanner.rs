//! The content scanner: finds the first private-key-like pattern in a
//! file's bytes and reports its 1-based line number.
//!
//! A match is an ASCII `0x` immediately followed by 64 hexadecimal
//! digits. The reported line number is one more than the number of
//! newline bytes strictly before the start of the first match.

use vstd::prelude::*;
use vstd::string::StringSliceAdditionalSpecFns;

verus! {

/// One reported match: the file's path and the 1-based line number of
/// the first private-key-like pattern found in it.
#[derive(Clone, Debug, PartialEq, Eq)]
pub struct Finding {
    pub path: String,
    pub line: usize,
}

/// One file handed to the scanner: its path and its raw contents.
#[derive(Clone)]
pub struct FileEntry {
    pub path: String,
    pub content: Vec<u8>,
}

/// An ASCII hexadecimal digit.
pub open spec fn is_hex_digit(b: u8) -> bool {
    (48 <= b && b <= 57) || (97 <= b && b <= 102) || (65 <= b && b <= 70)
}

/// A private-key-like pattern starts at offset `i` of `s`: the byte
/// `0`, the byte `x`, then 64 hexadecimal digits.
pub open spec fn key_at(s: Seq<u8>, i: int) -> bool {
    &&& 0 <= i
    &&& i + 66 <= s.len()
    &&& s[i] == 48u8
    &&& s[i + 1] == 120u8
    &&& forall|j: int| i + 2 <= j < i + 66 ==> is_hex_digit(#[trigger] s[j])
}

/// `s` holds a private-key-like pattern somewhere.
pub open spec fn has_key(s: Seq<u8>) -> bool {
    exists|i: int| key_at(s, i)
}

/// `k` is the offset of the leftmost pattern in `s`.
pub open spec fn is_first_key(s: Seq<u8>, k: int) -> bool {
    &&& key_at(s, k)
    &&& forall|j: int| 0 <= j < k ==> !key_at(s, j)
}

/// The offset of the leftmost pattern in `s` (meaningful when
/// `has_key(s)` holds).
pub open spec fn first_key(s: Seq<u8>) -> int {
    choose|k: int| is_first_key(s, k)
}

/// How many newline bytes `s` holds.
pub open spec fn newline_count(s: Seq<u8>) -> nat
    decreases s.len(),
{
    if s.len() == 0 {
        0
    } else {
        newline_count(s.drop_last()) + (if s.last() == 10u8 {
            1nat
        } else {
            0nat
        })
    }
}

/// How many newline characters a character sequence holds.
pub open spec fn newline_char_count(s: Seq<char>) -> nat
    decreases s.len(),
{
    if s.len() == 0 {
        0
    } else {
        newline_char_count(s.drop_last()) + (if s.last() == '\n' {
            1nat
        } else {
            0nat
        })
    }
}

proof fn lemma_newline_count_ascii(cs: Seq<char>, bs: Seq<u8>)
    requires
        bs.len() == cs.len(),
        forall|i: int| 0 <= i < cs.len() ==> bs[i] == #[trigger] cs[i] as u8,
        vstd::utf8::is_ascii_chars(cs),
    ensures
        newline_count(bs) == newline_char_count(cs),
    decreases cs.len(),
{
    if cs.len() > 0 {
        assert(vstd::utf8::is_ascii_chars(cs.drop_last()));
        lemma_newline_count_ascii(cs.drop_last(), bs.drop_last());
        assert(bs.last() == cs.last() as u8);
        assert('\0' <= cs.last() <= '\u{7f}');
        assert(cs.last() == '\n' <==> bs.last() == 10u8);
    }
}

/// What the scanner reports for one file's bytes: the 1-based line
/// number of the leftmost pattern, or nothing when there is none.
pub open spec fn spec_report(s: Seq<u8>) -> Option<usize> {
    if has_key(s) {
        Some((newline_count(s.take(first_key(s))) + 1) as usize)
    } else {
        None
    }
}

/// Any sequence has no more newlines than bytes.
pub proof fn lemma_newline_count_le(s: Seq<u8>)
    ensures
        newline_count(s) <= s.len(),
    decreases s.len(),
{
    if s.len() > 0 {
        lemma_newline_count_le(s.drop_last());
    }
}

/// The leftmost pattern offset is unique.
pub proof fn lemma_first_key_unique(s: Seq<u8>, a: int, b: int)
    requires
        is_first_key(s, a),
        is_first_key(s, b),
    ensures
        a == b,
{
    if a < b {
        assert(!key_at(s, a));
    }
    if b < a {
        assert(!key_at(s, b));
    }
}

/// A pattern somewhere gives a leftmost pattern.
pub proof fn lemma_first_key_exists(s: Seq<u8>, i: int)
    requires
        key_at(s, i),
    ensures
        is_first_key(s, first_key(s)),
    decreases i,
{
    if exists|j: int| 0 <= j < i && key_at(s, j) {
        let j = choose|j: int| 0 <= j < i && key_at(s, j);
        lemma_first_key_exists(s, j);
    } else {
        assert(is_first_key(s, i));
        assert(exists|k: int| is_first_key(s, k));
    }
}

/// A file whose first pattern sits at byte offset `k`, preceded by
/// exactly `m` newline bytes, is reported on line `m + 1`.
pub proof fn lemma_line_number(s: Seq<u8>, k: int, m: nat)
    requires
        is_first_key(s, k),
        newline_count(s.take(k)) == m,
    ensures
        spec_report(s) == Some((m + 1) as usize),
{
    assert(key_at(s, k));
    assert(has_key(s));
    lemma_first_key_exists(s, k);
    lemma_first_key_unique(s, k, first_key(s));
}

fn hex_digit(b: u8) -> (r: bool)
    ensures
        r == is_hex_digit(b),
{
    (48 <= b && b <= 57) || (97 <= b && b <= 102) || (65 <= b && b <= 70)
}

fn hex_run(s: &[u8], start: usize) -> (r: bool)
    requires
        start + 64 <= s@.len(),
    ensures
        r <==> forall|t: int| start <= t < start + 64 ==> is_hex_digit(#[trigger] s@[t]),
{
    let n = s.len();
    let mut j: usize = 0;
    while j < 64
        invariant
            start + 64 <= n,
            n == s@.len(),
            j <= 64,
            forall|t: int| start <= t < start + j ==> is_hex_digit(#[trigger] s@[t]),
        decreases 64 - j,
    {
        if !hex_digit(s[start + j]) {
            return false;
        }
        j = j + 1;
    }
    true
}

/// The byte offset of the leftmost private-key-like pattern in `s`.
pub fn find_key_offset(s: &[u8]) -> (r: Option<usize>)
    ensures
        match r {
            Some(k) => is_first_key(s@, k as int),
            None => !has_key(s@),
        },
{
    if s.len() < 66 {
        assert(forall|i: int| !key_at(s@, i));
        return None;
    }
    let end: usize = s.len() - 66;
    let mut i: usize = 0;
    while i <= end
        invariant
            s@.len() >= 66,
            end == s@.len() - 66,
            i <= end + 1,
            forall|j: int| 0 <= j < i ==> !key_at(s@, j),
        decreases end + 1 - i,
    {
        if s[i] == 48u8 && s[i + 1] == 120u8 && hex_run(s, i + 2) {
            assert(key_at(s@, i as int));
            return Some(i);
        }
        assert(!key_at(s@, i as int));
        i = i + 1;
    }
    assert(forall|j: int| !key_at(s@, j));
    None
}

fn count_newlines_prefix(s: &[u8], end: usize) -> (r: usize)
    requires
        end <= s@.len(),
    ensures
        r == newline_count(s@.take(end as int)),
{
    let mut count: usize = 0;
    let mut i: usize = 0;
    while i < end
        invariant
            end <= s@.len(),
            i <= end,
            count <= i,
            count == newline_count(s@.take(i as int)),
        decreases end - i,
    {
        proof {
            assert(s@.take(i + 1).drop_last() =~= s@.take(i as int));
            assert(s@.take(i + 1).last() == s@[i as int]);
        }
        if s[i] == 10u8 {
            count = count + 1;
        }
        i = i + 1;
    }
    count
}

/// How many newline bytes a slice holds.
pub fn count_newline_bytes(s: &[u8]) -> (r: usize)
    ensures
        r == newline_count(s@),
{
    let r = count_newlines_prefix(s, s.len());
    proof {
        assert(s@.take(s@.len() as int) =~= s@);
    }
    r
}

/// How many newlines a string holds, counted over its UTF-8 bytes;
/// for ASCII text that is exactly its count of newline characters.
pub fn count_newlines(s: &str) -> (r: usize)
    ensures
        r == newline_count(s.spec_bytes()),
        vstd::string::is_ascii(s) ==> r == newline_char_count(s@),
{
    proof {
        if vstd::string::is_ascii(s) {
            vstd::string::is_ascii_spec_bytes(s);
            let bv = Seq::new(s@.len(), |i: int| s@.index(i) as u8);
            assert(s.spec_bytes() =~= bv);
            lemma_newline_count_ascii(s@, bv);
        }
    }
    count_newline_bytes(s.as_bytes())
}

/// The 1-based line number of the first private-key-like pattern in
/// `content`, or nothing when `content` holds none.
///
/// A first pattern at byte offset `k` preceded by exactly `m` newline
/// bytes is reported on line `m + 1`.
pub fn find_private_key(content: &[u8]) -> (r: Option<usize>)
    ensures
        r == spec_report(content@),
{
    match find_key_offset(content) {
        None => {
            assert(!has_key(content@));
            None
        },
        Some(k) => {
            let n = content.len();
            proof {
                lemma_first_key_exists(content@, k as int);
                lemma_first_key_unique(content@, k as int, first_key(content@));
                lemma_newline_count_le(content@.take(k as int));
                assert(content@.take(k as int).len() == k as int);
                assert(k + 66 <= n);
            }
            let m = count_newlines_prefix(content, k);
            Some(m + 1)
        },
    }
}

/// What scanning a sequence of files yields: one finding, in input
/// order, for every file whose contents hold a pattern.
pub open spec fn scan_spec(files: Seq<FileEntry>) -> Seq<Finding>
    decreases files.len(),
{
    if files.len() == 0 {
        Seq::empty()
    } else {
        let rest = scan_spec(files.drop_last());
        match spec_report(files.last().content@) {
            Some(l) => rest.push(Finding { path: files.last().path, line: l }),
            None => rest,
        }
    }
}

/// Scan every file and collect one finding per file that holds a
/// private-key-like pattern, in input order.
pub fn find_private_keys(files: &Vec<FileEntry>) -> (r: Vec<Finding>)
    ensures
        r@ == scan_spec(files@),
{
    let mut out: Vec<Finding> = Vec::new();
    let mut i: usize = 0;
    while i < files.len()
        invariant
            i <= files@.len(),
            out@ == scan_spec(files@.take(i as int)),
        decreases files@.len() - i,
    {
        proof {
            assert(files@.take(i + 1).drop_last() =~= files@.take(i as int));
            assert(files@.take(i + 1).last() == files@[i as int]);
        }
        let e = &files[i];
        match find_private_key(e.content.as_slice()) {
            Some(line) => {
                out.push(Finding { path: e.path.clone(), line });
            },
            None => {},
        }
        i = i + 1;
    }
    proof {
        assert(files@.take(files@.len() as int) =~= files@);
    }
    out
}

} // verus!
