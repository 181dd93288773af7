//! The metadata sidecar ("page"): a list of named chunk descriptors,
//! chunk references and chunk files, treated purely as opaque records
//! filtered and renamed by string match, plus the cleanup pass applied
//! to the page's JSON text before it is deserialized.

use vstd::prelude::*;
use crate::strings::spec_replace;

verus! {

/// One named chunk descriptor.
#[derive(Clone, Debug, PartialEq)]
pub struct Chunk {
    pub name: String,
    pub types: String,
    pub path: String,
}

/// Mathematical model of one chunk descriptor.
#[verifier::ext_equal]
pub struct ChunkView {
    pub name: Seq<char>,
    pub types: Seq<char>,
    pub path: Seq<char>,
}

impl View for Chunk {
    type V = ChunkView;

    open spec fn view(&self) -> ChunkView {
        ChunkView { name: self.name@, types: self.types@, path: self.path@ }
    }
}

/// A list of chunk descriptors.
#[derive(Clone, Debug, PartialEq)]
pub struct ChunkMap {
    pub chunk_maps: Vec<Chunk>,
}

impl View for ChunkMap {
    type V = Seq<ChunkView>;

    open spec fn view(&self) -> Seq<ChunkView> {
        self.chunk_maps@.map_values(|c: Chunk| c@)
    }
}

/// One named reference to a chunk.
#[derive(Clone, Debug, PartialEq)]
pub struct ChunkReference {
    pub name: String,
    pub chunk: Chunk,
}

/// Mathematical model of one chunk reference.
#[verifier::ext_equal]
pub struct ChunkReferenceView {
    pub name: Seq<char>,
    pub chunk: ChunkView,
}

impl View for ChunkReference {
    type V = ChunkReferenceView;

    open spec fn view(&self) -> ChunkReferenceView {
        ChunkReferenceView { name: self.name@, chunk: self.chunk@ }
    }
}

/// One chunk file entry.
#[derive(Clone, Debug, PartialEq)]
pub struct Files {
    pub file_name: String,
    pub chunk: Chunk,
}

/// Mathematical model of one chunk file entry.
#[verifier::ext_equal]
pub struct FilesView {
    pub file_name: Seq<char>,
    pub chunk: ChunkView,
}

impl View for Files {
    type V = FilesView;

    open spec fn view(&self) -> FilesView {
        FilesView { file_name: self.file_name@, chunk: self.chunk@ }
    }
}

/// The whole page: chunk descriptors, chunk references, chunk files.
#[derive(Debug, PartialEq)]
pub struct Page {
    pub chunk_maps: Vec<Chunk>,
    pub chunk_references: Vec<ChunkReference>,
    pub files: Vec<Files>,
}

/// Mathematical model of the whole page.
#[verifier::ext_equal]
pub struct PageView {
    pub chunk_maps: Seq<ChunkView>,
    pub chunk_references: Seq<ChunkReferenceView>,
    pub files: Seq<FilesView>,
}

impl View for Page {
    type V = PageView;

    open spec fn view(&self) -> PageView {
        PageView {
            chunk_maps: self.chunk_maps@.map_values(|c: Chunk| c@),
            chunk_references: self.chunk_references@.map_values(|c: ChunkReference| c@),
            files: self.files@.map_values(|f: Files| f@),
        }
    }
}

/// First position at or after `at` holding character `c`, or the length
/// where none does.
pub open spec fn find_char(s: Seq<char>, c: char, at: int) -> int
    decreases s.len() - at,
{
    if at < 0 || at >= s.len() {
        s.len() as int
    } else if s[at] == c {
        at
    } else {
        find_char(s, c, at + 1)
    }
}

/// The sequence with every comma removed.
pub open spec fn remove_commas(s: Seq<char>) -> Seq<char>
    decreases s.len(),
{
    if s.len() == 0 {
        s
    } else if s.first() == ',' {
        remove_commas(s.drop_first())
    } else {
        seq![s.first()] + remove_commas(s.drop_first())
    }
}

/// From position `cur` on: each complete double-quoted span keeps its
/// quotes but loses its commas; text outside spans, and a trailing span
/// with no closing quote, pass through unchanged.
pub open spec fn strip_from(s: Seq<char>, cur: int) -> Seq<char>
    decreases s.len() - cur,
{
    let q1 = find_char(s, '"', cur);
    if !(0 <= cur <= s.len()) {
        Seq::empty()
    } else if !(cur <= q1 && q1 < s.len()) {
        s.subrange(cur, s.len() as int)
    } else {
        let q2 = find_char(s, '"', q1 + 1);
        if !(q1 + 1 <= q2 && q2 < s.len()) {
            s.subrange(cur, s.len() as int)
        } else {
            s.subrange(cur, q1 + 1) + remove_commas(s.subrange(q1 + 1, q2)) + s.subrange(
                q2,
                q2 + 1,
            ) + strip_from(s, q2 + 1)
        }
    }
}

/// The comma-stripping pass over a whole JSON text.
pub open spec fn strip_commas_quoted(s: Seq<char>) -> Seq<char> {
    strip_from(s, 0)
}

/// The replacement-marker triple that a mis-decoded byte sequence leaves
/// in the page's JSON.
pub open spec fn marker_seq() -> Seq<char> {
    seq!['\u{ef}', '\u{bf}', '\u{bd}']
}

/// The whole cleanup applied to a page's JSON text before it is
/// deserialized: strip commas inside quoted spans, then replace each
/// marker triple with one space.
pub open spec fn page_json_cleaned(s: Seq<char>) -> Seq<char> {
    spec_replace(strip_commas_quoted(s), marker_seq(), seq![' '])
}

/// Find the next double quote at or after `at`.
fn find_quote(s: &str, at: usize, n: usize) -> (r: usize)
    requires
        n == s@.len(),
        at <= n,
    ensures
        r == find_char(s@, '"', at as int),
        at <= r <= n,
{
    let mut i: usize = at;
    while i < n
        invariant
            at <= i <= n,
            n == s@.len(),
            find_char(s@, '"', at as int) == find_char(s@, '"', i as int),
        decreases n - i,
    {
        if s.get_char(i) == '"' {
            return i;
        }
        i += 1;
    }
    n
}

/// Append the span `[lo, hi)` of `s` with its commas removed.
fn append_nocommas(out: &mut String, s: &str, lo: usize, hi: usize)
    requires
        lo <= hi <= s@.len(),
    ensures
        final(out)@ == old(out)@ + remove_commas(s@.subrange(lo as int, hi as int)),
{
    let mut k: usize = lo;
    proof {
        assert(out@ + remove_commas(s@.subrange(lo as int, hi as int)) == old(out)@
            + remove_commas(s@.subrange(lo as int, hi as int)));
    }
    while k < hi
        invariant
            lo <= k <= hi <= s@.len(),
            old(out)@ + remove_commas(s@.subrange(lo as int, hi as int)) == out@ + remove_commas(
                s@.subrange(k as int, hi as int),
            ),
        decreases hi - k,
    {
        let ghost span = s@.subrange(k as int, hi as int);
        proof {
            assert(span.first() == s@[k as int]);
            assert(span.drop_first() =~= s@.subrange(k as int + 1, hi as int));
        }
        let c = s.get_char(k);
        if c != ',' {
            out.append(s.substring_char(k, k + 1));
            proof {
                assert(s@.subrange(k as int, k as int + 1) =~= seq![s@[k as int]]);
                assert(remove_commas(span) == seq![s@[k as int]] + remove_commas(
                    s@.subrange(k as int + 1, hi as int),
                ));
            }
        } else {
            proof {
                assert(remove_commas(span) == remove_commas(
                    s@.subrange(k as int + 1, hi as int),
                ));
            }
        }
        k += 1;
    }
    proof {
        assert(s@.subrange(hi as int, hi as int) =~= Seq::<char>::empty());
        assert(remove_commas(Seq::<char>::empty()) == Seq::<char>::empty());
        assert(out@ + Seq::<char>::empty() =~= out@);
        assert(old(out)@ + remove_commas(s@.subrange(lo as int, hi as int)) =~= final(out)@);
    }
}

/// Strip the commas out of every complete double-quoted span.
fn strip_commas_exec(s: &str) -> (r: String)
    ensures
        r@ == strip_commas_quoted(s@),
{
    let n = s.unicode_len();
    let mut out = String::new();
    let mut cur: usize = 0;
    proof {
        assert(out@ + strip_from(s@, 0) =~= strip_from(s@, 0));
    }
    while cur < n
        invariant
            cur <= n,
            n == s@.len(),
            strip_from(s@, 0) == out@ + strip_from(s@, cur as int),
        decreases n - cur,
    {
        let q1 = find_quote(s, cur, n);
        if q1 >= n {
            out.append(s.substring_char(cur, n));
            proof {
                assert(strip_from(s@, cur as int) == s@.subrange(cur as int, n as int));
                assert(out@ =~= strip_from(s@, 0));
            }
            return out;
        }
        let q2 = find_quote(s, q1 + 1, n);
        if q2 >= n {
            out.append(s.substring_char(cur, n));
            proof {
                assert(strip_from(s@, cur as int) == s@.subrange(cur as int, n as int));
                assert(out@ =~= strip_from(s@, 0));
            }
            return out;
        }
        out.append(s.substring_char(cur, q1 + 1));
        append_nocommas(&mut out, s, q1 + 1, q2);
        out.append(s.substring_char(q2, q2 + 1));
        proof {
            assert(strip_from(s@, cur as int) == s@.subrange(cur as int, q1 as int + 1)
                + remove_commas(s@.subrange(q1 as int + 1, q2 as int)) + s@.subrange(
                q2 as int,
                q2 as int + 1,
            ) + strip_from(s@, q2 as int + 1));
            assert(strip_from(s@, 0) =~= out@ + strip_from(s@, q2 as int + 1));
        }
        cur = q2 + 1;
    }
    proof {
        assert(find_char(s@, '"', cur as int) == s@.len());
        assert(strip_from(s@, cur as int) =~= s@.subrange(cur as int, n as int));
        assert(s@.subrange(cur as int, n as int) =~= Seq::<char>::empty());
        assert(out@ + Seq::<char>::empty() =~= out@);
    }
    out
}

/// Replace every occurrence of the three marker characters by one
/// space, leftmost first.
fn replace_marker(s: &str) -> (r: String)
    ensures
        r@ == spec_replace(s@, marker_seq(), seq![' ']),
{
    let n = s.unicode_len();
    let mut out = String::new();
    let mut i: usize = 0;
    let mut start: usize = 0;
    proof {
        assert(out@ + s@.subrange(0, 0) + spec_replace(s@.subrange(0, n as int), marker_seq(), seq![' '])
            =~= spec_replace(s@, marker_seq(), seq![' '])) by {
            assert(s@.subrange(0, n as int) =~= s@);
        };
    }
    while 3 <= n - i
        invariant
            n == s@.len(),
            start <= i <= n,
            spec_replace(s@, marker_seq(), seq![' ']) == out@ + s@.subrange(
                start as int,
                i as int,
            ) + spec_replace(s@.subrange(i as int, n as int), marker_seq(), seq![' ']),
        decreases n - i,
    {
        let ghost suffix = s@.subrange(i as int, n as int);
        proof {
            assert(suffix.subrange(0, 3) =~= s@.subrange(i as int, i as int + 3));
            assert(suffix.subrange(3, suffix.len() as int) =~= s@.subrange(
                i as int + 3,
                n as int,
            ));
            assert(suffix.subrange(1, suffix.len() as int) =~= s@.subrange(
                i as int + 1,
                n as int,
            ));
            assert(suffix[0] == s@[i as int]);
        }
        let hit = s.get_char(i) == '\u{ef}' && s.get_char(i + 1) == '\u{bf}' && s.get_char(i + 2)
            == '\u{bd}';
        proof {
            if hit {
                assert(s@.subrange(i as int, i as int + 3) =~= marker_seq());
            } else {
                assert(s@.subrange(i as int, i as int + 3)[0] == s@[i as int]);
                assert(s@.subrange(i as int, i as int + 3)[1] == s@[i as int + 1]);
                assert(s@.subrange(i as int, i as int + 3)[2] == s@[i as int + 2]);
                assert(s@.subrange(i as int, i as int + 3) != marker_seq());
            }
        }
        if hit {
            out.append(s.substring_char(start, i));
            out.append(" ");
            proof {
                reveal_strlit(" ");
                assert(" "@ =~= seq![' ']);
                assert(spec_replace(suffix, marker_seq(), seq![' ']) == seq![' '] + spec_replace(
                    s@.subrange(i as int + 3, n as int),
                    marker_seq(),
                    seq![' '],
                ));
                assert(out@ + s@.subrange(i as int + 3, i as int + 3) + spec_replace(
                    s@.subrange(i as int + 3, n as int),
                    marker_seq(),
                    seq![' '],
                ) =~= spec_replace(s@, marker_seq(), seq![' '])) by {
                    assert(s@.subrange(i as int + 3, i as int + 3) =~= Seq::<char>::empty());
                };
            }
            i += 3;
            start = i;
        } else {
            proof {
                assert(spec_replace(suffix, marker_seq(), seq![' ']) == seq![s@[i as int]]
                    + spec_replace(s@.subrange(i as int + 1, n as int), marker_seq(), seq![' ']));
                assert(s@.subrange(start as int, i as int) + (seq![s@[i as int]] + spec_replace(
                    s@.subrange(i as int + 1, n as int),
                    marker_seq(),
                    seq![' '],
                )) =~= s@.subrange(start as int, i as int + 1) + spec_replace(
                    s@.subrange(i as int + 1, n as int),
                    marker_seq(),
                    seq![' '],
                ));
            }
            i += 1;
        }
    }
    proof {
        let ghost tail = s@.subrange(i as int, n as int);
        assert(tail.len() < 3);
        assert(spec_replace(tail, marker_seq(), seq![' ']) == tail);
        assert(out@ + s@.subrange(start as int, i as int) + tail =~= out@ + s@.subrange(
            start as int,
            n as int,
        ));
    }
    let mut result = out;
    result.append(s.substring_char(start, n));
    result
}

/// Clean a page's JSON text before deserialization: strip commas inside
/// double-quoted spans (they would corrupt downstream name matching),
/// then replace each mis-decoded marker triple with a space.
pub fn replace_commas_in_strings(json: &str) -> (r: String)
    ensures
        r@ == page_json_cleaned(json@),
{
    let pass1 = strip_commas_exec(json);
    replace_marker(pass1.as_str())
}

} // verus!
