//! Byte-offset bookkeeping for markdown sources: where each line starts, which
//! 1-based line holds a byte offset, and byte-range slicing of a source.

use vstd::prelude::*;
use vstd::string::StringSliceAdditionalSpecFns;
use vstd::utf8::*;

verus! {

broadcast use vstd::utf8::group_utf8_lib;

/// The newline byte.
pub const NEWLINE: u8 = 10u8;

/// The number of newline bytes in `b`.
pub open spec fn newline_count(b: Seq<u8>) -> nat
    decreases b.len(),
{
    if b.len() == 0 {
        0
    } else {
        newline_count(b.drop_last()) + if b.last() == NEWLINE {
            1nat
        } else {
            0nat
        }
    }
}

/// Byte offsets of each line's first byte: 0, then one past every newline.
pub open spec fn line_starts_of(b: Seq<u8>) -> Seq<usize>
    decreases b.len(),
{
    if b.len() == 0 {
        seq![0usize]
    } else {
        let prefix = line_starts_of(b.drop_last());
        if b.last() == NEWLINE {
            prefix.push(b.len() as usize)
        } else {
            prefix
        }
    }
}

/// How many elements of `s` are at most `x`.
pub open spec fn count_at_most(s: Seq<usize>, x: usize) -> nat
    decreases s.len(),
{
    if s.len() == 0 {
        0
    } else {
        count_at_most(s.drop_last(), x) + if s.last() <= x {
            1nat
        } else {
            0nat
        }
    }
}

/// `s` never decreases.
pub open spec fn nondecreasing(s: Seq<usize>) -> bool {
    forall|i: int, j: int| 0 <= i <= j < s.len() ==> s[i] <= s[j]
}

/// A count clamped into `u32`.
pub open spec fn clamp_u32(n: int) -> u32 {
    if n > u32::MAX {
        u32::MAX
    } else {
        n as u32
    }
}

/// The line number that a search over sorted line starts reports for `offset`:
/// the number of starts at or before the offset (at least one), clamped to `u32`.
pub open spec fn line_number_of(starts: Seq<usize>, offset: usize) -> u32 {
    let p = count_at_most(starts, offset) as int;
    clamp_u32(if p == 0 { 1 } else { p })
}

/// The 1-based line of `b` that holds byte `offset`: one more than the number of
/// newlines strictly before it (offsets past the end count every newline).
pub open spec fn line_of(b: Seq<u8>, offset: int) -> u32 {
    let upto = if offset < b.len() { offset } else { b.len() as int };
    clamp_u32(newline_count(b.take(upto)) + 1int)
}

/// The characters that a byte range of a source holds: the decoded bytes when the
/// range is ordered, in bounds and on character boundaries; empty otherwise.
pub open spec fn slice_of(b: Seq<u8>, start: int, end: int) -> Seq<char> {
    if start <= end && end <= b.len() && is_char_boundary(b, start) && is_char_boundary(b, end) {
        decode_utf8(b.subrange(start, end))
    } else {
        Seq::empty()
    }
}

proof fn lemma_newline_count_take(b: Seq<u8>, k: int)
    requires
        0 <= k <= b.len(),
    ensures
        newline_count(b.take(k)) <= newline_count(b),
    decreases b.len(),
{
    if k == b.len() {
        assert(b.take(k) =~= b);
    } else {
        assert(b.take(k) =~= b.drop_last().take(k));
        lemma_newline_count_take(b.drop_last(), k);
    }
}

/// No byte lies past the last line: a line number is at most one more than
/// the number of newlines in the source.
pub proof fn lemma_line_of_bound(b: Seq<u8>, offset: int)
    requires
        offset >= 0,
    ensures
        1 <= line_of(b, offset) <= newline_count(b) + 1,
{
    let upto = if offset < b.len() { offset } else { b.len() as int };
    lemma_newline_count_take(b, upto);
}

proof fn lemma_line_starts_facts(b: Seq<u8>)
    requires
        b.len() <= usize::MAX,
    ensures
        line_starts_of(b).len() == newline_count(b) + 1,
        line_starts_of(b)[0] == 0,
        forall|i: int| 0 <= i < line_starts_of(b).len() ==> #[trigger] line_starts_of(b)[i] <= b.len(),
        nondecreasing(line_starts_of(b)),
    decreases b.len(),
{
    if b.len() > 0 {
        lemma_line_starts_facts(b.drop_last());
    }
}

proof fn lemma_count_at_most_partition(s: Seq<usize>, x: usize, p: int)
    requires
        0 <= p <= s.len(),
        forall|i: int| 0 <= i < p ==> #[trigger] s[i] <= x,
        forall|i: int| p <= i < s.len() ==> #[trigger] s[i] > x,
    ensures
        count_at_most(s, x) == p,
    decreases s.len(),
{
    if s.len() > 0 {
        let q = if p == s.len() { p - 1 } else { p };
        lemma_count_at_most_partition(s.drop_last(), x, q);
    }
}

proof fn lemma_count_at_most_push(s: Seq<usize>, v: usize, x: usize)
    ensures
        count_at_most(s.push(v), x) == count_at_most(s, x) + if v <= x { 1nat } else { 0nat },
{
    assert(s.push(v).drop_last() =~= s);
}

/// The line that a search over `line_starts` reports for an offset is the line
/// of the source that holds that offset: one more than the newlines before it.
pub proof fn lemma_line_number_of_line_starts(b: Seq<u8>, offset: usize)
    requires
        b.len() <= usize::MAX,
    ensures
        count_at_most(line_starts_of(b), offset) == newline_count(
            b.take(if offset < b.len() { offset as int } else { b.len() as int }),
        ) + 1,
        line_number_of(line_starts_of(b), offset) == line_of(b, offset as int),
    decreases b.len(),
{
    let upto = if offset < b.len() { offset as int } else { b.len() as int };
    if b.len() == 0 {
        assert(b.take(0) =~= b);
        let s0 = line_starts_of(b);
        assert(s0 == seq![0usize]);
        assert(s0.drop_last() =~= Seq::<usize>::empty());
        assert(count_at_most(s0.drop_last(), offset) == 0);
        assert(s0.last() == 0);
        assert(count_at_most(s0, offset) == 1);
    } else {
        let prev = b.drop_last();
        lemma_line_number_of_line_starts(prev, offset);
        let pupto = if offset < prev.len() { offset as int } else { prev.len() as int };
        let ps = line_starts_of(prev);
        assert(newline_count(b) == newline_count(prev) + if b.last() == NEWLINE { 1nat } else { 0nat });
        if b.last() == NEWLINE {
            assert(line_starts_of(b) == ps.push(b.len() as usize));
            lemma_count_at_most_push(ps, b.len() as usize, offset);
        } else {
            assert(line_starts_of(b) == ps);
        }
        if offset >= b.len() {
            assert(b.take(upto) =~= b);
            assert(prev.take(pupto) =~= prev);
            assert(count_at_most(line_starts_of(b), offset) == newline_count(b) + 1);
        } else {
            assert(b.take(upto) =~= prev.take(pupto));
            assert(count_at_most(line_starts_of(b), offset) == newline_count(prev.take(pupto)) + 1);
        }
    }
}

/// Byte offsets of each 1-based line's first character, including a start at
/// 0 and one after every newline (so a trailing newline names an empty last
/// line).
pub fn line_starts(source: &str) -> (starts: Vec<usize>)
    ensures
        starts@ == line_starts_of(source.spec_bytes()),
        nondecreasing(starts@),
        starts@.len() == newline_count(source.spec_bytes()) + 1,
{
    let bytes = source.as_bytes();
    let mut starts: Vec<usize> = Vec::new();
    starts.push(0);
    let mut index: usize = 0;
    while index < bytes.len()
        invariant
            index <= bytes@.len(),
            bytes@ == source.spec_bytes(),
            starts@ == line_starts_of(bytes@.take(index as int)),
        decreases bytes@.len() - index,
    {
        proof {
            assert(bytes@.take(index + 1).drop_last() =~= bytes@.take(index as int));
        }
        if bytes[index] == NEWLINE {
            starts.push(index + 1);
        }
        index = index + 1;
    }
    proof {
        assert(bytes@.take(index as int) =~= bytes@);
        lemma_line_starts_facts(bytes@);
    }
    starts
}

/// 1-based line containing `offset`, by binary search on sorted line starts.
///
/// On sorted `starts` the result is the number of starts at or before the
/// offset (at least one), clamped to `u32`; on unsorted input the search still
/// returns some line number of at least one.
pub fn line_number(starts: &[usize], offset: usize) -> (line: u32)
    ensures
        line >= 1,
        nondecreasing(starts@) ==> line == line_number_of(starts@, offset),
{
    let mut low: usize = 0;
    let mut high: usize = starts.len();
    while low < high
        invariant
            low <= high <= starts@.len(),
            nondecreasing(starts@) ==> forall|i: int| 0 <= i < low ==> #[trigger] starts@[i] <= offset,
            nondecreasing(starts@) ==> forall|i: int|
                high <= i < starts@.len() ==> #[trigger] starts@[i] > offset,
        decreases high - low,
    {
        let mid = low + (high - low) / 2;
        if starts[mid] <= offset {
            low = mid + 1;
        } else {
            high = mid;
        }
    }
    proof {
        if nondecreasing(starts@) {
            lemma_count_at_most_partition(starts@, offset, low as int);
        }
    }
    let index = if low == 0 { 0 } else { low - 1 };
    if index >= 4294967295usize {
        u32::MAX
    } else {
        (index + 1) as u32
    }
}

/// The source text between two byte offsets, or an empty string when the range
/// is reversed, out of bounds, or splits a character.
pub fn slice(source: &str, start: usize, end: usize) -> (text: String)
    ensures
        text@ == slice_of(source.spec_bytes(), start as int, end as int),
{
    let ghost b = source.spec_bytes();
    proof {
        encode_utf8_valid_utf8(source@);
    }
    let length = source.as_bytes().len();
    if start <= end && end <= length && source.is_char_boundary(start)
        && source.is_char_boundary(end) {
        let (_, tail) = source.split_at(start);
        proof {
            let t = tail.spec_bytes();
            assert(t =~= b.subrange(start as int, b.len() as int));
            valid_utf8_split(b, start as int);
            if end < b.len() {
                is_char_boundary_iff_not_is_continuation_byte(b, end as int);
                is_char_boundary_iff_not_is_continuation_byte(t, (end - start) as int);
                assert(t[(end - start) as int] == b[end as int]);
            } else {
                is_char_boundary_start_end_of_seq(t);
            }
        }
        let (middle, _) = tail.split_at(end - start);
        proof {
            assert(middle.spec_bytes() =~= b.subrange(start as int, end as int));
            decode_utf8_encode_utf8(middle.spec_bytes());
            encode_utf8_decode_utf8(middle@);
        }
        let text = middle.to_owned();
        assert(text@ == decode_utf8(b.subrange(start as int, end as int)));
        text
    } else {
        let text = String::new();
        assert(text@ == slice_of(b, start as int, end as int));
        text
    }
}

} // verus!
