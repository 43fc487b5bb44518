use vstd::prelude::*;
use vstd::string::{StrSliceExecFns, StringSliceAdditionalSpecFns};
use vstd::utf8::is_continuation_byte;

verus! {

/// The number of line-break bytes among the first `pos` bytes.
pub open spec fn newlines_up_to(bytes: Seq<u8>, pos: int) -> int
    decreases pos,
{
    if pos <= 0 {
        0
    } else {
        newlines_up_to(bytes, pos - 1) + (if 0 <= pos - 1 < bytes.len() && bytes[pos - 1] == 10 {
            1int
        } else {
            0int
        })
    }
}

/// How many lines the text has: one more than its line breaks.
pub open spec fn line_count(bytes: Seq<u8>) -> int {
    newlines_up_to(bytes, bytes.len() as int) + 1
}

/// Counting line breaks never decreases along the text.
pub proof fn lemma_newlines_monotone(bytes: Seq<u8>, i: int, j: int)
    requires
        i <= j,
    ensures
        newlines_up_to(bytes, i) <= newlines_up_to(bytes, j),
    decreases j - i,
{
    if i < j {
        lemma_newlines_monotone(bytes, i, j - 1);
    }
}

/// The byte where the line containing `pos` starts: one past the last
/// line-break byte before `pos`, or the start of the text.
pub open spec fn line_start_before(bytes: Seq<u8>, pos: int) -> int
    decreases pos,
{
    if pos <= 0 {
        0
    } else if 0 <= pos - 1 < bytes.len() && bytes[pos - 1] == 10 {
        pos
    } else {
        line_start_before(bytes, pos - 1)
    }
}

/// How many characters the bytes `[from, to)` hold: one per byte that does
/// not continue a multi-byte encoding.
pub open spec fn char_count(bytes: Seq<u8>, from: int, to: int) -> int
    decreases to - from,
{
    if to <= from {
        0
    } else {
        char_count(bytes, from, to - 1) + (if 0 <= to - 1 < bytes.len() && !is_continuation_byte(
            bytes[to - 1],
        ) {
            1int
        } else {
            0int
        })
    }
}

/// The byte offset does not split a multi-byte character: it is the start or
/// end of the bytes, or the byte at it begins a character.
pub open spec fn at_char_boundary(bytes: Seq<u8>, pos: int) -> bool {
    0 <= pos <= bytes.len() && (pos == bytes.len() || !is_continuation_byte(bytes[pos]))
}

/// Why a column lookup was rejected: the byte offset splits a multi-byte
/// character, or lies past the end of the text.
#[derive(Clone, Copy, Debug, PartialEq, Eq, Structural)]
pub enum ColumnError {
    NotCharBoundary,
    PastEnd,
}

/// The zero-based line that a byte offset lies on: the number of line breaks
/// before it. Offsets past the end of the text are rejected.
pub fn line_index(text: &str, pos: usize) -> (r: Option<usize>)
    ensures
        r matches Some(l) ==> pos <= text.spec_bytes().len() && l == newlines_up_to(
            text.spec_bytes(),
            pos as int,
        ),
        r is None <==> pos > text.spec_bytes().len(),
{
    let bytes = text.as_bytes_vec();
    let n = bytes.len();
    if pos > n {
        return None;
    }
    let mut count: usize = 0;
    let mut i: usize = 0;
    while i < pos
        invariant
            i <= pos <= n,
            n == bytes@.len(),
            bytes@ == text.spec_bytes(),
            count <= i,
            count == newlines_up_to(bytes@, i as int),
        decreases pos - i,
    {
        if bytes[i] == 10 {
            count += 1;
        }
        i += 1;
    }
    Some(count)
}

/// The byte range of a zero-based line: from its first byte to one past its
/// terminating line break, or to the end of the text for the last line.
/// Lines past the last are rejected.
pub fn line_range(text: &str, line: usize) -> (r: Option<(usize, usize)>)
    ensures
        r matches Some(se) ==> ({
            &&& se.0 <= se.1 <= text.spec_bytes().len()
            &&& newlines_up_to(text.spec_bytes(), se.0 as int) == line
            &&& se.0 == 0 || text.spec_bytes()[se.0 - 1] == 10
            &&& (se.1 == text.spec_bytes().len() && (forall|p: int|
                se.0 <= p < se.1 ==> #[trigger] text.spec_bytes()[p] != 10)) || (se.1 >= 1
                && text.spec_bytes()[se.1 - 1] == 10 && (forall|p: int|
                se.0 <= p < se.1 - 1 ==> #[trigger] text.spec_bytes()[p] != 10))
        }),
        r is None <==> line >= line_count(text.spec_bytes()),
{
    let bytes = text.as_bytes_vec();
    let n = bytes.len();
    let mut count: usize = 0;
    let mut i: usize = 0;
    while i < n && count < line
        invariant
            i <= n,
            n == bytes@.len(),
            bytes@ == text.spec_bytes(),
            count <= line,
            count <= i,
            count == newlines_up_to(bytes@, i as int),
            count == line ==> i == 0 || bytes@[i - 1] == 10,
        decreases n - i,
    {
        if bytes[i] == 10 {
            count += 1;
        }
        i += 1;
    }
    if count < line {
        proof {
            lemma_newlines_monotone(bytes@, i as int, n as int);
        }
        return None;
    }
    let start = i;
    let mut j: usize = start;
    while j < n && bytes[j] != 10
        invariant
            start <= j <= n,
            n == bytes@.len(),
            bytes@ == text.spec_bytes(),
            forall|p: int| start <= p < j ==> #[trigger] bytes@[p] != 10,
        decreases n - j,
    {
        j += 1;
    }
    proof {
        lemma_newlines_monotone(bytes@, start as int, n as int);
    }
    if j < n {
        Some((start, j + 1))
    } else {
        Some((start, n))
    }
}

/// The one-based column of a byte offset: one more than the number of
/// characters between the start of its line and the offset. An offset inside
/// a multi-byte character or past the end of the text is rejected; the offset
/// must leave room for the one-based count.
pub fn column_number(text: &str, pos: usize) -> (r: Result<usize, ColumnError>)
    requires
        pos < usize::MAX,
    ensures
        r matches Ok(c) ==> at_char_boundary(text.spec_bytes(), pos as int) && c == char_count(
            text.spec_bytes(),
            line_start_before(text.spec_bytes(), pos as int),
            pos as int,
        ) + 1,
        r == Err::<usize, ColumnError>(ColumnError::PastEnd) <==> pos > text.spec_bytes().len(),
        r == Err::<usize, ColumnError>(ColumnError::NotCharBoundary) <==> (pos
            <= text.spec_bytes().len() && !at_char_boundary(text.spec_bytes(), pos as int)),
{
    let bytes = text.as_bytes_vec();
    let n = bytes.len();
    if pos > n {
        return Err(ColumnError::PastEnd);
    }
    if pos < n {
        let b = bytes[pos];
        if 128 <= b && b <= 191 {
            return Err(ColumnError::NotCharBoundary);
        }
    }
    let mut i: usize = pos;
    while i > 0 && bytes[i - 1] != 10
        invariant
            i <= pos <= n,
            n == bytes@.len(),
            bytes@ == text.spec_bytes(),
            line_start_before(bytes@, pos as int) == line_start_before(bytes@, i as int),
        decreases i,
    {
        i -= 1;
    }
    let start = i;
    let mut cnt: usize = 0;
    let mut k: usize = start;
    while k < pos
        invariant
            start <= k <= pos <= n,
            n == bytes@.len(),
            bytes@ == text.spec_bytes(),
            cnt <= k - start,
            cnt == char_count(bytes@, start as int, k as int),
        decreases pos - k,
    {
        let b = bytes[k];
        if !(128 <= b && b <= 191) {
            cnt += 1;
        }
        k += 1;
    }
    Ok(cnt + 1)
}

} // verus!
