//! Splitting text into the UTF-16 payloads of keyboard events.
//!
//! On macOS each keyboard event carries at most [`BATCH_UTF16_LIMIT`] UTF-16
//! code units. Text is typed verbatim: every code unit of the input appears
//! exactly once and in order, and a chunk never ends between the two halves
//! of a surrogate pair.
use vstd::prelude::*;

use crate::text;

verus! {

/// Maximum UTF-16 code units per keyboard event.
pub const BATCH_UTF16_LIMIT: usize = 20;

/// Delay in milliseconds between batched keyboard events.
pub const BATCH_DELAY_MS: u64 = 5;

pub open spec fn high_surrogate(u: u16) -> bool {
    0xD800 <= u <= 0xDBFF
}

pub open spec fn low_surrogate(u: u16) -> bool {
    0xDC00 <= u <= 0xDFFF
}

/// Whether the UTF-16 code unit is a high surrogate (the first half of a
/// surrogate pair for a character outside the Basic Multilingual Plane).
pub fn is_high_surrogate(code_unit: u16) -> (r: bool)
    ensures
        r == high_surrogate(code_unit),
{
    0xD800 <= code_unit && code_unit <= 0xDBFF
}

/// The UTF-16 encoding of one character.
pub open spec fn utf16_char(c: char) -> Seq<u16> {
    let v = c as u32;
    if v < 0x10000 {
        seq![v as u16]
    } else {
        seq![
            (0xD800 + (v - 0x10000) / 0x400) as u16,
            (0xDC00 + (v - 0x10000) % 0x400) as u16,
        ]
    }
}

/// The UTF-16 encoding of a character sequence.
pub open spec fn utf16_of(s: Seq<char>) -> Seq<u16>
    decreases s.len(),
{
    if s.len() == 0 {
        seq![]
    } else {
        utf16_of(s.drop_last()) + utf16_char(s.last())
    }
}

/// Every high surrogate is followed by a low surrogate, and every low
/// surrogate follows a high one.
pub open spec fn well_formed_utf16(u: Seq<u16>) -> bool {
    &&& forall|i: int| 0 <= i < u.len() && #[trigger] high_surrogate(u[i]) ==> i + 1 < u.len()
        && low_surrogate(u[i + 1])
    &&& forall|i: int| 0 <= i < u.len() && #[trigger] low_surrogate(u[i]) ==> i > 0
        && high_surrogate(u[i - 1])
}

proof fn lemma_utf16_char_well_formed(c: char)
    ensures
        well_formed_utf16(utf16_char(c)),
        1 <= utf16_char(c).len() <= 2,
{
    let v = c as u32;
    if v >= 0x10000 {
        assert(v <= 0x10FFFF);
        assert((v - 0x10000) / 0x400 <= 0x3FF);
        assert((v - 0x10000) % 0x400 <= 0x3FF);
    } else {
        assert(v < 0xD800 || v > 0xDFFF);
    }
}

/// The UTF-16 encoding of any text is well formed.
pub proof fn lemma_utf16_well_formed(s: Seq<char>)
    ensures
        well_formed_utf16(utf16_of(s)),
    decreases s.len(),
{
    if s.len() > 0 {
        lemma_utf16_well_formed(s.drop_last());
        lemma_utf16_char_well_formed(s.last());
        let a = utf16_of(s.drop_last());
        let b = utf16_char(s.last());
        let u = a + b;
        assert(u == utf16_of(s));
        assert forall|i: int| 0 <= i < u.len() && #[trigger] high_surrogate(u[i]) implies i + 1
            < u.len() && low_surrogate(u[i + 1]) by {
            if i < a.len() {
                assert(u[i] == a[i]);
                assert(u[i + 1] == a[i + 1]);
            } else {
                assert(u[i] == b[i - a.len()]);
                assert(u[i + 1] == b[i + 1 - a.len()]);
            }
        }
        assert forall|i: int| 0 <= i < u.len() && #[trigger] low_surrogate(u[i]) implies i > 0
            && high_surrogate(u[i - 1]) by {
            if i < a.len() {
                assert(u[i] == a[i]);
                assert(u[i - 1] == a[i - 1]);
            } else {
                assert(u[i] == b[i - a.len()]);
                if i == a.len() {
                    assert(low_surrogate(b[0]));
                    assert(false);
                }
                assert(u[i - 1] == b[i - 1 - a.len()]);
            }
        }
    }
}

/// The UTF-16 encoding of `text`.
pub fn encode_utf16(text: &str) -> (r: Vec<u16>)
    ensures
        r@ == utf16_of(text@),
{
    let chars = text::chars_of(text);
    let mut out: Vec<u16> = Vec::new();
    let mut i: usize = 0;
    while i < chars.len()
        invariant
            i <= chars@.len(),
            chars@ == text@,
            out@ == utf16_of(chars@.take(i as int)),
        decreases chars@.len() - i,
    {
        let c = chars[i];
        let v = c as u32;
        proof {
            assert(chars@.take(i + 1).drop_last() =~= chars@.take(i as int));
            assert(chars@.take(i + 1).last() == c);
        }
        if v < 0x10000 {
            out.push(v as u16);
            assert(out@ =~= utf16_of(chars@.take(i as int)) + utf16_char(c));
        } else {
            let w = v - 0x10000;
            out.push((0xD800 + w / 0x400) as u16);
            out.push((0xDC00 + w % 0x400) as u16);
            assert(out@ =~= utf16_of(chars@.take(i as int)) + utf16_char(c));
        }
        i = i + 1;
    }
    assert(chars@.take(chars@.len() as int) =~= chars@);
    out
}

/// How many code units the next chunk takes from `units`: up to the limit,
/// one fewer when the chunk would otherwise end on a high surrogate with
/// more units to follow.
pub open spec fn chunk_len(units: Seq<u16>) -> int {
    let n = if units.len() < BATCH_UTF16_LIMIT {
        units.len() as int
    } else {
        BATCH_UTF16_LIMIT as int
    };
    if n < units.len() && high_surrogate(units[n - 1]) {
        n - 1
    } else {
        n
    }
}

/// The chunks of `units`, in order.
pub open spec fn chunks_of(units: Seq<u16>) -> Seq<Seq<u16>>
    decreases units.len(),
{
    if units.len() == 0 {
        seq![]
    } else {
        let n = chunk_len(units);
        if 0 < n <= units.len() {
            seq![units.take(n)] + chunks_of(units.skip(n))
        } else {
            seq![]
        }
    }
}

pub open spec fn views_u16(v: Seq<Vec<u16>>) -> Seq<Seq<u16>> {
    v.map_values(|c: Vec<u16>| c@)
}

proof fn lemma_chunk_len_bounds(units: Seq<u16>)
    requires
        units.len() > 0,
    ensures
        1 <= chunk_len(units) <= units.len(),
        chunk_len(units) <= BATCH_UTF16_LIMIT,
{
}

/// Splits `text` into the UTF-16 payloads of successive keyboard events.
pub fn utf16_chunks(text: &str) -> (r: Vec<Vec<u16>>)
    ensures
        views_u16(r@) == chunks_of(utf16_of(text@)),
{
    let all = encode_utf16(text);
    let ghost units = all@;
    let mut chunks: Vec<Vec<u16>> = Vec::new();
    let mut offset: usize = 0;
    assert(units.skip(0) =~= units);
    assert(views_u16(chunks@) + chunks_of(units) =~= chunks_of(units));
    while offset < all.len()
        invariant
            all@ == units,
            offset <= units.len(),
            views_u16(chunks@) + chunks_of(units.skip(offset as int)) == chunks_of(units),
        decreases units.len() - offset,
    {
        let ghost rest = units.skip(offset as int);
        let remaining = all.len() - offset;
        let mut len: usize = if remaining < BATCH_UTF16_LIMIT {
            remaining
        } else {
            BATCH_UTF16_LIMIT
        };
        assert(all@[offset + len - 1] == rest[len - 1]);
        if len < remaining && is_high_surrogate(all[offset + len - 1]) {
            len = len - 1;
        }
        proof {
            lemma_chunk_len_bounds(rest);
            assert(len == chunk_len(rest));
        }
        let mut chunk: Vec<u16> = Vec::new();
        let mut k: usize = 0;
        while k < len
            invariant
                all@ == units,
                offset + len <= all.len(),
                k <= len,
                chunk@ == units.subrange(offset as int, offset + k),
            decreases len - k,
        {
            chunk.push(all[offset + k]);
            assert(chunk@ =~= units.subrange(offset as int, offset + k + 1));
            k = k + 1;
        }
        proof {
            assert(chunk@ =~= rest.take(len as int));
            assert(rest.skip(len as int) =~= units.skip(offset + len));
            assert(chunks_of(rest) == seq![rest.take(len as int)] + chunks_of(
                rest.skip(len as int),
            ));
            assert(views_u16(chunks@.push(chunk)) =~= views_u16(chunks@).push(chunk@));
            assert(views_u16(chunks@).push(chunk@) + chunks_of(units.skip(offset + len))
                =~= views_u16(chunks@) + chunks_of(rest));
        }
        chunks.push(chunk);
        offset = offset + len;
    }
    proof {
        assert(units.skip(offset as int) =~= Seq::<u16>::empty());
        assert(views_u16(chunks@) + Seq::<Seq<u16>>::empty() =~= views_u16(chunks@));
    }
    chunks
}

/// Every code unit of the input appears exactly once and in order: the
/// chunks concatenate back to the units they were cut from.
pub proof fn lemma_chunks_concatenate(units: Seq<u16>)
    ensures
        chunks_of(units).flatten() == units,
    decreases units.len(),
{
    if units.len() > 0 {
        lemma_chunk_len_bounds(units);
        let n = chunk_len(units);
        lemma_chunks_concatenate(units.skip(n));
        let c = chunks_of(units);
        assert(c.first() == units.take(n));
        assert(c.drop_first() =~= chunks_of(units.skip(n)));
        assert(units.take(n) + units.skip(n) =~= units);
    }
}

/// Every chunk is non-empty and within the event limit.
pub proof fn lemma_chunks_within_limit(units: Seq<u16>)
    ensures
        forall|i: int|
            0 <= i < chunks_of(units).len() ==> 1 <= (#[trigger] chunks_of(units)[i]).len()
                <= BATCH_UTF16_LIMIT,
    decreases units.len(),
{
    if units.len() > 0 {
        lemma_chunk_len_bounds(units);
        let n = chunk_len(units);
        lemma_chunks_within_limit(units.skip(n));
        let c = chunks_of(units);
        assert forall|i: int| 0 <= i < c.len() implies 1 <= (#[trigger] c[i]).len()
            <= BATCH_UTF16_LIMIT by {
            if i > 0 {
                assert(c[i] == chunks_of(units.skip(n))[i - 1]);
            }
        }
    }
}

/// On well-formed UTF-16 no chunk ends on a high surrogate nor starts on a
/// low surrogate: a surrogate pair is never split between two events.
pub proof fn lemma_chunks_keep_pairs(units: Seq<u16>)
    requires
        well_formed_utf16(units),
    ensures
        forall|i: int|
            0 <= i < chunks_of(units).len() ==> !high_surrogate(
                (#[trigger] chunks_of(units)[i]).last(),
            ) && !low_surrogate(chunks_of(units)[i][0]),
    decreases units.len(),
{
    if units.len() > 0 {
        lemma_chunk_len_bounds(units);
        let n = chunk_len(units);
        let rest = units.skip(n);
        assert forall|i: int| 0 <= i < rest.len() && #[trigger] high_surrogate(rest[i]) implies i
            + 1 < rest.len() && low_surrogate(rest[i + 1]) by {
            assert(rest[i] == units[n + i]);
            assert(high_surrogate(units[n + i]));
            assert(rest[i + 1] == units[n + i + 1]);
        }
        assert forall|i: int| 0 <= i < rest.len() && #[trigger] low_surrogate(rest[i]) implies i
            > 0 && high_surrogate(rest[i - 1]) by {
            assert(rest[i] == units[n + i]);
            assert(low_surrogate(units[n + i]));
            if i == 0 {
                assert(high_surrogate(units[n - 1]));
                if n < units.len() && n == BATCH_UTF16_LIMIT {
                    assert(false);
                } else {
                    assert(high_surrogate(units[n]));
                    assert(false);
                }
            }
            assert(rest[i - 1] == units[n + i - 1]);
        }
        lemma_chunks_keep_pairs(rest);
        let c = chunks_of(units);
        assert(c[0] == units.take(n));
        assert(c[0].last() == units[n - 1]);
        if high_surrogate(units[n - 1]) {
            let m = if units.len() < BATCH_UTF16_LIMIT {
                units.len() as int
            } else {
                BATCH_UTF16_LIMIT as int
            };
            if n == m {
                assert(n < units.len());
                assert(false);
            } else {
                assert(high_surrogate(units[m - 1]));
                assert(low_surrogate(units[n]));
                assert(false);
            }
        }
        assert(!low_surrogate(units[0]));
        assert forall|i: int| 0 <= i < c.len() implies !high_surrogate((#[trigger] c[i]).last())
            && !low_surrogate(c[i][0]) by {
            if i > 0 {
                assert(c[i] == chunks_of(rest)[i - 1]);
            }
        }
    }
}

/// What is typed is exactly the text: for any text, its chunks concatenate
/// to its UTF-16 encoding, each chunk fits one event, and no chunk splits a
/// surrogate pair.
pub proof fn lemma_typed_text_is_verbatim(text: Seq<char>)
    ensures
        chunks_of(utf16_of(text)).flatten() == utf16_of(text),
        forall|i: int|
            0 <= i < chunks_of(utf16_of(text)).len() ==> 1 <= (#[trigger] chunks_of(
                utf16_of(text),
            )[i]).len() <= BATCH_UTF16_LIMIT && !high_surrogate(
                chunks_of(utf16_of(text))[i].last(),
            ) && !low_surrogate(chunks_of(utf16_of(text))[i][0]),
{
    let u = utf16_of(text);
    lemma_chunks_concatenate(u);
    lemma_chunks_within_limit(u);
    lemma_utf16_well_formed(text);
    lemma_chunks_keep_pairs(u);
}

/// What requesting accessibility permission concludes.
#[derive(Debug, Clone, Copy, PartialEq, Eq, Structural)]
pub enum AccessibilityOutcome {
    /// The system reports the permission and it works.
    Granted,
    /// The system reports the permission but it does not work for this
    /// binary (a stale grant after an update): the settings pane is opened.
    Stale,
    /// The permission is not granted; the system dialog was shown.
    NotGranted,
}

/// Combines the system's answer with the validation that the permission
/// actually works.
pub fn accessibility_outcome(api_says_trusted: bool, actually_works: bool) -> (r:
    AccessibilityOutcome)
    ensures
        api_says_trusted && actually_works ==> r == AccessibilityOutcome::Granted,
        api_says_trusted && !actually_works ==> r == AccessibilityOutcome::Stale,
        !api_says_trusted ==> r == AccessibilityOutcome::NotGranted,
{
    if !api_says_trusted {
        AccessibilityOutcome::NotGranted
    } else if actually_works {
        AccessibilityOutcome::Granted
    } else {
        AccessibilityOutcome::Stale
    }
}

/// What the next step of typing chunked text is, given how many chunks were
/// already posted and whether posting events is still permitted.
#[derive(Debug, Clone, Copy, PartialEq, Eq, Structural)]
pub enum PostingStep {
    /// Post the chunk at this index.
    Post(usize),
    /// Every chunk was posted.
    Done,
    /// Permission to post events was lost; later chunks are not sent.
    PermissionDenied,
}

/// Decides the next step: permission is checked before every chunk, and no
/// chunk is posted once it is missing.
pub fn next_posting_step(posted: usize, total: usize, permitted: bool) -> (r: PostingStep)
    requires
        posted <= total,
    ensures
        posted == total ==> r == PostingStep::Done,
        posted < total && !permitted ==> r == PostingStep::PermissionDenied,
        posted < total && permitted ==> r == PostingStep::Post(posted),
{
    if posted >= total {
        PostingStep::Done
    } else if !permitted {
        PostingStep::PermissionDenied
    } else {
        PostingStep::Post(posted)
    }
}

} // verus!
