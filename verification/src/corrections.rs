//! Learned pattern corrections.
//!
//! User corrections are applied after the static transform rules. A
//! correction matches either exactly (case-insensitively) or phonetically,
//! that is within a normalised Levenshtein distance of the spoken words.
//!
//! Reading and writing `corrections.toml`, watching it for changes, and
//! stamping new corrections with an identifier and a time are done by the
//! caller; this module holds the matching engine and the edits to the list of
//! corrections.
use vstd::prelude::*;

use crate::text;

verus! {

// ---------------------------------------------------------------------------
// Types
// ---------------------------------------------------------------------------

/// Which transformation mode(s) a correction applies to.
#[derive(Debug, Clone, Copy, PartialEq, Eq, Structural)]
pub enum CorrectionMode {
    Secretary,
    Code,
    All,
}

/// How the original text is matched.
#[derive(Debug, Clone, Copy, PartialEq, Eq, Structural)]
pub enum MatchType {
    Exact,
    Phonetic,
}

/// How case is handled when a correction is applied.
#[derive(Debug, Clone, Copy, PartialEq, Eq, Structural)]
pub enum CaseMode {
    /// Match output case to input case (default)
    PreserveInput,
    /// Always use the correction's case regardless of input
    ForcePattern,
    /// Use the correction's case unless the input is all caps
    Smart,
}

/// ASCII-only lowercasing of one character.
pub open spec fn ascii_lower(c: char) -> char {
    if 'A' <= c && c <= 'Z' {
        ((c as u32) + 32) as char
    } else {
        c
    }
}

/// Equality up to ASCII case (what `str::eq_ignore_ascii_case` decides).
pub open spec fn eq_ignore_ascii_case(a: Seq<char>, b: Seq<char>) -> bool {
    a.len() == b.len() && forall|k: int| 0 <= k < a.len() ==> ascii_lower(#[trigger] a[k])
        == ascii_lower(b[k])
}

fn ascii_lower_char(c: char) -> (r: char)
    ensures
        r == ascii_lower(c),
{
    if 'A' <= c && c <= 'Z' {
        let u: u32 = (c as u32) + 32;
        proof {
            assert(0x61 <= u <= 0x7A);
        }
        char_from_ascii(u)
    } else {
        c
    }
}

/// The character with the ASCII code `u`.
fn char_from_ascii(u: u32) -> (r: char)
    requires
        u < 0x80,
    ensures
        r == u as char,
        r as u32 == u,
{
    let b: u8 = u as u8;
    b as char
}

fn eq_ignore_ascii_case_chars(a: &[char], b: &[char]) -> (r: bool)
    ensures
        r == eq_ignore_ascii_case(a@, b@),
{
    if a.len() != b.len() {
        return false;
    }
    let mut k: usize = 0;
    while k < a.len()
        invariant
            a@.len() == b@.len(),
            k <= a@.len(),
            forall|j: int| 0 <= j < k ==> ascii_lower(#[trigger] a@[j]) == ascii_lower(b@[j]),
        decreases a@.len() - k,
    {
        if ascii_lower_char(a[k]) != ascii_lower_char(b[k]) {
            return false;
        }
        k = k + 1;
    }
    true
}

/// Whether a correction in mode `m` applies while the daemon is in the mode
/// named `current`.
pub open spec fn mode_matches(m: CorrectionMode, current: Seq<char>) -> bool {
    match m {
        CorrectionMode::All => true,
        CorrectionMode::Secretary => eq_ignore_ascii_case(current, "secretary"@),
        CorrectionMode::Code => eq_ignore_ascii_case(current, "code"@),
    }
}

impl CorrectionMode {
    /// Whether this correction mode applies to the mode named `current_mode`
    /// (compared ignoring ASCII case).
    pub fn matches(&self, current_mode: &str) -> (r: bool)
        ensures
            r == mode_matches(*self, current_mode@),
    {
        let cur = text::chars_of(current_mode);
        match self {
            CorrectionMode::All => true,
            CorrectionMode::Secretary => {
                let name = text::chars_of("secretary");
                eq_ignore_ascii_case_chars(cur.as_slice(), name.as_slice())
            },
            CorrectionMode::Code => {
                let name = text::chars_of("code");
                eq_ignore_ascii_case_chars(cur.as_slice(), name.as_slice())
            },
        }
    }

    fn matches_chars(&self, current_mode: &[char]) -> (r: bool)
        ensures
            r == mode_matches(*self, current_mode@),
    {
        match self {
            CorrectionMode::All => true,
            CorrectionMode::Secretary => {
                let name = text::chars_of("secretary");
                eq_ignore_ascii_case_chars(current_mode, name.as_slice())
            },
            CorrectionMode::Code => {
                let name = text::chars_of("code");
                eq_ignore_ascii_case_chars(current_mode, name.as_slice())
            },
        }
    }
}

// ---------------------------------------------------------------------------
// Case handling
// ---------------------------------------------------------------------------

/// Every letter of `s` is uppercase.
pub open spec fn all_upper(s: Seq<char>) -> bool {
    forall|k: int| 0 <= k < s.len() ==> text::uppercase(#[trigger] s[k]) || !text::alphabetic(s[k])
}

/// Every letter of `s` is uppercase.
pub open spec fn letters_all_uppercase(s: Seq<char>) -> bool {
    forall|k: int| 0 <= k < s.len() && text::alphabetic(#[trigger] s[k]) ==> text::uppercase(s[k])
}

/// Smart case: an original in all caps that is longer than one byte turns
/// the replacement into uppercase; any other original keeps the
/// replacement exactly as written. An empty original or replacement keeps
/// the replacement.
pub proof fn lemma_smart_case(original: Seq<char>, replacement: Seq<char>)
    ensures
        original.len() > 0 && replacement.len() > 0 && letters_all_uppercase(original)
            && text::utf8_len(original) > 1 ==> case_adjusted(original, replacement, CaseMode::Smart)
            == text::upper_str(replacement),
        !(original.len() > 0 && replacement.len() > 0 && letters_all_uppercase(original)
            && text::utf8_len(original) > 1) ==> case_adjusted(
            original,
            replacement,
            CaseMode::Smart,
        ) == replacement,
{
    if letters_all_uppercase(original) {
        assert forall|k: int| 0 <= k < original.len() implies text::uppercase(#[trigger] original[k])
            || !text::alphabetic(original[k]) by {}
    }
    if all_upper(original) {
        assert forall|k: int| 0 <= k < original.len() && text::alphabetic(#[trigger] original[k])
            implies text::uppercase(original[k]) by {}
    }
}

/// Preserve input: an all-caps original longer than one byte gives the
/// replacement in uppercase; otherwise an original starting with an
/// uppercase character gives the replacement with its first character
/// uppercased (its uppercase mapping) and the rest kept; any other original
/// gives the replacement in lowercase.
pub proof fn lemma_preserve_input_case(original: Seq<char>, replacement: Seq<char>)
    requires
        original.len() > 0,
        replacement.len() > 0,
    ensures
        letters_all_uppercase(original) && text::utf8_len(original) > 1 ==> case_adjusted(
            original,
            replacement,
            CaseMode::PreserveInput,
        ) == text::upper_str(replacement),
        !(letters_all_uppercase(original) && text::utf8_len(original) > 1) && text::uppercase(
            original[0],
        ) ==> case_adjusted(original, replacement, CaseMode::PreserveInput) == text::upper_mapping(
            replacement[0],
        ) + replacement.drop_first(),
        !(letters_all_uppercase(original) && text::utf8_len(original) > 1) && !text::uppercase(
            original[0],
        ) ==> case_adjusted(original, replacement, CaseMode::PreserveInput) == text::lower_str(
            replacement,
        ),
{
    if letters_all_uppercase(original) {
        assert forall|k: int| 0 <= k < original.len() implies text::uppercase(#[trigger] original[k])
            || !text::alphabetic(original[k]) by {}
    }
    if all_upper(original) {
        assert forall|k: int| 0 <= k < original.len() && text::alphabetic(#[trigger] original[k])
            implies text::uppercase(original[k]) by {}
    }
}

/// Force pattern: the replacement is always kept exactly as written.
pub proof fn lemma_force_pattern_case(original: Seq<char>, replacement: Seq<char>)
    ensures
        case_adjusted(original, replacement, CaseMode::ForcePattern) == replacement,
{
}

/// The replacement text for `original` after applying `mode`.
pub open spec fn case_adjusted(original: Seq<char>, replacement: Seq<char>, mode: CaseMode) -> Seq<
    char,
> {
    if original.len() == 0 || replacement.len() == 0 {
        replacement
    } else {
        match mode {
            CaseMode::ForcePattern => replacement,
            CaseMode::Smart => if all_upper(original) && text::utf8_len(original) > 1 {
                text::upper_str(replacement)
            } else {
                replacement
            },
            CaseMode::PreserveInput => if all_upper(original) && text::utf8_len(original) > 1 {
                text::upper_str(replacement)
            } else if text::uppercase(original[0]) {
                text::upper_mapping(replacement[0]) + replacement.drop_first()
            } else {
                text::lower_str(replacement)
            },
        }
    }
}

fn all_upper_chars(s: &[char]) -> (r: bool)
    ensures
        r == all_upper(s@),
{
    let mut k: usize = 0;
    while k < s.len()
        invariant
            k <= s@.len(),
            forall|j: int| 0 <= j < k ==> text::uppercase(#[trigger] s@[j]) || !text::alphabetic(s@[j]),
        decreases s@.len() - k,
    {
        if !(text::is_uppercase(s[k]) || !text::is_alphabetic(s[k])) {
            return false;
        }
        k = k + 1;
    }
    true
}

fn case_adjusted_chars(original: &[char], replacement: &[char], case_mode: CaseMode) -> (r: Vec<
    char,
>)
    ensures
        r@ == case_adjusted(original@, replacement@, case_mode),
{
    if original.len() == 0 || replacement.len() == 0 {
        return text::copy_chars(replacement);
    }
    match case_mode {
        CaseMode::ForcePattern => text::copy_chars(replacement),
        CaseMode::Smart => {
            if all_upper_chars(original) && text::utf8_longer_than_one(original) {
                text::uppercase_chars(replacement)
            } else {
                text::copy_chars(replacement)
            }
        },
        CaseMode::PreserveInput => {
            if all_upper_chars(original) && text::utf8_longer_than_one(original) {
                text::uppercase_chars(replacement)
            } else if text::is_uppercase(original[0]) {
                let mut out = text::to_uppercase_char(replacement[0]);
                let mut k: usize = 1;
                while k < replacement.len()
                    invariant
                        1 <= k <= replacement@.len(),
                        out@ == text::upper_mapping(replacement@[0]) + replacement@.subrange(1, k as int),
                    decreases replacement@.len() - k,
                {
                    out.push(replacement[k]);
                    assert(text::upper_mapping(replacement@[0]) + replacement@.subrange(1, k + 1) =~= (
                    text::upper_mapping(replacement@[0]) + replacement@.subrange(1, k as int)).push(
                        replacement@[k as int],
                    ));
                    k = k + 1;
                }
                assert(replacement@.subrange(1, replacement@.len() as int)
                    =~= replacement@.drop_first());
                out
            } else {
                text::lowercase_chars(replacement)
            }
        },
    }
}

// ---------------------------------------------------------------------------
// Edit distance
// ---------------------------------------------------------------------------

pub open spec fn min3(x: nat, y: nat, z: nat) -> nat {
    if x <= y && x <= z {
        x
    } else if y <= z {
        y
    } else {
        z
    }
}

/// Levenshtein distance: the least number of single-character insertions,
/// deletions and substitutions that turn `a` into `b`.
pub open spec fn lev(a: Seq<char>, b: Seq<char>) -> nat
    decreases a.len() + b.len(),
{
    if a.len() == 0 {
        b.len()
    } else if b.len() == 0 {
        a.len()
    } else {
        min3(
            lev(a.drop_last(), b) + 1,
            lev(a, b.drop_last()) + 1,
            lev(a.drop_last(), b.drop_last()) + (if a.last() == b.last() {
                0nat
            } else {
                1nat
            }),
        )
    }
}

/// The Levenshtein distance never exceeds the longer length.
pub proof fn lemma_lev_bound(a: Seq<char>, b: Seq<char>)
    ensures
        lev(a, b) <= if a.len() >= b.len() {
            a.len()
        } else {
            b.len()
        },
    decreases a.len() + b.len(),
{
    if a.len() > 0 && b.len() > 0 {
        lemma_lev_bound(a.drop_last(), b.drop_last());
    }
}

/// A sequence is at distance zero from itself.
pub proof fn lemma_lev_self(a: Seq<char>)
    ensures
        lev(a, a) == 0,
    decreases a.len(),
{
    if a.len() > 0 {
        lemma_lev_self(a.drop_last());
    }
}

proof fn lemma_lev_prefix_step(a: Seq<char>, b: Seq<char>, i: int, j: int)
    requires
        1 <= i <= a.len(),
        1 <= j <= b.len(),
    ensures
        lev(a.take(i), b.take(j)) == min3(
            lev(a.take(i - 1), b.take(j)) + 1,
            lev(a.take(i), b.take(j - 1)) + 1,
            lev(a.take(i - 1), b.take(j - 1)) + (if a[i - 1] == b[j - 1] {
                0nat
            } else {
                1nat
            }),
        ),
{
    assert(a.take(i).drop_last() =~= a.take(i - 1));
    assert(b.take(j).drop_last() =~= b.take(j - 1));
}

/// An edit distance together with the length it is normalised by: the
/// normalised distance is `edits / scale` (0 = identical, 1 = completely
/// different).
#[derive(Debug, Clone, Copy, PartialEq, Eq, Structural)]
pub struct NormalizedDistance {
    pub edits: usize,
    pub scale: usize,
}

/// `max(a.len(), b.len())`, or 1 when both are empty.
pub open spec fn distance_scale(a: Seq<char>, b: Seq<char>) -> nat {
    if a.len() == 0 && b.len() == 0 {
        1
    } else if a.len() >= b.len() {
        a.len()
    } else {
        b.len()
    }
}

/// The normalised distance `lev(a, b) / distance_scale(a, b)` is at most
/// `per_mille / 1000`.
pub open spec fn within_threshold(a: Seq<char>, b: Seq<char>, per_mille: u32) -> bool {
    lev(a, b) * 1000 <= per_mille * distance_scale(a, b)
}

fn levenshtein(a: &[char], b: &[char]) -> (r: usize)
    ensures
        r == lev(a@, b@),
{
    let n = a.len();
    let m = b.len();
    if n == 0 {
        return m;
    }
    if m == 0 {
        return n;
    }
    // prev[j] holds lev(a[..i], b[..j]) for the current row i.
    let mut prev: Vec<u128> = Vec::new();
    prev.push(0);
    let mut j: usize = 0;
    while j < m
        invariant
            j <= m,
            prev@.len() == j + 1,
            forall|k: int| 0 <= k <= j ==> prev@[k] == k,
        decreases m - j,
    {
        j = j + 1;
        prev.push(j as u128);
    }
    assert(prev@.len() == m + 1);
    proof {
        assert forall|k: int| 0 <= k <= m implies prev@[k] == lev(a@.take(0), b@.take(k)) by {
            assert(a@.take(0) =~= Seq::<char>::empty());
        }
    }
    let mut i: usize = 0;
    while i < n
        invariant
            n == a@.len(),
            m == b@.len(),
            m > 0,
            i <= n,
            prev@.len() == m + 1,
            forall|k: int| 0 <= k <= m ==> prev@[k] == lev(a@.take(i as int), #[trigger] b@.take(k)),
        decreases n - i,
    {
        let mut curr: Vec<u128> = Vec::new();
        proof {
            assert(b@.take(0) =~= Seq::<char>::empty());
        }
        curr.push((i as u128) + 1);
        let mut jj: usize = 0;
        while jj < m
            invariant
                n == a@.len(),
                m == b@.len(),
                i < n,
                jj <= m,
                prev@.len() == m + 1,
                forall|k: int|
                    0 <= k <= m ==> prev@[k] == lev(a@.take(i as int), #[trigger] b@.take(k)),
                curr@.len() == jj + 1,
                forall|k: int|
                    0 <= k <= jj ==> curr@[k] == lev(a@.take(i + 1), #[trigger] b@.take(k)),
            decreases m - jj,
        {
            proof {
                lemma_lev_prefix_step(a@, b@, i + 1, jj + 1);
                lemma_lev_bound(a@.take(i as int), b@.take(jj + 1));
                lemma_lev_bound(a@.take(i + 1), b@.take(jj as int));
                lemma_lev_bound(a@.take(i as int), b@.take(jj as int));
            }
            let cost: u128 = if a[i] == b[jj] {
                0
            } else {
                1
            };
            let del = prev[jj + 1] + 1;
            let ins = curr[jj] + 1;
            let sub = prev[jj] + cost;
            let best = if del <= ins && del <= sub {
                del
            } else if ins <= sub {
                ins
            } else {
                sub
            };
            curr.push(best);
            jj = jj + 1;
        }
        prev = curr;
        i = i + 1;
    }
    proof {
        assert(a@.take(n as int) =~= a@);
        assert(b@.take(m as int) =~= b@);
        lemma_lev_bound(a@, b@);
    }
    prev[m] as usize
}

fn normalized_distance_chars(a: &[char], b: &[char]) -> (r: NormalizedDistance)
    ensures
        r.edits == lev(a@, b@),
        r.scale == distance_scale(a@, b@),
{
    let edits = levenshtein(a, b);
    let scale = if a.len() == 0 && b.len() == 0 {
        1
    } else if a.len() >= b.len() {
        a.len()
    } else {
        b.len()
    };
    NormalizedDistance { edits, scale }
}

fn within_threshold_chars(a: &[char], b: &[char], per_mille: u32) -> (r: bool)
    ensures
        r == within_threshold(a@, b@, per_mille),
{
    let d = normalized_distance_chars(a, b);
    let t: u128 = per_mille as u128;
    let sc: u128 = d.scale as u128;
    assert(t * sc <= 0xffff_ffffu128 * 0xffff_ffff_ffff_ffffu128) by (nonlinear_arith)
        requires
            t <= 0xffff_ffff,
            sc <= 0xffff_ffff_ffff_ffff,
    ;
    (d.edits as u128) * 1000 <= t * sc
}

// ---------------------------------------------------------------------------
// Corrections
// ---------------------------------------------------------------------------

/// A single learned correction pattern.
#[derive(Debug)]
pub struct Correction {
    pub id: String,
    pub original: String,
    pub corrected: String,
    pub mode: CorrectionMode,
    pub match_type: MatchType,
    pub case_mode: CaseMode,
    /// When the correction was learned (RFC 3339 text).
    pub learned_at: String,
    pub use_count: u64,
}

impl Correction {
    /// A copy of this correction.
    pub fn duplicate(&self) -> (r: Correction)
        ensures
            r == *self,
    {
        Correction {
            id: self.id.clone(),
            original: self.original.clone(),
            corrected: self.corrected.clone(),
            mode: self.mode,
            match_type: self.match_type,
            case_mode: self.case_mode,
            learned_at: self.learned_at.clone(),
            use_count: self.use_count,
        }
    }
}

/// The case mode a correction gets when the file does not name one.
pub fn default_case_mode() -> (r: CaseMode)
    ensures
        r == CaseMode::PreserveInput,
{
    CaseMode::PreserveInput
}

/// The contents of `corrections.toml`.
#[derive(Debug)]
pub struct CorrectionsFile {
    pub corrections: Vec<Correction>,
}

/// A correction as the engine stores it, with the values matching needs.
pub struct Entry {
    /// The lowercase form of the original text.
    key: Vec<char>,
    /// Number of whitespace-separated words in the original text.
    span: usize,
    /// Length of the original text in UTF-8 bytes.
    bytes: u128,
    correction: Correction,
}

pub struct EntryView {
    pub key: Seq<char>,
    pub span: nat,
    pub bytes: nat,
    pub correction: Correction,
}

impl View for Entry {
    type V = EntryView;

    closed spec fn view(&self) -> EntryView {
        EntryView {
            key: self.key@,
            span: self.span as nat,
            bytes: self.bytes as nat,
            correction: self.correction,
        }
    }
}

/// The stored form of correction `c`.
pub open spec fn entry_of(c: Correction) -> EntryView {
    EntryView {
        key: text::lower_str(c.original@),
        span: text::words(c.original@).len(),
        bytes: text::utf8_len(c.original@),
        correction: c,
    }
}

pub open spec fn views_of(es: Seq<Entry>) -> Seq<EntryView> {
    es.map_values(|e: Entry| e@)
}

proof fn lemma_views_push(es: Seq<Entry>, e: Entry)
    ensures
        views_of(es.push(e)) == views_of(es).push(e@),
{
    assert(views_of(es.push(e)) =~= views_of(es).push(e@));
}

proof fn lemma_utf8_len_bound(s: Seq<char>)
    ensures
        text::utf8_len(s) <= 4 * s.len(),
    decreases s.len(),
{
    if s.len() > 0 {
        lemma_utf8_len_bound(s.drop_last());
    }
}

fn utf8_len_of(s: &[char]) -> (r: u128)
    ensures
        r == text::utf8_len(s@),
{
    let mut total: u128 = 0;
    let mut k: usize = 0;
    while k < s.len()
        invariant
            k <= s@.len(),
            total == text::utf8_len(s@.take(k as int)),
        decreases s@.len() - k,
    {
        proof {
            assert(s@.take(k + 1).drop_last() =~= s@.take(k as int));
            lemma_utf8_len_bound(s@.take(k as int));
        }
        let u: u32 = s[k] as u32;
        let w: u128 = if u < 0x80 {
            1
        } else if u < 0x800 {
            2
        } else if u < 0x10000 {
            3
        } else {
            4
        };
        total = total + w;
        k = k + 1;
    }
    assert(s@.take(s@.len() as int) =~= s@);
    total
}

fn make_entry(c: Correction) -> (r: Entry)
    ensures
        r@ == entry_of(c),
{
    let orig = text::chars_of(c.original.as_str());
    let key = text::lowercase_chars(orig.as_slice());
    let ws = text::split_whitespace(orig.as_slice());
    let bytes = utf8_len_of(orig.as_slice());
    proof {
        assert(text::seqs_of(ws@).len() == ws@.len());
    }
    Entry { key, span: ws.len(), bytes, correction: c }
}

/// The four groups a correction is sorted into.
#[derive(Debug, Clone, Copy, PartialEq, Eq, Structural)]
pub enum Group {
    ExactPhrase,
    ExactWord,
    PhoneticPhrase,
    PhoneticWord,
}

/// The group of a correction: its match type, and whether its lowercase
/// original contains a space.
pub open spec fn group_of(c: Correction) -> Group {
    let phrase = text::lower_str(c.original@).contains(' ');
    match c.match_type {
        MatchType::Exact => if phrase {
            Group::ExactPhrase
        } else {
            Group::ExactWord
        },
        MatchType::Phonetic => if phrase {
            Group::PhoneticPhrase
        } else {
            Group::PhoneticWord
        },
    }
}

/// The stored forms of the corrections of `cs` that fall in group `g`, in
/// file order.
pub open spec fn group_entries(cs: Seq<Correction>, g: Group) -> Seq<EntryView>
    decreases cs.len(),
{
    if cs.len() == 0 {
        seq![]
    } else {
        let prev = group_entries(cs.drop_last(), g);
        if group_of(cs.last()) == g {
            prev.push(entry_of(cs.last()))
        } else {
            prev
        }
    }
}

/// The rank an entry is sorted by: word count for phrases, byte length for
/// words.
pub open spec fn rank(e: EntryView, by_span: bool) -> nat {
    if by_span {
        e.span
    } else {
        e.bytes
    }
}

/// Stable insertion of `x` into `r`: after every element whose rank is at
/// least that of `x`.
pub open spec fn insert_desc(r: Seq<EntryView>, x: EntryView, by_span: bool) -> Seq<EntryView>
    decreases r.len(),
{
    if r.len() == 0 {
        seq![x]
    } else if rank(r.last(), by_span) >= rank(x, by_span) {
        r.push(x)
    } else {
        insert_desc(r.drop_last(), x, by_span).push(r.last())
    }
}

/// `s` sorted by decreasing rank, keeping the order of equal ranks (what a
/// stable `sort_by` with a descending comparison yields).
pub open spec fn sort_desc(s: Seq<EntryView>, by_span: bool) -> Seq<EntryView>
    decreases s.len(),
{
    if s.len() == 0 {
        seq![]
    } else {
        insert_desc(sort_desc(s.drop_last(), by_span), s.last(), by_span)
    }
}

proof fn lemma_insert_desc_at(r: Seq<EntryView>, x: EntryView, by_span: bool, j: int)
    requires
        0 <= j <= r.len(),
        forall|k: int| j <= k < r.len() ==> rank(#[trigger] r[k], by_span) < rank(x, by_span),
        j == 0 || rank(r[j - 1], by_span) >= rank(x, by_span),
    ensures
        insert_desc(r, x, by_span) == r.insert(j, x),
    decreases r.len(),
{
    if r.len() == 0 {
        assert(r.insert(j, x) =~= seq![x]);
    } else if j == r.len() {
        assert(r.insert(j, x) =~= r.push(x));
    } else {
        let d = r.drop_last();
        assert forall|k: int| j <= k < d.len() implies rank(#[trigger] d[k], by_span) < rank(
            x,
            by_span,
        ) by {
            assert(d[k] == r[k]);
        }
        lemma_insert_desc_at(d, x, by_span, j);
        assert(d.insert(j, x).push(r.last()) =~= r.insert(j, x));
    }
}

fn entry_rank(e: &Entry, by_span: bool) -> (r: u128)
    ensures
        r == rank(e@, by_span),
{
    if by_span {
        e.span as u128
    } else {
        e.bytes
    }
}

fn sort_entries_desc(items: Vec<Entry>, by_span: bool) -> (r: Vec<Entry>)
    ensures
        views_of(r@) == sort_desc(views_of(items@), by_span),
{
    let ghost all = views_of(items@);
    let mut out: Vec<Entry> = Vec::new();
    for e in it: items
        invariant
            it.seq() == items@,
            views_of(out@) == sort_desc(views_of(items@.take(it.index() as int)), by_span),
    {
        let ghost before = views_of(out@);
        let x = entry_rank(&e, by_span);
        let mut j: usize = out.len();
        while j > 0 && entry_rank(&out[j - 1], by_span) < x
            invariant
                j <= out@.len(),
                x == rank(e@, by_span),
                views_of(out@) == before,
                forall|k: int|
                    j <= k < out@.len() ==> rank(#[trigger] before[k], by_span) < rank(e@, by_span),
            decreases j,
        {
            j = j - 1;
        }
        proof {
            lemma_insert_desc_at(before, e@, by_span, j as int);
            let idx = it.index() as int;
            assert(items@.take(idx + 1).drop_last() =~= items@.take(idx));
            assert(views_of(items@.take(idx + 1)) =~= views_of(items@.take(idx)).push(e@));
            assert(views_of(items@.take(idx + 1)).drop_last() =~= views_of(items@.take(idx)));
        }
        let ghost e_view = e@;
        out.insert(j, e);
        assert(views_of(out@) =~= before.insert(j as int, e_view));
    }
    assert(items@.take(items@.len() as int) =~= items@);
    out
}

// ---------------------------------------------------------------------------
// The engine
// ---------------------------------------------------------------------------

/// The correction engine: the loaded corrections, grouped for matching, and
/// the identifiers of the corrections matched since usage was last flushed.
pub struct CorrectionEngine {
    /// Exact multi-word matches; a later entry with the same key wins.
    exact_phrases: Vec<Entry>,
    /// Exact single-word matches; a later entry with the same key wins.
    exact_words: Vec<Entry>,
    /// Phonetic multi-word matches, most words first.
    phonetic_phrases: Vec<Entry>,
    /// Phonetic single-word matches, longest first.
    phonetic_words: Vec<Entry>,
    /// Largest normalised distance a phonetic match may have, in thousandths.
    phonetic_threshold: u32,
    /// Identifiers of matched corrections since the last flush, in match order.
    usage: Vec<String>,
}

pub open spec fn strs_of(v: Seq<String>) -> Seq<Seq<char>> {
    v.map_values(|x: String| x@)
}

/// Number of times `id` occurs in `ids`.
pub open spec fn occurrences(ids: Seq<Seq<char>>, id: Seq<char>) -> nat
    decreases ids.len(),
{
    if ids.len() == 0 {
        0
    } else {
        occurrences(ids.drop_last(), id) + if ids.last() == id {
            1nat
        } else {
            0nat
        }
    }
}

impl CorrectionEngine {
    pub closed spec fn exact_phrases(&self) -> Seq<EntryView> {
        views_of(self.exact_phrases@)
    }

    pub closed spec fn exact_words(&self) -> Seq<EntryView> {
        views_of(self.exact_words@)
    }

    pub closed spec fn phonetic_phrases(&self) -> Seq<EntryView> {
        views_of(self.phonetic_phrases@)
    }

    pub closed spec fn phonetic_words(&self) -> Seq<EntryView> {
        views_of(self.phonetic_words@)
    }

    pub closed spec fn threshold(&self) -> u32 {
        self.phonetic_threshold
    }

    /// Identifiers of the corrections matched since usage was last cleared.
    pub closed spec fn usage(&self) -> Seq<Seq<char>> {
        strs_of(self.usage@)
    }

    /// An engine with no corrections, matching phonetically within
    /// `phonetic_threshold` thousandths of the normalised edit distance.
    pub fn new(phonetic_threshold: u32) -> (r: Self)
        ensures
            r.exact_phrases() == Seq::<EntryView>::empty(),
            r.exact_words() == Seq::<EntryView>::empty(),
            r.phonetic_phrases() == Seq::<EntryView>::empty(),
            r.phonetic_words() == Seq::<EntryView>::empty(),
            r.threshold() == phonetic_threshold,
            r.usage() == Seq::<Seq<char>>::empty(),
    {
        let r = CorrectionEngine {
            exact_phrases: Vec::new(),
            exact_words: Vec::new(),
            phonetic_phrases: Vec::new(),
            phonetic_words: Vec::new(),
            phonetic_threshold,
            usage: Vec::new(),
        };
        assert(r.exact_phrases() =~= Seq::<EntryView>::empty());
        assert(r.exact_words() =~= Seq::<EntryView>::empty());
        assert(r.phonetic_phrases() =~= Seq::<EntryView>::empty());
        assert(r.phonetic_words() =~= Seq::<EntryView>::empty());
        assert(r.usage() =~= Seq::<Seq<char>>::empty());
        r
    }

    /// Replaces the loaded corrections by those of `file`: each goes to its
    /// group in file order, and the phonetic groups are then sorted, phrases
    /// by decreasing word count and words by decreasing length (stably).
    /// Usage and threshold are kept.
    pub fn reload(&mut self, file: CorrectionsFile)
        ensures
            final(self).exact_phrases() == group_entries(file.corrections@, Group::ExactPhrase),
            final(self).exact_words() == group_entries(file.corrections@, Group::ExactWord),
            final(self).phonetic_phrases() == sort_desc(
                group_entries(file.corrections@, Group::PhoneticPhrase),
                true,
            ),
            final(self).phonetic_words() == sort_desc(
                group_entries(file.corrections@, Group::PhoneticWord),
                false,
            ),
            final(self).threshold() == old(self).threshold(),
            final(self).usage() == old(self).usage(),
    {
        let mut ep: Vec<Entry> = Vec::new();
        let mut ew: Vec<Entry> = Vec::new();
        let mut pp: Vec<Entry> = Vec::new();
        let mut pw: Vec<Entry> = Vec::new();
        let ghost cs = file.corrections@;
        for c in it: file.corrections
            invariant
                it.seq() == cs,
                views_of(ep@) == group_entries(cs.take(it.index() as int), Group::ExactPhrase),
                views_of(ew@) == group_entries(cs.take(it.index() as int), Group::ExactWord),
                views_of(pp@) == group_entries(cs.take(it.index() as int), Group::PhoneticPhrase),
                views_of(pw@) == group_entries(cs.take(it.index() as int), Group::PhoneticWord),
        {
            let ghost idx = it.index() as int;
            proof {
                assert(cs.take(idx + 1).drop_last() =~= cs.take(idx));
                assert(cs.take(idx + 1).last() == c);
            }
            let e = make_entry(c);
            let phrase = text::contains_char(e.key.as_slice(), ' ');
            match e.correction.match_type {
                MatchType::Exact => {
                    if phrase {
                        proof { lemma_views_push(ep@, e); }
                        ep.push(e);
                    } else {
                        proof { lemma_views_push(ew@, e); }
                        ew.push(e);
                    }
                },
                MatchType::Phonetic => {
                    if phrase {
                        proof { lemma_views_push(pp@, e); }
                        pp.push(e);
                    } else {
                        proof { lemma_views_push(pw@, e); }
                        pw.push(e);
                    }
                },
            }
        }
        proof {
            assert(cs.take(cs.len() as int) =~= cs);
        }
        self.exact_phrases = ep;
        self.exact_words = ew;
        self.phonetic_phrases = sort_entries_desc(pp, true);
        self.phonetic_words = sort_entries_desc(pw, false);
    }

    /// Whether any correction matched since usage was last cleared.
    pub fn has_usage(&self) -> (r: bool)
        ensures
            r == (self.usage().len() > 0),
    {
        self.usage.len() > 0
    }

    /// Whether matching should be flushed to disk: after 50 matches.
    pub fn should_flush(&self) -> (r: bool)
        ensures
            r == (self.usage().len() >= 50),
    {
        self.usage.len() >= 50
    }

    /// Number of times the correction `id` matched since the last flush.
    pub fn usage_count(&self, id: &str) -> (r: u64)
        ensures
            r == occurrences(self.usage(), id@) || (occurrences(self.usage(), id@) > u64::MAX
                && r == u64::MAX),
    {
        let mut n: u64 = 0;
        let mut k: usize = 0;
        let target = text::chars_of(id);
        while k < self.usage.len()
            invariant
                k <= self.usage@.len(),
                target@ == id@,
                n == occurrences(strs_of(self.usage@.take(k as int)), id@) || (occurrences(
                    strs_of(self.usage@.take(k as int)),
                    id@,
                ) > u64::MAX && n == u64::MAX),
            decreases self.usage@.len() - k,
        {
            proof {
                assert(strs_of(self.usage@.take(k + 1)).drop_last() =~= strs_of(
                    self.usage@.take(k as int),
                ));
                assert(strs_of(self.usage@.take(k + 1)).last() == self.usage@[k as int]@);
            }
            let here = text::chars_of(self.usage[k].as_str());
            if text::chars_eq(here.as_slice(), target.as_slice()) {
                n = n.saturating_add(1);
            }
            k = k + 1;
        }
        proof {
            assert(self.usage@.take(self.usage@.len() as int) =~= self.usage@);
        }
        n
    }

    /// Forgets the matches recorded so far (after they were flushed).
    pub fn clear_usage(&mut self)
        ensures
            final(self).usage() == Seq::<Seq<char>>::empty(),
            final(self).exact_phrases() == old(self).exact_phrases(),
            final(self).exact_words() == old(self).exact_words(),
            final(self).phonetic_phrases() == old(self).phonetic_phrases(),
            final(self).phonetic_words() == old(self).phonetic_words(),
            final(self).threshold() == old(self).threshold(),
    {
        self.usage.clear();
        assert(strs_of(self.usage@) =~= Seq::<Seq<char>>::empty());
    }
}

// ---------------------------------------------------------------------------
// Applying corrections
// ---------------------------------------------------------------------------

/// The correction stored last under `key`, if any (what a map that each
/// entry was inserted into, in order, holds for `key`).
pub open spec fn lookup_last(entries: Seq<EntryView>, key: Seq<char>) -> Option<Correction>
    decreases entries.len(),
{
    if entries.len() == 0 {
        None
    } else if entries.last().key == key {
        Some(entries.last().correction)
    } else {
        lookup_last(entries.drop_last(), key)
    }
}

/// The words `i .. i + len` of `lower`, joined with single spaces.
pub open spec fn phrase_key(lower: Seq<Seq<char>>, i: int, len: int) -> Seq<char> {
    text::join(lower.subrange(i, i + len), seq![' '])
}

/// An exact phrase correction of `len` words starting at word `i`.
pub open spec fn exact_phrase_at(
    phrases: Seq<EntryView>,
    lower: Seq<Seq<char>>,
    mode: Seq<char>,
    i: int,
    len: int,
) -> Option<Correction> {
    if i + len <= lower.len() {
        match lookup_last(phrases, phrase_key(lower, i, len)) {
            Some(c) => if mode_matches(c.mode, mode) {
                Some(c)
            } else {
                None
            },
            None => None,
        }
    } else {
        None
    }
}

/// The first phonetic phrase from index `k` on that matches at word `i`,
/// with the number of words it covers.
///
/// A phrase's key contains a space, so a phrase that covers no word (its
/// original is only whitespace) is at distance 1 from the empty key it is
/// compared with: it can only match when the threshold admits distance 1.
pub open spec fn phonetic_phrase_from(
    phrases: Seq<EntryView>,
    lower: Seq<Seq<char>>,
    mode: Seq<char>,
    i: int,
    t: u32,
    k: int,
) -> Option<(Correction, nat)>
    decreases phrases.len() - k,
{
    if k < 0 || k >= phrases.len() {
        None
    } else {
        let e = phrases[k];
        if mode_matches(e.correction.mode, mode) && (e.span >= 1 || t >= 1000) && i + e.span
            <= lower.len() && within_threshold(
            phrase_key(lower, i, e.span as int),
            e.key,
            t,
        ) {
            Some((e.correction, e.span))
        } else {
            phonetic_phrase_from(phrases, lower, mode, i, t, k + 1)
        }
    }
}

/// The first phonetic word from index `k` on that matches the word `w`.
pub open spec fn phonetic_word_from(
    entries: Seq<EntryView>,
    w: Seq<char>,
    mode: Seq<char>,
    t: u32,
    k: int,
) -> Option<Correction>
    decreases entries.len() - k,
{
    if k < 0 || k >= entries.len() {
        None
    } else {
        let e = entries[k];
        if mode_matches(e.correction.mode, mode) && within_threshold(w, e.key, t) {
            Some(e.correction)
        } else {
            phonetic_word_from(entries, w, mode, t, k + 1)
        }
    }
}

impl CorrectionEngine {
    /// The correction applied at word `i` and the number of words it
    /// replaces: exact phrases of four, three, then two words; an exact
    /// word; the phonetic phrases in order; the phonetic words in order.
    pub open spec fn step(&self, lower: Seq<Seq<char>>, mode: Seq<char>, i: int) -> Option<
        (Correction, nat),
    > {
        if let Some(c) = exact_phrase_at(self.exact_phrases(), lower, mode, i, 4) {
            Some((c, 4))
        } else if let Some(c) = exact_phrase_at(self.exact_phrases(), lower, mode, i, 3) {
            Some((c, 3))
        } else if let Some(c) = exact_phrase_at(self.exact_phrases(), lower, mode, i, 2) {
            Some((c, 2))
        } else if let Some(c) = match lookup_last(self.exact_words(), lower[i]) {
            Some(c) => if mode_matches(c.mode, mode) {
                Some(c)
            } else {
                None
            },
            None => None,
        } {
            Some((c, 1))
        } else if let Some(p) = phonetic_phrase_from(
            self.phonetic_phrases(),
            lower,
            mode,
            i,
            self.threshold(),
            0,
        ) {
            Some(p)
        } else if let Some(c) = phonetic_word_from(
            self.phonetic_words(),
            lower[i],
            mode,
            self.threshold(),
            0,
        ) {
            Some((c, 1))
        } else {
            None
        }
    }

    /// The output tokens and the identifiers of the corrections used, for
    /// the words from index `i` on.
    pub open spec fn run_from(
        &self,
        words: Seq<Seq<char>>,
        lower: Seq<Seq<char>>,
        mode: Seq<char>,
        i: int,
    ) -> (Seq<Seq<char>>, Seq<Seq<char>>)
        decreases words.len() - i,
    {
        if i < 0 || i >= words.len() {
            (seq![], seq![])
        } else {
            match self.step(lower, mode, i) {
                Some((c, adv)) => if adv == 0 || i + adv > words.len() {
                    (seq![], seq![])
                } else {
                    let rest = self.run_from(words, lower, mode, i + adv);
                    (
                        seq![case_adjusted(words[i], c.corrected@, c.case_mode)] + rest.0,
                        seq![c.id@] + rest.1,
                    )
                },
                None => {
                    let rest = self.run_from(words, lower, mode, i + 1);
                    (seq![words[i]] + rest.0, rest.1)
                },
            }
        }
    }

    /// The words of `text` after corrections, and the corrections used.
    pub open spec fn run(&self, text: Seq<char>, mode: Seq<char>) -> (
        Seq<Seq<char>>,
        Seq<Seq<char>>,
    ) {
        let ws = text::words(text);
        self.run_from(ws, ws.map_values(|w: Seq<char>| text::lower_str(w)), mode, 0)
    }

    /// Whether applying corrections from word `i` of `lower` on comes to an
    /// end. It does not when a correction that covers no word matches: the
    /// scan then stays at that word forever.
    pub open spec fn halts_from(&self, lower: Seq<Seq<char>>, mode: Seq<char>, i: int) -> bool
        decreases lower.len() - i,
    {
        if i < 0 || i >= lower.len() {
            true
        } else {
            match self.step(lower, mode, i) {
                Some((c, adv)) => if adv == 0 {
                    false
                } else if i + adv > lower.len() {
                    true
                } else {
                    self.halts_from(lower, mode, i + adv)
                },
                None => self.halts_from(lower, mode, i + 1),
            }
        }
    }

    /// Whether applying corrections to `text` in `mode` comes to an end.
    pub open spec fn halts(&self, text: Seq<char>, mode: Seq<char>) -> bool {
        let ws = text::words(text);
        self.halts_from(ws.map_values(|w: Seq<char>| text::lower_str(w)), mode, 0)
    }

    /// Every phonetic phrase covers at least one word (otherwise a match of
    /// it would never advance past the current word).
    pub open spec fn phrases_have_words(&self) -> bool {
        forall|k: int|
            0 <= k < self.phonetic_phrases().len() ==> #[trigger] self.phonetic_phrases()[k].span
                >= 1
    }

    fn find_last(entries: &Vec<Entry>, key: &[char]) -> (r: Option<usize>)
        ensures
            match lookup_last(views_of(entries@), key@) {
                Some(c) => r.is_some() && r.unwrap() < entries@.len() && entries@[r.unwrap() as int]@.correction == c,
                None => r.is_none(),
            },
    {
        let mut k: usize = entries.len();
        assert(entries@.take(k as int) =~= entries@);
        while k > 0
            invariant
                k <= entries@.len(),
                lookup_last(views_of(entries@), key@) == lookup_last(views_of(entries@.take(k as int)), key@),
            decreases k,
        {
            proof {
                assert(views_of(entries@.take(k as int)).drop_last() =~= views_of(entries@.take(k - 1)));
                assert(views_of(entries@.take(k as int)).last() == entries@[k - 1]@);
            }
            if text::chars_eq(entries[k - 1].key.as_slice(), key) {
                return Some(k - 1);
            }
            k = k - 1;
        }
        proof {
            assert(entries@.take(entries@.len() as int) =~= entries@);
            assert(views_of(entries@.take(0)) =~= Seq::<EntryView>::empty());
        }
        None
    }
}

/// Each of `words` lowercased.
fn lower_words(words: &Vec<Vec<char>>) -> (r: Vec<Vec<char>>)
    ensures
        text::seqs_of(r@) == text::seqs_of(words@).map_values(|w: Seq<char>| text::lower_str(w)),
{
    let ghost ws = text::seqs_of(words@);
    let ghost lw = ws.map_values(|w: Seq<char>| text::lower_str(w));
    let mut lower: Vec<Vec<char>> = Vec::new();
    let mut k: usize = 0;
    while k < words.len()
        invariant
            k <= words@.len(),
            ws == text::seqs_of(words@),
            lw == ws.map_values(|w: Seq<char>| text::lower_str(w)),
            text::seqs_of(lower@) == lw.take(k as int),
        decreases words@.len() - k,
    {
        let lo = text::lowercase_chars(words[k].as_slice());
        proof {
            text::lemma_seqs_of_push(lower@, lo);
            assert(lw.take(k + 1) =~= lw.take(k as int).push(text::lower_str(ws[k as int])));
        }
        lower.push(lo);
        k = k + 1;
    }
    assert(lw.take(words@.len() as int) =~= lw);
    lower
}

/// The words `i .. i + len` of `lower`, joined with single spaces.
fn phrase_key_exec(lower: &Vec<Vec<char>>, i: usize, len: usize) -> (r: Vec<char>)
    requires
        i + len <= lower@.len(),
    ensures
        r@ == phrase_key(text::seqs_of(lower@), i as int, len as int),
{
    let ghost ls = text::seqs_of(lower@);
    let mut out: Vec<char> = Vec::new();
    let mut j: usize = 0;
    while j < len
        invariant
            i + len <= lower@.len(),
            ls == text::seqs_of(lower@),
            j <= len,
            out@ == text::join(ls.subrange(i as int, i + j), seq![' ']),
        decreases len - j,
    {
        let ghost sub = ls.subrange(i as int, i + j);
        assert(ls.subrange(i as int, i + j + 1) =~= sub.push(lower@[i + j]@));
        assert(ls.subrange(i as int, i + j + 1).drop_last() =~= sub);
        if j > 0 {
            out.push(' ');
        }
        assert(i + j < lower.len());
        text::extend_chars(&mut out, lower[i + j].as_slice());
        proof {
            if j == 0 {
                assert(Seq::<char>::empty() + lower@[i as int]@ =~= lower@[i as int]@);
            } else {
                assert(out@ =~= text::join(sub, seq![' ']) + seq![' '] + lower@[i + j]@);
            }
        }
        j = j + 1;
    }
    out
}

proof fn lemma_phonetic_phrase_span(
    phrases: Seq<EntryView>,
    lower: Seq<Seq<char>>,
    mode: Seq<char>,
    i: int,
    t: u32,
    k: int,
)
    ensures
        phonetic_phrase_from(phrases, lower, mode, i, t, k) matches Some(p) ==> i + p.1
            <= lower.len() && (p.1 >= 1 || t >= 1000) && ((forall|j: int|
            0 <= j < phrases.len() ==> #[trigger] phrases[j].span >= 1) ==> p.1 >= 1),
    decreases phrases.len() - k,
{
    if 0 <= k < phrases.len() {
        lemma_phonetic_phrase_span(phrases, lower, mode, i, t, k + 1);
    }
}

/// No entry of `entries` applies in `mode`.
pub open spec fn none_in_mode(entries: Seq<EntryView>, mode: Seq<char>) -> bool {
    forall|k: int| 0 <= k < entries.len() ==> !mode_matches(#[trigger] entries[k].correction.mode, mode)
}

proof fn lemma_lookup_none_in_mode(entries: Seq<EntryView>, key: Seq<char>, mode: Seq<char>)
    requires
        none_in_mode(entries, mode),
    ensures
        lookup_last(entries, key) matches Some(c) ==> !mode_matches(c.mode, mode),
    decreases entries.len(),
{
    if entries.len() > 0 {
        assert(entries.last() == entries[entries.len() - 1]);
        let d = entries.drop_last();
        assert forall|k: int| 0 <= k < d.len() implies !mode_matches(
            #[trigger] d[k].correction.mode,
            mode,
        ) by {
            assert(d[k] == entries[k]);
        }
        lemma_lookup_none_in_mode(d, key, mode);
    }
}

proof fn lemma_phonetic_none_in_mode(
    entries: Seq<EntryView>,
    lower: Seq<Seq<char>>,
    w: Seq<char>,
    mode: Seq<char>,
    i: int,
    t: u32,
    k: int,
)
    requires
        none_in_mode(entries, mode),
    ensures
        phonetic_phrase_from(entries, lower, mode, i, t, k) is None,
        phonetic_word_from(entries, w, mode, t, k) is None,
    decreases entries.len() - k,
{
    if 0 <= k < entries.len() {
        assert(!mode_matches(entries[k].correction.mode, mode));
        lemma_phonetic_none_in_mode(entries, lower, w, mode, i, t, k + 1);
    }
}

impl CorrectionEngine {
    /// No loaded correction applies in `mode`.
    pub open spec fn none_applies_in(&self, mode: Seq<char>) -> bool {
        &&& none_in_mode(self.exact_phrases(), mode)
        &&& none_in_mode(self.exact_words(), mode)
        &&& none_in_mode(self.phonetic_phrases(), mode)
        &&& none_in_mode(self.phonetic_words(), mode)
    }

    proof fn lemma_no_step_in_mode(&self, lower: Seq<Seq<char>>, mode: Seq<char>, i: int)
        requires
            self.none_applies_in(mode),
        ensures
            self.step(lower, mode, i) is None,
    {
        lemma_lookup_none_in_mode(self.exact_phrases(), phrase_key(lower, i, 4), mode);
        lemma_lookup_none_in_mode(self.exact_phrases(), phrase_key(lower, i, 3), mode);
        lemma_lookup_none_in_mode(self.exact_phrases(), phrase_key(lower, i, 2), mode);
        lemma_lookup_none_in_mode(self.exact_words(), lower[i], mode);
        lemma_phonetic_none_in_mode(self.phonetic_phrases(), lower, lower[i], mode, i, self.threshold(), 0);
        lemma_phonetic_none_in_mode(self.phonetic_words(), lower, lower[i], mode, i, self.threshold(), 0);
    }

    proof fn lemma_run_from_in_mode(
        &self,
        words: Seq<Seq<char>>,
        lower: Seq<Seq<char>>,
        mode: Seq<char>,
        i: int,
    )
        requires
            self.none_applies_in(mode),
            words.len() == lower.len(),
            0 <= i <= words.len(),
        ensures
            self.run_from(words, lower, mode, i) == (
                words.subrange(i, words.len() as int),
                Seq::<Seq<char>>::empty(),
            ),
            self.halts_from(lower, mode, i),
        decreases words.len() - i,
    {
        if i < words.len() {
            self.lemma_no_step_in_mode(lower, mode, i);
            self.lemma_run_from_in_mode(words, lower, mode, i + 1);
            assert(words.subrange(i, words.len() as int) =~= seq![words[i]] + words.subrange(
                i + 1,
                words.len() as int,
            ));
        } else {
            assert(words.subrange(i, words.len() as int) =~= Seq::<Seq<char>>::empty());
        }
    }

    /// When no loaded correction applies in `mode`, applying corrections
    /// keeps the words of the text (joined by single spaces) and uses no
    /// correction.
    pub proof fn lemma_no_correction_in_mode_keeps_words(&self, text: Seq<char>, mode: Seq<char>)
        requires
            self.none_applies_in(mode),
        ensures
            self.halts(text, mode),
            self.run(text, mode).0 == text::words(text),
            self.run(text, mode).1 == Seq::<Seq<char>>::empty(),
    {
        let ws = text::words(text);
        let lw = ws.map_values(|w: Seq<char>| text::lower_str(w));
        self.lemma_run_from_in_mode(ws, lw, mode, 0);
        assert(ws.subrange(0, ws.len() as int) =~= ws);
    }

    proof fn lemma_step_bounds(&self, lower: Seq<Seq<char>>, mode: Seq<char>, i: int)
        requires
            0 <= i < lower.len(),
        ensures
            self.step(lower, mode, i) matches Some(p) ==> i + p.1 <= lower.len() && ((
            self.phrases_have_words() || self.threshold() < 1000) ==> p.1 >= 1),
    {
        lemma_phonetic_phrase_span(self.phonetic_phrases(), lower, mode, i, self.threshold(), 0);
    }

    proof fn lemma_halts_from(&self, lower: Seq<Seq<char>>, mode: Seq<char>, i: int)
        requires
            self.phrases_have_words() || self.threshold() < 1000,
        ensures
            self.halts_from(lower, mode, i),
        decreases lower.len() - i,
    {
        if 0 <= i < lower.len() {
            self.lemma_step_bounds(lower, mode, i);
            match self.step(lower, mode, i) {
                Some((c, adv)) => {
                    self.lemma_halts_from(lower, mode, i + adv);
                },
                None => {
                    self.lemma_halts_from(lower, mode, i + 1);
                },
            }
        }
    }

    /// Applying corrections always comes to an end when every phonetic
    /// phrase covers a word or the threshold is below distance 1.
    pub proof fn lemma_applying_halts(&self, text: Seq<char>, mode: Seq<char>)
        requires
            self.phrases_have_words() || self.threshold() < 1000,
        ensures
            self.halts(text, mode),
    {
        let ws = text::words(text);
        self.lemma_halts_from(ws.map_values(|w: Seq<char>| text::lower_str(w)), mode, 0);
    }

    /// The entries of group `g`.
    pub closed spec fn group(&self, g: Group) -> Seq<EntryView> {
        match g {
            Group::ExactPhrase => self.exact_phrases(),
            Group::ExactWord => self.exact_words(),
            Group::PhoneticPhrase => self.phonetic_phrases(),
            Group::PhoneticWord => self.phonetic_words(),
        }
    }

    fn entries(&self, g: Group) -> (r: &Vec<Entry>)
        ensures
            views_of(r@) == self.group(g),
    {
        match g {
            Group::ExactPhrase => &self.exact_phrases,
            Group::ExactWord => &self.exact_words,
            Group::PhoneticPhrase => &self.phonetic_phrases,
            Group::PhoneticWord => &self.phonetic_words,
        }
    }

    fn exact_phrase_exec(&self, lower: &Vec<Vec<char>>, mode: &[char], i: usize, len: usize) -> (r:
        Option<usize>)
        ensures
            match exact_phrase_at(self.exact_phrases(), text::seqs_of(lower@), mode@, i as int, len as int) {
                Some(c) => r.is_some() && r.unwrap() < self.exact_phrases().len()
                    && self.exact_phrases()[r.unwrap() as int].correction == c,
                None => r.is_none(),
            },
    {
        if len > lower.len() || i > lower.len() - len {
            return None;
        }
        let key = phrase_key_exec(lower, i, len);
        match Self::find_last(&self.exact_phrases, key.as_slice()) {
            Some(k) => {
                if self.exact_phrases[k].correction.mode.matches_chars(mode) {
                    Some(k)
                } else {
                    None
                }
            },
            None => None,
        }
    }

    fn step_exec(&self, lower: &Vec<Vec<char>>, mode: &[char], i: usize) -> (r: Option<
        (Group, usize, usize),
    >)
        requires
            i < lower@.len(),
        ensures
            match self.step(text::seqs_of(lower@), mode@, i as int) {
                Some(p) => r.is_some() && r.unwrap().1 < self.group(r.unwrap().0).len()
                    && self.group(r.unwrap().0)[r.unwrap().1 as int].correction == p.0
                    && r.unwrap().2 == p.1,
                None => r.is_none(),
            },
    {
        let ghost ls = text::seqs_of(lower@);
        if let Some(k) = self.exact_phrase_exec(lower, mode, i, 4) {
            return Some((Group::ExactPhrase, k, 4));
        }
        if let Some(k) = self.exact_phrase_exec(lower, mode, i, 3) {
            return Some((Group::ExactPhrase, k, 3));
        }
        if let Some(k) = self.exact_phrase_exec(lower, mode, i, 2) {
            return Some((Group::ExactPhrase, k, 2));
        }
        assert(ls[i as int] == lower@[i as int]@);
        assert(exact_phrase_at(self.exact_phrases(), ls, mode@, i as int, 4) is None);
        assert(exact_phrase_at(self.exact_phrases(), ls, mode@, i as int, 3) is None);
        assert(exact_phrase_at(self.exact_phrases(), ls, mode@, i as int, 2) is None);
        if let Some(k) = Self::find_last(&self.exact_words, lower[i].as_slice()) {
            assert(self.exact_words()[k as int] == self.exact_words@[k as int]@);
            if self.exact_words[k].correction.mode.matches_chars(mode) {
                return Some((Group::ExactWord, k, 1));
            }
        }
        assert(match lookup_last(self.exact_words(), ls[i as int]) {
            Some(c) => !mode_matches(c.mode, mode@),
            None => true,
        });
        let t = self.phonetic_threshold;
        let mut k: usize = 0;
        while k < self.phonetic_phrases.len()
            invariant
                k <= self.phonetic_phrases@.len(),
                ls == text::seqs_of(lower@),
                i < lower@.len(),
                t == self.threshold(),
                exact_phrase_at(self.exact_phrases(), ls, mode@, i as int, 4) is None,
                exact_phrase_at(self.exact_phrases(), ls, mode@, i as int, 3) is None,
                exact_phrase_at(self.exact_phrases(), ls, mode@, i as int, 2) is None,
                match lookup_last(self.exact_words(), ls[i as int]) {
                    Some(c) => !mode_matches(c.mode, mode@),
                    None => true,
                },
                phonetic_phrase_from(self.phonetic_phrases(), ls, mode@, i as int, t, 0)
                    == phonetic_phrase_from(self.phonetic_phrases(), ls, mode@, i as int, t, k as int),
            decreases self.phonetic_phrases@.len() - k,
        {
            let e = &self.phonetic_phrases[k];
            assert(self.phonetic_phrases()[k as int] == e@);
            if e.correction.mode.matches_chars(mode) && (e.span >= 1 || t >= 1000) && e.span
                <= lower.len() && i <= lower.len() - e.span {
                let key = phrase_key_exec(lower, i, e.span);
                if within_threshold_chars(key.as_slice(), e.key.as_slice(), t) {
                    assert(phonetic_phrase_from(self.phonetic_phrases(), ls, mode@, i as int, t, k as int)
                        == Some((e@.correction, e@.span)));
                    return Some((Group::PhoneticPhrase, k, e.span));
                }
            }
            k = k + 1;
        }
        let mut k: usize = 0;
        while k < self.phonetic_words.len()
            invariant
                k <= self.phonetic_words@.len(),
                ls == text::seqs_of(lower@),
                i < lower@.len(),
                t == self.threshold(),
                exact_phrase_at(self.exact_phrases(), ls, mode@, i as int, 4) is None,
                exact_phrase_at(self.exact_phrases(), ls, mode@, i as int, 3) is None,
                exact_phrase_at(self.exact_phrases(), ls, mode@, i as int, 2) is None,
                match lookup_last(self.exact_words(), ls[i as int]) {
                    Some(c) => !mode_matches(c.mode, mode@),
                    None => true,
                },
                phonetic_phrase_from(self.phonetic_phrases(), ls, mode@, i as int, t, 0) is None,
                phonetic_word_from(self.phonetic_words(), ls[i as int], mode@, t, 0)
                    == phonetic_word_from(self.phonetic_words(), ls[i as int], mode@, t, k as int),
            decreases self.phonetic_words@.len() - k,
        {
            let e = &self.phonetic_words[k];
            assert(self.phonetic_words()[k as int] == e@);
            if e.correction.mode.matches_chars(mode) && within_threshold_chars(
                lower[i].as_slice(),
                e.key.as_slice(),
                t,
            ) {
                assert(phonetic_word_from(self.phonetic_words(), ls[i as int], mode@, t, k as int)
                    == Some(e@.correction));
                return Some((Group::PhoneticWord, k, 1));
            }
            k = k + 1;
        }
        None
    }

    /// Whether applying the corrections to `text` in `mode` comes to an end:
    /// false exactly when, at some word the scan reaches, the correction that
    /// applies is a phonetic phrase that covers no word.
    pub fn halts_on(&self, text: &str, mode: &str) -> (r: bool)
        ensures
            r == self.halts(text@, mode@),
    {
        let tc = text::chars_of(text);
        let words = text::split_whitespace(tc.as_slice());
        let lower = lower_words(&words);
        let ghost lw = text::seqs_of(lower@);
        let modec = text::chars_of(mode);
        let mut i: usize = 0;
        while i < lower.len()
            invariant
                i <= lower@.len(),
                lw == text::seqs_of(lower@),
                lw.len() == lower@.len(),
                modec@ == mode@,
                self.halts(text@, mode@) == self.halts_from(lw, mode@, i as int),
            decreases lower@.len() - i,
        {
            let st = self.step_exec(&lower, modec.as_slice(), i);
            proof {
                self.lemma_step_bounds(lw, mode@, i as int);
            }
            match st {
                Some((_g, _idx, adv)) => {
                    if adv == 0 {
                        return false;
                    }
                    i = i + adv;
                },
                None => {
                    i = i + 1;
                },
            }
        }
        true
    }

    /// Applies the learned corrections to `text` for the daemon mode `mode`.
    ///
    /// The text is split at whitespace; at each word the first correction
    /// that applies (exact phrases of four, three and two words, an exact
    /// word, the phonetic phrases, the phonetic words) replaces the words it
    /// covers, with its case adjusted to the first of them. Unmatched words
    /// are kept. The result has single spaces between tokens, and every
    /// correction used is recorded in the usage.
    pub fn apply(&mut self, text: &str, mode: &str) -> (r: String)
        requires
            old(self).halts(text@, mode@),
        ensures
            r@ == text::spaced(old(self).run(text@, mode@).0),
            final(self).usage() == old(self).usage() + old(self).run(text@, mode@).1,
            final(self).exact_phrases() == old(self).exact_phrases(),
            final(self).exact_words() == old(self).exact_words(),
            final(self).phonetic_phrases() == old(self).phonetic_phrases(),
            final(self).phonetic_words() == old(self).phonetic_words(),
            final(self).threshold() == old(self).threshold(),
    {
        let tc = text::chars_of(text);
        let words = text::split_whitespace(tc.as_slice());
        let ghost ws = text::seqs_of(words@);
        let ghost lw = ws.map_values(|w: Seq<char>| text::lower_str(w));
        let lower = lower_words(&words);
        let modec = text::chars_of(mode);
        let ghost eng = *self;
        let ghost full = eng.run_from(ws, lw, mode@, 0);
        let ghost mut toks: Seq<Seq<char>> = seq![];
        let ghost mut ids: Seq<Seq<char>> = seq![];
        let mut out: Vec<char> = Vec::new();
        let mut i: usize = 0;
        assert(toks + full.0 =~= full.0);
        assert(ids + full.1 =~= full.1);
        assert(self.usage() + ids =~= self.usage());
        while i < words.len()
            invariant
                i <= words@.len(),
                ws == text::seqs_of(words@),
                lw == text::seqs_of(lower@),
                lw.len() == ws.len(),
                modec@ == mode@,
                full == eng.run_from(ws, lw, mode@, 0),
                toks + eng.run_from(ws, lw, mode@, i as int).0 == full.0,
                ids + eng.run_from(ws, lw, mode@, i as int).1 == full.1,
                out@ == text::spaced(toks),
                self.usage() == eng.usage() + ids,
                self.exact_phrases() == eng.exact_phrases(),
                self.exact_words() == eng.exact_words(),
                self.phonetic_phrases() == eng.phonetic_phrases(),
                self.phonetic_words() == eng.phonetic_words(),
                self.threshold() == eng.threshold(),
                eng.halts_from(lw, mode@, i as int),
            decreases words@.len() - i,
        {
            let st = self.step_exec(&lower, modec.as_slice(), i);
            proof {
                eng.lemma_step_bounds(lw, mode@, i as int);
            }
            match st {
                Some((g, idx, adv)) => {
                    let ghost c = self.group(g)[idx as int].correction;
                    let entries = self.entries(g);
                    assert(entries@[idx as int]@.correction == c);
                    let id = entries[idx].correction.id.clone();
                    let corrected = text::chars_of(entries[idx].correction.corrected.as_str());
                    let case_mode = entries[idx].correction.case_mode;
                    let rep = case_adjusted_chars(words[i].as_slice(), corrected.as_slice(), case_mode);
                    let ghost rest = eng.run_from(ws, lw, mode@, i + adv);
                    proof {
                        assert(eng.run_from(ws, lw, mode@, i as int).0 == seq![rep@] + rest.0);
                        assert(toks.push(rep@) + rest.0 =~= toks + (seq![rep@] + rest.0));
                        assert(ids.push(c.id@) + rest.1 =~= ids + (seq![c.id@] + rest.1));
                        text::lemma_spaced_push(toks, rep@);
                        assert(strs_of(self.usage@.push(id)) =~= strs_of(self.usage@).push(id@));
                        assert(eng.usage() + ids.push(c.id@) =~= (eng.usage() + ids).push(c.id@));
                    }
                    text::push_spaced(&mut out, rep.as_slice());
                    self.usage.push(id);
                    proof {
                        toks = toks.push(rep@);
                        ids = ids.push(c.id@);
                    }
                    i = i + adv;
                },
                None => {
                    let ghost rest = eng.run_from(ws, lw, mode@, i + 1);
                    proof {
                        assert(toks.push(ws[i as int]) + rest.0 =~= toks + (seq![ws[i as int]] + rest.0));
                        text::lemma_spaced_push(toks, ws[i as int]);
                    }
                    text::push_spaced(&mut out, words[i].as_slice());
                    proof {
                        toks = toks.push(ws[i as int]);
                    }
                    i = i + 1;
                },
            }
        }
        proof {
            assert(toks =~= full.0);
            assert(ids =~= full.1);
        }
        text::string_of(out.as_slice())
    }
}

impl CorrectionEngine {
    /// The replacement text for `original` after applying `case_mode`:
    /// `ForcePattern` keeps `replacement`; `Smart` uppercases it when
    /// `original` is all caps and longer than one byte; `PreserveInput` does
    /// the same for all caps, otherwise uppercases the first character of
    /// `replacement` when `original` starts uppercase, and lowercases it
    /// otherwise. An empty `original` or `replacement` gives `replacement`.
    pub fn preserve_case(original: &str, replacement: &str, case_mode: CaseMode) -> (r: String)
        ensures
            r@ == case_adjusted(original@, replacement@, case_mode),
    {
        let o = text::chars_of(original);
        let rep = text::chars_of(replacement);
        let out = case_adjusted_chars(o.as_slice(), rep.as_slice(), case_mode);
        text::string_of(out.as_slice())
    }

    /// The Levenshtein distance between `a` and `b` with the length it is
    /// normalised by (the longer length, or 1 when both are empty).
    pub fn normalized_edit_distance(a: &str, b: &str) -> (r: NormalizedDistance)
        ensures
            r.edits == lev(a@, b@),
            r.scale == distance_scale(a@, b@),
    {
        let ac = text::chars_of(a);
        let bc = text::chars_of(b);
        normalized_distance_chars(ac.as_slice(), bc.as_slice())
    }
}

// ---------------------------------------------------------------------------
// Editing the list of corrections
// ---------------------------------------------------------------------------

/// Why an edit of the corrections list failed.
#[derive(Debug, Clone, Copy, PartialEq, Eq, Structural)]
pub enum CorrectionError {
    /// No correction has the given identifier.
    NotFound,
}

/// `c` and `d` have the same lowercase original and the same mode.
pub open spec fn same_pattern(c: Correction, d: Correction) -> bool {
    text::lower_str(c.original@) == text::lower_str(d.original@) && c.mode == d.mode
}

/// The corrections of `cs` that do not have the pattern of `d`, in order.
pub open spec fn without_pattern(cs: Seq<Correction>, d: Correction) -> Seq<Correction>
    decreases cs.len(),
{
    if cs.len() == 0 {
        seq![]
    } else {
        let prev = without_pattern(cs.drop_last(), d);
        if same_pattern(cs.last(), d) {
            prev
        } else {
            prev.push(cs.last())
        }
    }
}

/// The corrections of `cs` whose identifier is not `id`, in order.
pub open spec fn without_id(cs: Seq<Correction>, id: Seq<char>) -> Seq<Correction>
    decreases cs.len(),
{
    if cs.len() == 0 {
        seq![]
    } else {
        let prev = without_id(cs.drop_last(), id);
        if cs.last().id@ == id {
            prev
        } else {
            prev.push(cs.last())
        }
    }
}

/// Some correction of `cs` has identifier `id`.
pub open spec fn has_id(cs: Seq<Correction>, id: Seq<char>) -> bool {
    exists|k: int| 0 <= k < cs.len() && #[trigger] cs[k].id@ == id
}

/// Index of the first correction of `cs` with identifier `id`.
pub open spec fn first_with_id(cs: Seq<Correction>, id: Seq<char>) -> int
    decreases cs.len(),
{
    if cs.len() == 0 {
        0
    } else if cs[0].id@ == id {
        0
    } else {
        1 + first_with_id(cs.drop_first(), id)
    }
}

proof fn lemma_first_with_id(cs: Seq<Correction>, id: Seq<char>, k: int)
    requires
        0 <= k <= cs.len(),
        forall|j: int| 0 <= j < k ==> cs[j].id@ != id,
        k < cs.len() ==> cs[k].id@ == id,
    ensures
        first_with_id(cs, id) == k,
    decreases cs.len(),
{
    if cs.len() > 0 && k > 0 {
        let d = cs.drop_first();
        assert forall|j: int| 0 <= j < k - 1 implies d[j].id@ != id by {
            assert(d[j] == cs[j + 1]);
        }
        lemma_first_with_id(d, id, k - 1);
    }
}

/// `c` with the given fields replaced.
pub open spec fn edited(
    c: Correction,
    corrected: Option<String>,
    mode: Option<CorrectionMode>,
    match_type: Option<MatchType>,
) -> Correction {
    Correction {
        corrected: match corrected {
            Some(x) => x,
            None => c.corrected,
        },
        mode: match mode {
            Some(m) => m,
            None => c.mode,
        },
        match_type: match match_type {
            Some(t) => t,
            None => c.match_type,
        },
        ..c
    }
}

impl Correction {
    /// A newly learned correction: the original is stored lowercase, the
    /// case mode is `PreserveInput` and it has not been used yet.
    pub fn learned(
        id: String,
        original: &str,
        corrected: String,
        mode: CorrectionMode,
        match_type: MatchType,
        learned_at: String,
    ) -> (r: Correction)
        ensures
            r.id == id,
            r.original@ == text::lower_str(original@),
            r.corrected == corrected,
            r.mode == mode,
            r.match_type == match_type,
            r.case_mode == CaseMode::PreserveInput,
            r.learned_at == learned_at,
            r.use_count == 0,
    {
        Correction {
            id,
            original: text::to_lowercase(original),
            corrected,
            mode,
            match_type,
            case_mode: CaseMode::PreserveInput,
            learned_at,
            use_count: 0,
        }
    }
}

impl CorrectionsFile {
    /// An empty list.
    pub fn new() -> (r: Self)
        ensures
            r.corrections@ == Seq::<Correction>::empty(),
    {
        CorrectionsFile { corrections: Vec::new() }
    }

    /// Adds `correction`, replacing every correction with the same lowercase
    /// original and mode; returns a copy of it.
    pub fn learn(&mut self, correction: Correction) -> (r: Correction)
        ensures
            final(self).corrections@ == without_pattern(old(self).corrections@, correction).push(
                correction,
            ),
            r == correction,
    {
        let ghost cs = self.corrections@;
        let key = text::chars_of(correction.original.as_str());
        let key_lower = text::lowercase_chars(key.as_slice());
        let mut kept: Vec<Correction> = Vec::new();
        let mut old_list: Vec<Correction> = Vec::new();
        std::mem::swap(&mut old_list, &mut self.corrections);
        for c in it: old_list
            invariant
                it.seq() == cs,
                key_lower@ == text::lower_str(correction.original@),
                kept@ == without_pattern(cs.take(it.index() as int), correction),
        {
            let ghost idx = it.index() as int;
            proof {
                assert(cs.take(idx + 1).drop_last() =~= cs.take(idx));
                assert(cs.take(idx + 1).last() == c);
            }
            let oc = text::chars_of(c.original.as_str());
            let ol = text::lowercase_chars(oc.as_slice());
            if !(text::chars_eq(ol.as_slice(), key_lower.as_slice()) && c.mode == correction.mode) {
                kept.push(c);
            }
        }
        proof {
            assert(cs.take(cs.len() as int) =~= cs);
        }
        let copy = correction.duplicate();
        kept.push(correction);
        self.corrections = kept;
        copy
    }

    /// Removes the corrections with identifier `id`; fails with `NotFound`
    /// (and changes nothing) when there is none.
    pub fn delete(&mut self, id: &str) -> (r: Result<(), CorrectionError>)
        ensures
            r is Err <==> !has_id(old(self).corrections@, id@),
            r is Ok ==> final(self).corrections@ == without_id(old(self).corrections@, id@),
            r is Err ==> final(self).corrections@ == old(self).corrections@,
            r is Err ==> r == Err::<(), CorrectionError>(CorrectionError::NotFound),
    {
        let ghost cs = self.corrections@;
        let target = text::chars_of(id);
        let mut found = false;
        let mut k: usize = 0;
        while k < self.corrections.len()
            invariant
                self.corrections@ == cs,
                target@ == id@,
                k <= cs.len(),
                found == exists|j: int| 0 <= j < k && #[trigger] cs[j].id@ == id@,
            decreases cs.len() - k,
        {
            let here = text::chars_of(self.corrections[k].id.as_str());
            if text::chars_eq(here.as_slice(), target.as_slice()) {
                found = true;
            }
            k = k + 1;
        }
        if !found {
            return Err(CorrectionError::NotFound);
        }
        let mut kept: Vec<Correction> = Vec::new();
        let mut old_list: Vec<Correction> = Vec::new();
        std::mem::swap(&mut old_list, &mut self.corrections);
        for c in it: old_list
            invariant
                it.seq() == cs,
                target@ == id@,
                kept@ == without_id(cs.take(it.index() as int), id@),
        {
            let ghost idx = it.index() as int;
            proof {
                assert(cs.take(idx + 1).drop_last() =~= cs.take(idx));
                assert(cs.take(idx + 1).last() == c);
            }
            let here = text::chars_of(c.id.as_str());
            if !text::chars_eq(here.as_slice(), target.as_slice()) {
                kept.push(c);
            }
        }
        proof {
            assert(cs.take(cs.len() as int) =~= cs);
        }
        self.corrections = kept;
        Ok(())
    }

    /// Changes the given fields of the first correction with identifier
    /// `id` and returns a copy of it; fails with `NotFound` (and changes
    /// nothing) when there is none.
    pub fn update(
        &mut self,
        id: &str,
        corrected: Option<String>,
        mode: Option<CorrectionMode>,
        match_type: Option<MatchType>,
    ) -> (r: Result<Correction, CorrectionError>)
        ensures
            r is Err <==> !has_id(old(self).corrections@, id@),
            r is Err ==> final(self).corrections@ == old(self).corrections@,
            r is Err ==> r == Err::<Correction, CorrectionError>(CorrectionError::NotFound),
            r matches Ok(c) ==> {
                let k = first_with_id(old(self).corrections@, id@);
                &&& c == edited(old(self).corrections@[k], corrected, mode, match_type)
                &&& final(self).corrections@ == old(self).corrections@.update(k, c)
            },
    {
        let ghost cs = self.corrections@;
        let target = text::chars_of(id);
        let mut k: usize = 0;
        loop
            invariant
                self.corrections@ == cs,
                target@ == id@,
                k <= cs.len(),
                forall|j: int| 0 <= j < k ==> #[trigger] cs[j].id@ != id@,
            ensures
                k <= cs.len(),
                forall|j: int| 0 <= j < k ==> #[trigger] cs[j].id@ != id@,
                k < cs.len() ==> cs[k as int].id@ == id@,
            decreases cs.len() - k,
        {
            if k == self.corrections.len() {
                break;
            }
            let here = text::chars_of(self.corrections[k].id.as_str());
            if text::chars_eq(here.as_slice(), target.as_slice()) {
                break;
            }
            k = k + 1;
        }
        if k == self.corrections.len() {
            assert(!has_id(cs, id@));
            return Err(CorrectionError::NotFound);
        }
        proof {
            lemma_first_with_id(cs, id@, k as int);
        }
        let mut c = self.corrections.remove(k);
        if let Some(x) = corrected {
            c.corrected = x;
        }
        if let Some(m) = mode {
            c.mode = m;
        }
        if let Some(t) = match_type {
            c.match_type = t;
        }
        let copy = c.duplicate();
        self.corrections.insert(k, c);
        assert(self.corrections@ =~= cs.update(k as int, copy));
        Ok(copy)
    }

    /// Adds to each correction's use count the number of times the engine
    /// matched it since the last flush.
    pub fn add_usage(&mut self, engine: &CorrectionEngine)
        requires
            forall|k: int|
                0 <= k < old(self).corrections@.len() ==> #[trigger] old(self).corrections@[k].use_count
                    + occurrences(engine.usage(), old(self).corrections@[k].id@) <= u64::MAX,
        ensures
            final(self).corrections@.len() == old(self).corrections@.len(),
            forall|k: int|
                0 <= k < old(self).corrections@.len() ==> #[trigger] final(self).corrections@[k]
                    == (Correction {
                    use_count: (old(self).corrections@[k].use_count + occurrences(
                        engine.usage(),
                        old(self).corrections@[k].id@,
                    )) as u64,
                    ..old(self).corrections@[k]
                }),
    {
        let ghost cs = self.corrections@;
        let mut k: usize = 0;
        while k < self.corrections.len()
            invariant
                self.corrections@.len() == cs.len(),
                k <= cs.len(),
                forall|j: int|
                    0 <= j < cs.len() ==> #[trigger] cs[j].use_count + occurrences(
                        engine.usage(),
                        cs[j].id@,
                    ) <= u64::MAX,
                forall|j: int| k <= j < cs.len() ==> #[trigger] self.corrections@[j] == cs[j],
                forall|j: int|
                    0 <= j < k ==> #[trigger] self.corrections@[j] == (Correction {
                        use_count: (cs[j].use_count + occurrences(engine.usage(), cs[j].id@)) as u64,
                        ..cs[j]
                    }),
            decreases cs.len() - k,
        {
            let n = engine.usage_count(self.corrections[k].id.as_str());
            let mut c = self.corrections.remove(k);
            c.use_count = c.use_count + n;
            self.corrections.insert(k, c);
            k = k + 1;
        }
    }
}


proof fn lemma_without_pattern_excludes(cs: Seq<Correction>, d: Correction)
    ensures
        forall|k: int|
            0 <= k < without_pattern(cs, d).len() ==> !same_pattern(
                #[trigger] without_pattern(cs, d)[k],
                d,
            ),
        forall|k: int|
            0 <= k < without_pattern(cs, d).len() ==> cs.contains(
                #[trigger] without_pattern(cs, d)[k],
            ),
    decreases cs.len(),
{
    if cs.len() > 0 {
        lemma_without_pattern_excludes(cs.drop_last(), d);
        let prev = without_pattern(cs.drop_last(), d);
        assert forall|k: int| 0 <= k < prev.len() implies cs.contains(#[trigger] prev[k]) by {
            let j = choose|j: int| 0 <= j < cs.drop_last().len() && cs.drop_last()[j] == prev[k];
            assert(cs[j] == prev[k]);
        }
        if !same_pattern(cs.last(), d) {
            assert(cs[cs.len() - 1] == cs.last());
        }
    }
}

proof fn lemma_without_id_excludes(cs: Seq<Correction>, id: Seq<char>)
    ensures
        !has_id(without_id(cs, id), id),
    decreases cs.len(),
{
    if cs.len() > 0 {
        lemma_without_id_excludes(cs.drop_last(), id);
        let prev = without_id(cs.drop_last(), id);
        if cs.last().id@ != id {
            let w = prev.push(cs.last());
            assert forall|k: int| 0 <= k < w.len() implies #[trigger] w[k].id@ != id by {
                if k < prev.len() {
                    assert(w[k] == prev[k]);
                }
            }
        }
    }
}

/// Learning a correction makes it the only one of its pattern (lowercase
/// original and mode): it comes last, every correction kept before it has
/// another pattern and was in the list already.
pub proof fn lemma_learn_replaces_pattern(cs: Seq<Correction>, c: Correction)
    ensures
        ({
            let learned = without_pattern(cs, c).push(c);
            &&& learned.last() == c
            &&& forall|k: int|
                0 <= k < learned.len() - 1 ==> !same_pattern(#[trigger] learned[k], c)
                    && cs.contains(learned[k])
        }),
{
    lemma_without_pattern_excludes(cs, c);
    let w = without_pattern(cs, c);
    let learned = w.push(c);
    assert forall|k: int| 0 <= k < learned.len() - 1 implies !same_pattern(
        #[trigger] learned[k],
        c,
    ) && cs.contains(learned[k]) by {
        assert(learned[k] == w[k]);
    }
}

/// A learned correction can be deleted by its identifier, and afterwards no
/// correction has that identifier.
pub proof fn lemma_learn_then_delete(cs: Seq<Correction>, c: Correction)
    ensures
        has_id(without_pattern(cs, c).push(c), c.id@),
        !has_id(without_id(without_pattern(cs, c).push(c), c.id@), c.id@),
{
    let learned = without_pattern(cs, c).push(c);
    assert(learned[learned.len() - 1].id@ == c.id@);
    lemma_without_id_excludes(learned, c.id@);
}

proof fn lemma_empty_run_from(
    engine: CorrectionEngine,
    words: Seq<Seq<char>>,
    lower: Seq<Seq<char>>,
    mode: Seq<char>,
    i: int,
)
    requires
        engine.exact_phrases().len() == 0,
        engine.exact_words().len() == 0,
        engine.phonetic_phrases().len() == 0,
        engine.phonetic_words().len() == 0,
        0 <= i <= words.len(),
    ensures
        engine.run_from(words, lower, mode, i) == (words.skip(i), Seq::<Seq<char>>::empty()),
    decreases words.len() - i,
{
    if i < words.len() {
        assert(engine.step(lower, mode, i) is None);
        lemma_empty_run_from(engine, words, lower, mode, i + 1);
        assert(seq![words[i]] + words.skip(i + 1) =~= words.skip(i));
    } else {
        assert(words.skip(i) =~= Seq::<Seq<char>>::empty());
    }
}

/// An engine without corrections changes no word and records no usage:
/// applying it only normalizes the whitespace between words.
pub proof fn lemma_empty_engine_changes_nothing(
    engine: CorrectionEngine,
    text: Seq<char>,
    mode: Seq<char>,
)
    requires
        engine.exact_phrases().len() == 0,
        engine.exact_words().len() == 0,
        engine.phonetic_phrases().len() == 0,
        engine.phonetic_words().len() == 0,
    ensures
        engine.run(text, mode) == (text::words(text), Seq::<Seq<char>>::empty()),
{
    let ws = text::words(text);
    lemma_empty_run_from(engine, ws, ws.map_values(|w: Seq<char>| text::lower_str(w)), mode, 0);
    assert(ws.skip(0) =~= ws);
}

} // verus!
