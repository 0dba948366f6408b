//! Secretary-mode capitalization rules and the clean-up of the 0.6B model's
//! built-in punctuation.
use vstd::prelude::*;

use crate::text;

verus! {

// ---------------------------------------------------------------------------
// Automatic capitalization
// ---------------------------------------------------------------------------

/// State of the capitalization scan: the text written so far, whether the
/// next letter starts a sentence, and whether a quotation is open.
pub struct CapState {
    pub result: Seq<char>,
    pub capitalize_next: bool,
    pub in_quote: bool,
}

/// The first whitespace-separated word of `s`, or nothing.
pub open spec fn first_word(s: Seq<char>) -> Seq<char> {
    if text::words(s).len() > 0 {
        text::words(s)[0]
    } else {
        seq![]
    }
}

/// `w` is one of the titles after which a name follows.
pub open spec fn is_title(w: Seq<char>) -> bool {
    w == "mr."@ || w == "mrs."@ || w == "ms."@ || w == "dr."@
}

/// `r` ends with a capitalized title.
pub open spec fn ends_with_title(r: Seq<char>) -> bool {
    text::ends_with(r, "Mr."@) || text::ends_with(r, "Mrs."@) || text::ends_with(r, "Dr."@)
        || text::ends_with(r, "Ms."@)
}

/// The character written for the letter `s[i]` when the sentence start does
/// not apply: `I` for a standalone `i`, the uppercase letter for the first
/// letter of a title, otherwise the letter itself.
pub open spec fn plain_letter(s: Seq<char>, i: int, written: Seq<char>) -> char {
    let ch = s[i];
    if ch == 'i' {
        let standalone = i + 1 >= s.len() || !text::alphabetic(s[i + 1]);
        let boundary = written.len() == 0 || !text::alphabetic(written.last());
        if standalone && boundary {
            'I'
        } else {
            ch
        }
    } else {
        let word_start = written.len() == 0 || text::is_ws(written.last());
        if word_start && (ch == 'm' || ch == 'd') && is_title(
            seq![ch] + first_word(s.skip(i + 1)),
        ) {
            text::upper_first(ch)
        } else {
            ch
        }
    }
}

/// One step of the scan, on the character `s[i]`.
pub open spec fn cap_step(s: Seq<char>, i: int, st: CapState) -> CapState {
    let ch = s[i];
    if ch == '"' {
        let q = !st.in_quote;
        CapState {
            result: st.result.push(ch),
            capitalize_next: if q {
                true
            } else {
                st.capitalize_next
            },
            in_quote: q,
        }
    } else if text::is_ws(ch) || !text::alphabetic(ch) && !(ch == '.' || ch == '!' || ch == '?') {
        CapState { result: st.result.push(ch), ..st }
    } else if ch == '.' || ch == '!' || ch == '?' {
        CapState { result: st.result.push(ch), capitalize_next: true, ..st }
    } else {
        let out = if st.capitalize_next {
            text::upper_first(ch)
        } else {
            plain_letter(s, i, st.result)
        };
        let res = st.result.push(out);
        CapState { result: res, capitalize_next: ends_with_title(res), in_quote: st.in_quote }
    }
}

/// The scan over the first `n` characters of `s`.
pub open spec fn cap_scan(s: Seq<char>, n: int) -> CapState
    decreases n,
{
    if n <= 0 {
        CapState { result: seq![], capitalize_next: true, in_quote: false }
    } else {
        cap_step(s, n - 1, cap_scan(s, n - 1))
    }
}

/// `s` with the automatic capitalization rules applied: the first letter and
/// the first letter after `.`, `!`, `?` or an opening quote are uppercased,
/// a standalone `i` becomes `I`, and the titles Mr., Mrs., Ms. and Dr. are
/// capitalized.
pub open spec fn capitalized(s: Seq<char>) -> Seq<char> {
    cap_scan(s, s.len() as int).result
}

fn first_word_after(s: &[char], from: usize) -> (r: Vec<char>)
    requires
        from <= s@.len(),
    ensures
        r@ == first_word(s@.skip(from as int)),
{
    let mut tail: Vec<char> = Vec::new();
    let mut k: usize = from;
    while k < s.len()
        invariant
            from <= k <= s@.len(),
            tail@ == s@.subrange(from as int, k as int),
        decreases s@.len() - k,
    {
        tail.push(s[k]);
        assert(s@.subrange(from as int, k + 1) =~= s@.subrange(from as int, k as int).push(
            s@[k as int],
        ));
        k = k + 1;
    }
    assert(s@.subrange(from as int, s@.len() as int) =~= s@.skip(from as int));
    let ws = text::split_whitespace(tail.as_slice());
    if ws.len() > 0 {
        assert(text::seqs_of(ws@)[0] == ws@[0]@);
        text::copy_chars(ws[0].as_slice())
    } else {
        Vec::new()
    }
}

fn is_title_chars(w: &[char]) -> (r: bool)
    ensures
        r == is_title(w@),
{
    let mr = text::chars_of("mr.");
    let mrs = text::chars_of("mrs.");
    let ms = text::chars_of("ms.");
    let dr = text::chars_of("dr.");
    text::chars_eq(w, mr.as_slice()) || text::chars_eq(w, mrs.as_slice()) || text::chars_eq(
        w,
        ms.as_slice(),
    ) || text::chars_eq(w, dr.as_slice())
}

fn ends_with_title_chars(r: &[char]) -> (b: bool)
    ensures
        b == ends_with_title(r@),
{
    let mr = text::chars_of("Mr.");
    let mrs = text::chars_of("Mrs.");
    let dr = text::chars_of("Dr.");
    let ms = text::chars_of("Ms.");
    text::has_suffix(r, mr.as_slice()) || text::has_suffix(r, mrs.as_slice())
        || text::has_suffix(r, dr.as_slice()) || text::has_suffix(r, ms.as_slice())
}

/// Applies the automatic capitalization rules to `text`.
pub fn apply_capitalization(text: &str) -> (r: String)
    ensures
        r@ == capitalized(text@),
{
    let s = text::chars_of(text);
    let mut out: Vec<char> = Vec::new();
    let mut capitalize_next = true;
    let mut in_quote = false;
    let mut i: usize = 0;
    while i < s.len()
        invariant
            i <= s@.len(),
            cap_scan(s@, i as int) == (CapState {
                result: out@,
                capitalize_next,
                in_quote,
            }),
        decreases s@.len() - i,
    {
        let ch = s[i];
        if ch == '"' {
            in_quote = !in_quote;
            out.push(ch);
            if in_quote {
                capitalize_next = true;
            }
        } else if text::is_whitespace(ch) {
            out.push(ch);
        } else if ch == '.' || ch == '!' || ch == '?' {
            out.push(ch);
            capitalize_next = true;
        } else if !text::is_alphabetic(ch) {
            out.push(ch);
        } else {
            let c: char = if capitalize_next {
                let up = text::to_uppercase_char(ch);
                up[0]
            } else if ch == 'i' {
                let standalone = i + 1 >= s.len() || !text::is_alphabetic(s[i + 1]);
                let boundary = out.len() == 0 || !text::is_alphabetic(out[out.len() - 1]);
                if standalone && boundary {
                    'I'
                } else {
                    ch
                }
            } else {
                let word_start = out.len() == 0 || text::is_whitespace(out[out.len() - 1]);
                if word_start && (ch == 'm' || ch == 'd') {
                    let rest = first_word_after(s.as_slice(), i + 1);
                    let mut candidate: Vec<char> = Vec::new();
                    candidate.push(ch);
                    text::extend_chars(&mut candidate, rest.as_slice());
                    assert(candidate@ =~= seq![ch] + rest@);
                    if is_title_chars(candidate.as_slice()) {
                        let up = text::to_uppercase_char(ch);
                        up[0]
                    } else {
                        ch
                    }
                } else {
                    ch
                }
            };
            out.push(c);
            capitalize_next = ends_with_title_chars(out.as_slice());
        }
        i = i + 1;
    }
    text::string_of(out.as_slice())
}

/// Each character of `s` gives exactly one character of the result.
pub proof fn lemma_capitalized_len(s: Seq<char>)
    ensures
        capitalized(s).len() == s.len(),
{
    lemma_cap_scan_shape(s, s.len() as int);
}

/// Characters that are not letters come through capitalization unchanged,
/// and each letter becomes itself, the first character of its uppercase
/// mapping, or `I`.
pub proof fn lemma_capitalized_chars(s: Seq<char>, k: int)
    requires
        0 <= k < s.len(),
    ensures
        !text::alphabetic(s[k]) ==> capitalized(s)[k] == s[k],
        capitalized(s)[k] == s[k] || capitalized(s)[k] == text::upper_first(s[k])
            || capitalized(s)[k] == 'I',
{
    lemma_cap_scan_shape(s, s.len() as int);
}

/// A character that the capitalization scan treats as a letter: alphabetic,
/// and not a space, a quote or sentence-ending punctuation.
pub open spec fn scan_letter(c: char) -> bool {
    text::alphabetic(c) && !text::is_ws(c) && c != '"' && c != '.' && c != '!' && c != '?'
}

proof fn lemma_cap_scan_prefix(s: Seq<char>, m: int, n: int)
    requires
        0 <= m <= n <= s.len(),
    ensures
        cap_scan(s, n).result.len() == n,
        forall|k: int| 0 <= k < m ==> #[trigger] cap_scan(s, n).result[k] == cap_scan(s, m).result[k],
    decreases n - m,
{
    lemma_cap_scan_shape(s, n);
    lemma_cap_scan_shape(s, m);
    if m < n {
        lemma_cap_scan_prefix(s, m, n - 1);
        lemma_cap_scan_shape(s, n - 1);
        assert forall|k: int| 0 <= k < m implies #[trigger] cap_scan(s, n).result[k] == cap_scan(s, m).result[k] by {
            assert(cap_scan(s, n).result[k] == cap_scan(s, n - 1).result[k]);
        }
    }
}

proof fn lemma_sentence_start_pending(s: Seq<char>, i: int, n: int)
    requires
        0 <= i < n <= s.len(),
        s[i] == '.' || s[i] == '!' || s[i] == '?',
        forall|k: int| i < k < n ==> !scan_letter(#[trigger] s[k]),
    ensures
        cap_scan(s, n).capitalize_next,
    decreases n - i,
{
    if n - 1 > i {
        lemma_sentence_start_pending(s, i, n - 1);
        assert(!scan_letter(s[n - 1]));
    } else {
        assert(!text::is_ws(s[i]));
    }
}

/// After a sentence ends with `.`, `!` or `?`, the next letter is
/// capitalized, whatever spaces, quotes, digits or other punctuation stand
/// in between: it becomes the first character of its uppercase mapping.
pub proof fn lemma_sentence_start_capitalized(s: Seq<char>, i: int, j: int)
    requires
        0 <= i < j < s.len(),
        s[i] == '.' || s[i] == '!' || s[i] == '?',
        forall|k: int| i < k < j ==> !scan_letter(#[trigger] s[k]),
        scan_letter(s[j]),
    ensures
        capitalized(s)[j] == text::upper_first(s[j]),
{
    lemma_sentence_start_pending(s, i, j);
    lemma_cap_scan_shape(s, j);
    lemma_cap_scan_prefix(s, j + 1, s.len() as int);
    assert(cap_scan(s, j + 1).result[j] == text::upper_first(s[j]));
}

/// The first letter of the text is capitalized, whatever spaces, quotes,
/// digits or punctuation come before it.
pub proof fn lemma_first_letter_capitalized(s: Seq<char>, j: int)
    requires
        0 <= j < s.len(),
        forall|k: int| 0 <= k < j ==> !scan_letter(#[trigger] s[k]),
        scan_letter(s[j]),
    ensures
        capitalized(s)[j] == text::upper_first(s[j]),
{
    assert forall|n: int| 0 <= n <= j implies #[trigger] cap_scan(s, n).capitalize_next by {
        lemma_first_pending(s, n);
    }
    lemma_cap_scan_shape(s, j);
    lemma_cap_scan_prefix(s, j + 1, s.len() as int);
    assert(cap_scan(s, j).capitalize_next);
    assert(cap_scan(s, j + 1).result[j] == text::upper_first(s[j]));
}

proof fn lemma_first_pending(s: Seq<char>, n: int)
    requires
        0 <= n <= s.len(),
        forall|k: int| 0 <= k < n ==> !scan_letter(#[trigger] s[k]),
    ensures
        cap_scan(s, n).capitalize_next,
    decreases n,
{
    if n > 0 {
        lemma_first_pending(s, n - 1);
        assert(!scan_letter(s[n - 1]));
    }
}

proof fn lemma_cap_scan_shape(s: Seq<char>, n: int)
    requires
        0 <= n <= s.len(),
    ensures
        cap_scan(s, n).result.len() == n,
        forall|k: int|
            0 <= k < n ==> {
                let c = #[trigger] cap_scan(s, n).result[k];
                &&& !text::alphabetic(s[k]) ==> c == s[k]
                &&& c == s[k] || c == text::upper_first(s[k]) || c == 'I'
            },
    decreases n,
{
    if n > 0 {
        lemma_cap_scan_shape(s, n - 1);
        let prev = cap_scan(s, n - 1);
        let cur = cap_scan(s, n);
        assert forall|k: int| 0 <= k < n - 1 implies cur.result[k] == prev.result[k] by {}
    }
}

// ---------------------------------------------------------------------------
// Spoken capital commands
// ---------------------------------------------------------------------------

/// A spoken letter: one character of one UTF-8 byte that is alphabetic.
pub open spec fn is_letter_word(w: Seq<char>) -> bool {
    text::utf8_len(w) == 1 && text::alphabetic(w[0])
}

/// `w` with its first character replaced by the first character of its
/// uppercase mapping.
pub open spec fn capitalize_first(w: Seq<char>) -> Seq<char> {
    if w.len() == 0 {
        seq![]
    } else {
        seq![text::upper_first(w[0])] + w.drop_first()
    }
}

/// The output tokens for the words from index `i` on: "capital X word"
/// gives the word with a capital first letter, "all caps word" gives the
/// word in uppercase, any other word is kept.
pub open spec fn capital_tokens(w: Seq<Seq<char>>, i: int) -> Seq<Seq<char>>
    decreases w.len() - i,
{
    if i < 0 || i >= w.len() {
        seq![]
    } else if i + 2 < w.len() && w[i] == "capital"@ && is_letter_word(w[i + 1]) {
        seq![capitalize_first(w[i + 2])] + capital_tokens(w, i + 3)
    } else if i + 1 < w.len() && w[i] == "all"@ && w[i + 1] == "caps"@ && i + 2 < w.len() {
        seq![text::upper_str(w[i + 2])] + capital_tokens(w, i + 3)
    } else {
        seq![w[i]] + capital_tokens(w, i + 1)
    }
}

/// `w` is a single ASCII letter.
pub open spec fn single_ascii_letter(w: Seq<char>) -> bool {
    w.len() == 1 && (w[0] as u32) < 0x80 && text::alphabetic(w[0])
}

proof fn lemma_letter_word_is_ascii_letter(w: Seq<char>)
    ensures
        is_letter_word(w) == single_ascii_letter(w),
{
    if w.len() > 1 {
        lemma_utf8_len_at_least(w);
    } else if w.len() == 1 {
        assert(w.drop_last() =~= Seq::<char>::empty());
        assert(w.last() == w[0]);
        assert(text::utf8_len(w.drop_last()) == 0);
        assert(text::utf8_len(w) == text::utf8_width(w[0]));
    } else {
        assert(text::utf8_len(w) == 0);
    }
}

proof fn lemma_plain_tokens(w: Seq<Seq<char>>, i: int)
    requires
        0 <= i <= w.len(),
        forall|j: int|
            0 <= j && j + 2 < w.len() && #[trigger] w[j] == "capital"@ ==> !single_ascii_letter(
                w[j + 1],
            ),
        forall|j: int|
            0 <= j && j + 2 < w.len() && #[trigger] w[j] == "all"@ ==> w[j + 1] != "caps"@,
    ensures
        capital_tokens(w, i) == w.subrange(i, w.len() as int),
    decreases w.len() - i,
{
    if i < w.len() {
        lemma_plain_tokens(w, i + 1);
        if i + 2 < w.len() && w[i] == "capital"@ {
            lemma_letter_word_is_ascii_letter(w[i + 1]);
        }
        assert(w.subrange(i, w.len() as int) =~= seq![w[i]] + w.subrange(i + 1, w.len() as int));
    } else {
        assert(w.subrange(i, w.len() as int) =~= Seq::<Seq<char>>::empty());
    }
}

/// "capital X word", with X a single ASCII letter, gives the word with its
/// first character uppercased and the rest kept, and scanning goes on after
/// the word; "all caps word" gives the word in uppercase.
pub proof fn lemma_commands_fire(w: Seq<Seq<char>>, i: int)
    requires
        0 <= i,
        i + 2 < w.len(),
    ensures
        w[i] == "capital"@ && single_ascii_letter(w[i + 1]) && w[i + 2].len() > 0 ==> {
            let t = capital_tokens(w, i);
            &&& t[0].len() == w[i + 2].len()
            &&& t[0][0] == text::upper_first(w[i + 2][0])
            &&& t[0].drop_first() == w[i + 2].drop_first()
            &&& t.drop_first() == capital_tokens(w, i + 3)
        },
        w[i] == "all"@ && w[i + 1] == "caps"@ ==> {
            let t = capital_tokens(w, i);
            &&& t[0] == text::upper_str(w[i + 2])
            &&& t.drop_first() == capital_tokens(w, i + 3)
        },
{
    reveal_strlit("capital");
    reveal_strlit("all");
    lemma_letter_word_is_ascii_letter(w[i + 1]);
    let t = capital_tokens(w, i);
    if w[i] == "capital"@ && single_ascii_letter(w[i + 1]) && w[i + 2].len() > 0 {
        assert(t == seq![capitalize_first(w[i + 2])] + capital_tokens(w, i + 3));
        assert(t.drop_first() =~= capital_tokens(w, i + 3));
        assert(capitalize_first(w[i + 2]).drop_first() =~= w[i + 2].drop_first());
    }
    if w[i] == "all"@ && w[i + 1] == "caps"@ {
        assert("all"@ != "capital"@) by {
            assert("all"@.len() != "capital"@.len());
        }
        assert(t.drop_first() =~= capital_tokens(w, i + 3));
    }
}

/// A spoken "capital" only acts when the next word is a single ASCII letter
/// (and a word follows it), and "all caps" only before a word: a text with
/// neither comes out as its words joined by single spaces.
pub proof fn lemma_no_commands_keeps_words(s: Seq<char>)
    requires
        forall|j: int|
            0 <= j && j + 2 < text::words(s).len() && #[trigger] text::words(s)[j] == "capital"@
                ==> !single_ascii_letter(text::words(s)[j + 1]),
        forall|j: int|
            0 <= j && j + 2 < text::words(s).len() && #[trigger] text::words(s)[j] == "all"@
                ==> text::words(s)[j + 1] != "caps"@,
    ensures
        text::spaced(capital_tokens(text::words(s), 0)) == text::spaced(text::words(s)),
{
    let w = text::words(s);
    lemma_plain_tokens(w, 0);
    assert(w.subrange(0, w.len() as int) =~= w);
}

fn is_letter_word_chars(w: &[char]) -> (r: bool)
    ensures
        r == is_letter_word(w@),
{
    if w.len() != 1 {
        proof {
            if w@.len() > 1 {
                lemma_utf8_len_at_least(w@);
            } else {
                assert(w@.len() == 0);
            }
        }
        return false;
    }
    proof {
        assert(w@.drop_last() =~= Seq::<char>::empty());
        assert(w@.last() == w@[0]);
        assert(text::utf8_len(w@) == text::utf8_len(w@.drop_last()) + text::utf8_width(w@.last()));
    }
    let u: u32 = w[0] as u32;
    u < 0x80 && text::is_alphabetic(w[0])
}

proof fn lemma_utf8_len_at_least(s: Seq<char>)
    ensures
        text::utf8_len(s) >= s.len(),
    decreases s.len(),
{
    if s.len() > 0 {
        lemma_utf8_len_at_least(s.drop_last());
    }
}

/// Processes explicit capital commands like "capital r robert" ("Robert") and
/// "all caps fbi" ("FBI"); words are separated by single spaces.
pub fn process_capital_commands(text: &str) -> (r: String)
    ensures
        r@ == text::spaced(capital_tokens(text::words(text@), 0)),
{
    let s = text::chars_of(text);
    let words = text::split_whitespace(s.as_slice());
    let ghost w = text::seqs_of(words@);
    let ghost full = capital_tokens(w, 0);
    let capital = text::chars_of("capital");
    let all = text::chars_of("all");
    let caps = text::chars_of("caps");
    let mut out: Vec<char> = Vec::new();
    let ghost mut toks: Seq<Seq<char>> = seq![];
    let mut i: usize = 0;
    assert(toks + full =~= full);
    while i < words.len()
        invariant
            i <= words@.len(),
            w == text::seqs_of(words@),
            full == capital_tokens(w, 0),
            capital@ == "capital"@,
            all@ == "all"@,
            caps@ == "caps"@,
            toks + capital_tokens(w, i as int) == full,
            out@ == text::spaced(toks),
        decreases words@.len() - i,
    {
        let n = words.len();
        if n - i > 2 && text::chars_eq(words[i].as_slice(), capital.as_slice())
            && is_letter_word_chars(words[i + 1].as_slice()) {
            let word = &words[i + 2];
            let mut tok: Vec<char> = Vec::new();
            if word.len() > 0 {
                let up = text::to_uppercase_char(word[0]);
                tok.push(up[0]);
                let mut k: usize = 1;
                while k < word.len()
                    invariant
                        1 <= k <= word@.len(),
                        tok@ == seq![text::upper_first(word@[0])] + word@.subrange(1, k as int),
                    decreases word@.len() - k,
                {
                    tok.push(word[k]);
                    assert(seq![text::upper_first(word@[0])] + word@.subrange(1, k + 1) =~= (seq![
                        text::upper_first(word@[0]),
                    ] + word@.subrange(1, k as int)).push(word@[k as int]));
                    k = k + 1;
                }
                assert(word@.subrange(1, word@.len() as int) =~= word@.drop_first());
            }
            let ghost rest = capital_tokens(w, i + 3);
            proof {
                assert(w[i + 2] == word@);
                assert(toks.push(tok@) + rest =~= toks + (seq![tok@] + rest));
                text::lemma_spaced_push(toks, tok@);
            }
            text::push_spaced(&mut out, tok.as_slice());
            proof {
                toks = toks.push(tok@);
            }
            i = i + 3;
        } else if i + 1 < n && text::chars_eq(words[i].as_slice(), all.as_slice())
            && text::chars_eq(words[i + 1].as_slice(), caps.as_slice()) && n - i > 2 {
            let tok = text::uppercase_chars(words[i + 2].as_slice());
            let ghost rest = capital_tokens(w, i + 3);
            proof {
                assert(toks.push(tok@) + rest =~= toks + (seq![tok@] + rest));
                text::lemma_spaced_push(toks, tok@);
            }
            text::push_spaced(&mut out, tok.as_slice());
            proof {
                toks = toks.push(tok@);
            }
            i = i + 3;
        } else {
            let ghost rest = capital_tokens(w, i + 1);
            proof {
                assert(toks.push(w[i as int]) + rest =~= toks + (seq![w[i as int]] + rest));
                text::lemma_spaced_push(toks, w[i as int]);
            }
            text::push_spaced(&mut out, words[i].as_slice());
            proof {
                toks = toks.push(w[i as int]);
            }
            i = i + 1;
        }
    }
    assert(toks =~= full);
    text::string_of(out.as_slice())
}

// ---------------------------------------------------------------------------
// 0.6B punctuation normalization
// ---------------------------------------------------------------------------

/// Spoken punctuation words replaced by numbered markers (multi-word forms
/// first).
pub open spec fn mark_words(s: Seq<char>) -> Seq<char> {
    text::replace_all(text::replace_all(text::replace_all(text::replace_all(text::replace_all(text::replace_all(text::replace_all(text::replace_all(text::replace_all(text::replace_all(text::replace_all(text::replace_all(s, "exclamation point"@, "⟪4⟫"@), "exclamation mark"@, "⟪4⟫"@), "question mark"@, "⟪3⟫"@), "full stop"@, "⟪2⟫"@), "semi colon"@, "⟪5⟫"@), "three dots"@, "⟪8⟫"@), "ellipsis"@, "⟪8⟫"@), "semicolon"@, "⟪5⟫"@), "period"@, "⟪2⟫"@), "comma"@, "⟪1⟫"@), "colon"@, "⟪6⟫"@), "dash"@, "⟪7⟫"@)
}

/// Punctuation symbols replaced by space-separated markers (longer
/// sequences first).
pub open spec fn mark_symbols(s: Seq<char>) -> Seq<char> {
    text::replace_all(text::replace_all(text::replace_all(text::replace_all(text::replace_all(text::replace_all(text::replace_all(text::replace_all(text::replace_all(s, "..."@, " ⟪8⟫ "@), "--"@, " ⟪7⟫ "@), ","@, " ⟪1⟫ "@), "."@, " ⟪2⟫ "@), "?"@, " ⟪3⟫ "@), "!"@, " ⟪4⟫ "@), ";"@, " ⟪5⟫ "@), ":"@, " ⟪6⟫ "@), "-"@, " ⟪7⟫ "@)
}

/// Markers replaced by their canonical punctuation words.
pub open spec fn unmark(s: Seq<char>) -> Seq<char> {
    text::replace_all(text::replace_all(text::replace_all(text::replace_all(text::replace_all(text::replace_all(text::replace_all(text::replace_all(s, "⟪1⟫"@, "comma"@), "⟪2⟫"@, "period"@), "⟪3⟫"@, "question mark"@), "⟪4⟫"@, "exclamation point"@), "⟪5⟫"@, "semicolon"@), "⟪6⟫"@, "colon"@), "⟪7⟫"@, "dash"@), "⟪8⟫"@, "ellipsis"@)
}

/// `t` is one of the eight punctuation markers.
pub open spec fn is_marker(t: Seq<char>) -> bool {
    t == "⟪1⟫"@ || t == "⟪2⟫"@ || t == "⟪3⟫"@ || t == "⟪4⟫"@ || t == "⟪5⟫"@ || t == "⟪6⟫"@ || t == "⟪7⟫"@ || t == "⟪8⟫"@
}

/// Whether token `i` of `tokens` is dropped, given the tokens kept before
/// it: a marker repeating the last kept token, a comma marker right before
/// another (non-comma) marker, or a period marker right after a question or
/// exclamation marker.
pub open spec fn dropped(tokens: Seq<Seq<char>>, i: int, kept: Seq<Seq<char>>) -> bool {
    let tok = tokens[i];
    ||| kept.len() > 0 && tok == kept.last() && is_marker(tok)
    ||| tok == "⟪1⟫"@ && i + 1 < tokens.len() && is_marker(tokens[i + 1]) && tokens[i + 1]
        != "⟪1⟫"@
    ||| tok == "⟪2⟫"@ && kept.len() > 0 && (kept.last() == "⟪4⟫"@ || kept.last() == "⟪3⟫"@)
}

/// The tokens among the first `n` of `tokens` that are kept.
pub open spec fn kept_tokens(tokens: Seq<Seq<char>>, n: int) -> Seq<Seq<char>>
    decreases n,
{
    if n <= 0 {
        seq![]
    } else {
        let prev = kept_tokens(tokens, n - 1);
        if dropped(tokens, n - 1, prev) {
            prev
        } else {
            prev.push(tokens[n - 1])
        }
    }
}

/// The 0.6B model's punctuation undone: the text lowercased, every spoken
/// and written punctuation turned into a marker, redundant markers dropped,
/// tokens joined with single spaces and markers written back as words.
pub open spec fn normalized_0_6b(lowered: Seq<char>) -> Seq<char> {
    let tokens = text::words(mark_symbols(mark_words(lowered)));
    unmark(text::join(kept_tokens(tokens, tokens.len() as int), seq![' ']))
}

fn mark_words_exec(s: Vec<char>) -> (r: Vec<char>)
    ensures
        r@ == mark_words(s@),
{
    let p0 = text::chars_of("exclamation point");
    let r0 = text::chars_of("⟪4⟫");
    let w0 = text::replace_chars(s.as_slice(), p0.as_slice(), r0.as_slice());
    let p1 = text::chars_of("exclamation mark");
    let r1 = text::chars_of("⟪4⟫");
    let w1 = text::replace_chars(w0.as_slice(), p1.as_slice(), r1.as_slice());
    let p2 = text::chars_of("question mark");
    let r2 = text::chars_of("⟪3⟫");
    let w2 = text::replace_chars(w1.as_slice(), p2.as_slice(), r2.as_slice());
    let p3 = text::chars_of("full stop");
    let r3 = text::chars_of("⟪2⟫");
    let w3 = text::replace_chars(w2.as_slice(), p3.as_slice(), r3.as_slice());
    let p4 = text::chars_of("semi colon");
    let r4 = text::chars_of("⟪5⟫");
    let w4 = text::replace_chars(w3.as_slice(), p4.as_slice(), r4.as_slice());
    let p5 = text::chars_of("three dots");
    let r5 = text::chars_of("⟪8⟫");
    let w5 = text::replace_chars(w4.as_slice(), p5.as_slice(), r5.as_slice());
    let p6 = text::chars_of("ellipsis");
    let r6 = text::chars_of("⟪8⟫");
    let w6 = text::replace_chars(w5.as_slice(), p6.as_slice(), r6.as_slice());
    let p7 = text::chars_of("semicolon");
    let r7 = text::chars_of("⟪5⟫");
    let w7 = text::replace_chars(w6.as_slice(), p7.as_slice(), r7.as_slice());
    let p8 = text::chars_of("period");
    let r8 = text::chars_of("⟪2⟫");
    let w8 = text::replace_chars(w7.as_slice(), p8.as_slice(), r8.as_slice());
    let p9 = text::chars_of("comma");
    let r9 = text::chars_of("⟪1⟫");
    let w9 = text::replace_chars(w8.as_slice(), p9.as_slice(), r9.as_slice());
    let p10 = text::chars_of("colon");
    let r10 = text::chars_of("⟪6⟫");
    let w10 = text::replace_chars(w9.as_slice(), p10.as_slice(), r10.as_slice());
    let p11 = text::chars_of("dash");
    let r11 = text::chars_of("⟪7⟫");
    let w11 = text::replace_chars(w10.as_slice(), p11.as_slice(), r11.as_slice());
    w11
}

fn mark_symbols_exec(s: Vec<char>) -> (r: Vec<char>)
    ensures
        r@ == mark_symbols(s@),
{
    let p0 = text::chars_of("...");
    let r0 = text::chars_of(" ⟪8⟫ ");
    let y0 = text::replace_chars(s.as_slice(), p0.as_slice(), r0.as_slice());
    let p1 = text::chars_of("--");
    let r1 = text::chars_of(" ⟪7⟫ ");
    let y1 = text::replace_chars(y0.as_slice(), p1.as_slice(), r1.as_slice());
    let p2 = text::chars_of(",");
    let r2 = text::chars_of(" ⟪1⟫ ");
    let y2 = text::replace_chars(y1.as_slice(), p2.as_slice(), r2.as_slice());
    let p3 = text::chars_of(".");
    let r3 = text::chars_of(" ⟪2⟫ ");
    let y3 = text::replace_chars(y2.as_slice(), p3.as_slice(), r3.as_slice());
    let p4 = text::chars_of("?");
    let r4 = text::chars_of(" ⟪3⟫ ");
    let y4 = text::replace_chars(y3.as_slice(), p4.as_slice(), r4.as_slice());
    let p5 = text::chars_of("!");
    let r5 = text::chars_of(" ⟪4⟫ ");
    let y5 = text::replace_chars(y4.as_slice(), p5.as_slice(), r5.as_slice());
    let p6 = text::chars_of(";");
    let r6 = text::chars_of(" ⟪5⟫ ");
    let y6 = text::replace_chars(y5.as_slice(), p6.as_slice(), r6.as_slice());
    let p7 = text::chars_of(":");
    let r7 = text::chars_of(" ⟪6⟫ ");
    let y7 = text::replace_chars(y6.as_slice(), p7.as_slice(), r7.as_slice());
    let p8 = text::chars_of("-");
    let r8 = text::chars_of(" ⟪7⟫ ");
    let y8 = text::replace_chars(y7.as_slice(), p8.as_slice(), r8.as_slice());
    y8
}

fn unmark_exec(s: Vec<char>) -> (r: Vec<char>)
    ensures
        r@ == unmark(s@),
{
    let p0 = text::chars_of("⟪1⟫");
    let r0 = text::chars_of("comma");
    let b0 = text::replace_chars(s.as_slice(), p0.as_slice(), r0.as_slice());
    let p1 = text::chars_of("⟪2⟫");
    let r1 = text::chars_of("period");
    let b1 = text::replace_chars(b0.as_slice(), p1.as_slice(), r1.as_slice());
    let p2 = text::chars_of("⟪3⟫");
    let r2 = text::chars_of("question mark");
    let b2 = text::replace_chars(b1.as_slice(), p2.as_slice(), r2.as_slice());
    let p3 = text::chars_of("⟪4⟫");
    let r3 = text::chars_of("exclamation point");
    let b3 = text::replace_chars(b2.as_slice(), p3.as_slice(), r3.as_slice());
    let p4 = text::chars_of("⟪5⟫");
    let r4 = text::chars_of("semicolon");
    let b4 = text::replace_chars(b3.as_slice(), p4.as_slice(), r4.as_slice());
    let p5 = text::chars_of("⟪6⟫");
    let r5 = text::chars_of("colon");
    let b5 = text::replace_chars(b4.as_slice(), p5.as_slice(), r5.as_slice());
    let p6 = text::chars_of("⟪7⟫");
    let r6 = text::chars_of("dash");
    let b6 = text::replace_chars(b5.as_slice(), p6.as_slice(), r6.as_slice());
    let p7 = text::chars_of("⟪8⟫");
    let r7 = text::chars_of("ellipsis");
    let b7 = text::replace_chars(b6.as_slice(), p7.as_slice(), r7.as_slice());
    b7
}

fn is_marker_chars(t: &[char]) -> (r: bool)
    ensures
        r == is_marker(t@),
{
    let m0 = text::chars_of("⟪1⟫");
    let m1 = text::chars_of("⟪2⟫");
    let m2 = text::chars_of("⟪3⟫");
    let m3 = text::chars_of("⟪4⟫");
    let m4 = text::chars_of("⟪5⟫");
    let m5 = text::chars_of("⟪6⟫");
    let m6 = text::chars_of("⟪7⟫");
    let m7 = text::chars_of("⟪8⟫");
    text::chars_eq(t, m0.as_slice()) || text::chars_eq(t, m1.as_slice()) || text::chars_eq(t, m2.as_slice()) || text::chars_eq(t, m3.as_slice()) || text::chars_eq(t, m4.as_slice()) || text::chars_eq(t, m5.as_slice()) || text::chars_eq(t, m6.as_slice()) || text::chars_eq(t, m7.as_slice())
}

/// Removes the 0.6B model's built-in inverse text normalization: lowercases
/// the text, converts punctuation symbols and spoken punctuation to words,
/// drops spurious and repeated punctuation, and normalizes whitespace.
pub fn normalize_0_6b_punctuation(text: &str) -> (r: String)
    ensures
        r@ == normalized_0_6b(text::lower_str(text@)),
{
    let lowered = text::to_lowercase(text);
    let s = text::chars_of(lowered.as_str());
    let marked = mark_symbols_exec(mark_words_exec(s));
    let tokens = text::split_whitespace(marked.as_slice());
    let ghost ts = text::seqs_of(tokens@);
    let comma = text::chars_of("⟪1⟫");
    let period = text::chars_of("⟪2⟫");
    let question = text::chars_of("⟪3⟫");
    let exclamation = text::chars_of("⟪4⟫");
    let mut kept: Vec<Vec<char>> = Vec::new();
    let mut i: usize = 0;
    while i < tokens.len()
        invariant
            i <= tokens@.len(),
            ts == text::seqs_of(tokens@),
            comma@ == "⟪1⟫"@,
            period@ == "⟪2⟫"@,
            question@ == "⟪3⟫"@,
            exclamation@ == "⟪4⟫"@,
            text::seqs_of(kept@) == kept_tokens(ts, i as int),
        decreases tokens@.len() - i,
    {
        let tok = tokens[i].as_slice();
        let repeat = kept.len() > 0 && text::chars_eq(tok, kept[kept.len() - 1].as_slice())
            && is_marker_chars(tok);
        let spurious_comma = text::chars_eq(tok, comma.as_slice()) && i + 1 < tokens.len()
            && is_marker_chars(tokens[i + 1].as_slice()) && !text::chars_eq(
            tokens[i + 1].as_slice(),
            comma.as_slice(),
        );
        let spurious_period = text::chars_eq(tok, period.as_slice()) && kept.len() > 0 && (
        text::chars_eq(kept[kept.len() - 1].as_slice(), exclamation.as_slice())
            || text::chars_eq(kept[kept.len() - 1].as_slice(), question.as_slice()));
        proof {
            if kept@.len() > 0 {
                assert(text::seqs_of(kept@).last() == kept@[kept@.len() - 1]@);
            }
            if i > 0 {
                assert(ts[i - 1] == tokens@[i - 1]@);
            }
            if i + 1 < tokens@.len() {
                assert(ts[i + 1] == tokens@[i + 1]@);
            }
            assert(ts[i as int] == tokens@[i as int]@);
        }
        if !(repeat || spurious_comma || spurious_period) {
            let copy = text::copy_chars(tok);
            proof {
                text::lemma_seqs_of_push(kept@, copy);
            }
            kept.push(copy);
        }
        i = i + 1;
    }
    let joined = text::join_chars(&kept, &[' ']);
    assert((&[' '])@ =~= seq![' ']);
    let out = unmark_exec(joined);
    text::string_of(out.as_slice())
}


// ---------------------------------------------------------------------------
// Normalized text carries no punctuation symbols
// ---------------------------------------------------------------------------

/// A written punctuation symbol that normalization turns into a word.
pub open spec fn is_punct_symbol(c: char) -> bool {
    c == ',' || c == '.' || c == '?' || c == '!' || c == ';' || c == ':' || c == '-'
}

/// `s` does not contain `x`.
pub open spec fn free_of(s: Seq<char>, x: char) -> bool {
    forall|k: int| 0 <= k < s.len() ==> #[trigger] s[k] != x
}

proof fn lemma_replace_keeps_free(s: Seq<char>, p: Seq<char>, r: Seq<char>, x: char)
    requires
        free_of(s, x),
        free_of(r, x),
    ensures
        free_of(text::replace_all(s, p, r), x),
    decreases s.len(),
{
    if p.len() == 0 || s.len() < p.len() {
    } else if s.take(p.len() as int) == p {
        let t = s.skip(p.len() as int);
        assert forall|k: int| 0 <= k < t.len() implies #[trigger] t[k] != x by {
            assert(t[k] == s[k + p.len()]);
        }
        lemma_replace_keeps_free(t, p, r, x);
        let out = r + text::replace_all(t, p, r);
        assert forall|k: int| 0 <= k < out.len() implies #[trigger] out[k] != x by {
            if k >= r.len() {
                assert(out[k] == text::replace_all(t, p, r)[k - r.len()]);
            }
        }
    } else {
        let t = s.drop_first();
        assert forall|k: int| 0 <= k < t.len() implies #[trigger] t[k] != x by {
            assert(t[k] == s[k + 1]);
        }
        lemma_replace_keeps_free(t, p, r, x);
        let out = seq![s[0]] + text::replace_all(t, p, r);
        assert forall|k: int| 0 <= k < out.len() implies #[trigger] out[k] != x by {
            if k >= 1 {
                assert(out[k] == text::replace_all(t, p, r)[k - 1]);
            }
        }
    }
}

proof fn lemma_replace_removes(s: Seq<char>, x: char, r: Seq<char>)
    requires
        free_of(r, x),
    ensures
        free_of(text::replace_all(s, seq![x], r), x),
    decreases s.len(),
{
    let p = seq![x];
    if s.len() < 1 {
    } else if s.take(1) == p {
        let t = s.skip(1);
        lemma_replace_removes(t, x, r);
        let out = r + text::replace_all(t, p, r);
        assert forall|k: int| 0 <= k < out.len() implies #[trigger] out[k] != x by {
            if k >= r.len() {
                assert(out[k] == text::replace_all(t, p, r)[k - r.len()]);
            }
        }
    } else {
        assert(s.take(1) =~= seq![s[0]]);
        let t = s.drop_first();
        lemma_replace_removes(t, x, r);
        let out = seq![s[0]] + text::replace_all(t, p, r);
        assert forall|k: int| 0 <= k < out.len() implies #[trigger] out[k] != x by {
            if k >= 1 {
                assert(out[k] == text::replace_all(t, p, r)[k - 1]);
            }
        }
    }
}

proof fn lemma_symbol_literals(x: char)
    requires
        is_punct_symbol(x),
    ensures
        free_of(" ⟪1⟫ "@, x),
        free_of(" ⟪2⟫ "@, x),
        free_of(" ⟪3⟫ "@, x),
        free_of(" ⟪4⟫ "@, x),
        free_of(" ⟪5⟫ "@, x),
        free_of(" ⟪6⟫ "@, x),
        free_of(" ⟪7⟫ "@, x),
        free_of(" ⟪8⟫ "@, x),
        free_of("comma"@, x),
        free_of("period"@, x),
        free_of("question mark"@, x),
        free_of("exclamation point"@, x),
        free_of("semicolon"@, x),
        free_of("colon"@, x),
        free_of("dash"@, x),
        free_of("ellipsis"@, x),
        free_of(seq![' '], x),
        ","@ == seq![','],
        "."@ == seq!['.'],
        "?"@ == seq!['?'],
        "!"@ == seq!['!'],
        ";"@ == seq![';'],
        ":"@ == seq![':'],
        "-"@ == seq!['-'],
{
    reveal_strlit(" ⟪1⟫ ");
    reveal_strlit(" ⟪2⟫ ");
    reveal_strlit(" ⟪3⟫ ");
    reveal_strlit(" ⟪4⟫ ");
    reveal_strlit(" ⟪5⟫ ");
    reveal_strlit(" ⟪6⟫ ");
    reveal_strlit(" ⟪7⟫ ");
    reveal_strlit(" ⟪8⟫ ");
    reveal_strlit("comma");
    reveal_strlit("period");
    reveal_strlit("question mark");
    reveal_strlit("exclamation point");
    reveal_strlit("semicolon");
    reveal_strlit("colon");
    reveal_strlit("dash");
    reveal_strlit("ellipsis");
    reveal_strlit(",");
    reveal_strlit(".");
    reveal_strlit("?");
    reveal_strlit("!");
    reveal_strlit(";");
    reveal_strlit(":");
    reveal_strlit("-");
    assert(","@ =~= seq![',']);
    assert("."@ =~= seq!['.']);
    assert("?"@ =~= seq!['?']);
    assert("!"@ =~= seq!['!']);
    assert(";"@ =~= seq![';']);
    assert(":"@ =~= seq![':']);
    assert("-"@ =~= seq!['-']);
}

proof fn lemma_mark_symbols_free(s: Seq<char>, x: char)
    requires
        is_punct_symbol(x),
    ensures
        free_of(mark_symbols(s), x),
{
    lemma_symbol_literals(x);
    let s1 = text::replace_all(s, "..."@, " ⟪8⟫ "@);
    let s2 = text::replace_all(s1, "--"@, " ⟪7⟫ "@);
    let s3 = text::replace_all(s2, ","@, " ⟪1⟫ "@);
    let s4 = text::replace_all(s3, "."@, " ⟪2⟫ "@);
    let s5 = text::replace_all(s4, "?"@, " ⟪3⟫ "@);
    let s6 = text::replace_all(s5, "!"@, " ⟪4⟫ "@);
    let s7 = text::replace_all(s6, ";"@, " ⟪5⟫ "@);
    let s8 = text::replace_all(s7, ":"@, " ⟪6⟫ "@);
    let s9 = text::replace_all(s8, "-"@, " ⟪7⟫ "@);
    assert(s9 == mark_symbols(s));
    if x == ',' {
        lemma_replace_removes(s2, x, " ⟪1⟫ "@);
    }
    if x == ',' {
        lemma_replace_keeps_free(s3, "."@, " ⟪2⟫ "@, x);
    } else if x == '.' {
        lemma_replace_removes(s3, x, " ⟪2⟫ "@);
    }
    if x == ',' || x == '.' {
        lemma_replace_keeps_free(s4, "?"@, " ⟪3⟫ "@, x);
    } else if x == '?' {
        lemma_replace_removes(s4, x, " ⟪3⟫ "@);
    }
    if x == ',' || x == '.' || x == '?' {
        lemma_replace_keeps_free(s5, "!"@, " ⟪4⟫ "@, x);
    } else if x == '!' {
        lemma_replace_removes(s5, x, " ⟪4⟫ "@);
    }
    if x == ',' || x == '.' || x == '?' || x == '!' {
        lemma_replace_keeps_free(s6, ";"@, " ⟪5⟫ "@, x);
    } else if x == ';' {
        lemma_replace_removes(s6, x, " ⟪5⟫ "@);
    }
    if x != ':' && x != '-' {
        lemma_replace_keeps_free(s7, ":"@, " ⟪6⟫ "@, x);
    } else if x == ':' {
        lemma_replace_removes(s7, x, " ⟪6⟫ "@);
    }
    if x != '-' {
        lemma_replace_keeps_free(s8, "-"@, " ⟪7⟫ "@, x);
    } else {
        lemma_replace_removes(s8, x, " ⟪7⟫ "@);
    }
}

proof fn lemma_ws_scan_free(s: Seq<char>, x: char)
    requires
        free_of(s, x),
    ensures
        forall|i: int| 0 <= i < text::ws_scan(s).0.len() ==> free_of(#[trigger] text::ws_scan(s).0[i], x),
        free_of(text::ws_scan(s).1, x),
    decreases s.len(),
{
    if s.len() > 0 {
        let d = s.drop_last();
        assert forall|k: int| 0 <= k < d.len() implies #[trigger] d[k] != x by {
            assert(d[k] == s[k]);
        }
        lemma_ws_scan_free(d, x);
        let prev = text::ws_scan(d);
        let c = s.last();
        assert(c == s[s.len() - 1]);
        if !text::is_ws(c) {
            let w = prev.1.push(c);
            assert forall|k: int| 0 <= k < w.len() implies #[trigger] w[k] != x by {
                if k < prev.1.len() {
                    assert(w[k] == prev.1[k]);
                }
            }
        } else if prev.1.len() > 0 {
            let ws = prev.0.push(prev.1);
            assert forall|i: int| 0 <= i < ws.len() implies free_of(#[trigger] ws[i], x) by {
                if i < prev.0.len() {
                    assert(ws[i] == prev.0[i]);
                }
            }
        }
    }
}

proof fn lemma_words_free(s: Seq<char>, x: char)
    requires
        free_of(s, x),
    ensures
        forall|i: int| 0 <= i < text::words(s).len() ==> free_of(#[trigger] text::words(s)[i], x),
{
    lemma_ws_scan_free(s, x);
    let st = text::ws_scan(s);
    if st.1.len() > 0 {
        let ws = st.0.push(st.1);
        assert forall|i: int| 0 <= i < ws.len() implies free_of(#[trigger] ws[i], x) by {
            if i < st.0.len() {
                assert(ws[i] == st.0[i]);
            }
        }
    }
}

proof fn lemma_kept_tokens_free(tokens: Seq<Seq<char>>, n: int, x: char)
    requires
        0 <= n <= tokens.len(),
        forall|i: int| 0 <= i < tokens.len() ==> free_of(#[trigger] tokens[i], x),
    ensures
        forall|j: int|
            0 <= j < kept_tokens(tokens, n).len() ==> free_of(#[trigger] kept_tokens(tokens, n)[j], x),
    decreases n,
{
    if n > 0 {
        lemma_kept_tokens_free(tokens, n - 1, x);
        let prev = kept_tokens(tokens, n - 1);
        if !dropped(tokens, n - 1, prev) {
            let k = prev.push(tokens[n - 1]);
            assert forall|j: int| 0 <= j < k.len() implies free_of(#[trigger] k[j], x) by {
                if j < prev.len() {
                    assert(k[j] == prev[j]);
                }
            }
        }
    }
}

pub(crate) proof fn lemma_join_free(parts: Seq<Seq<char>>, sep: Seq<char>, x: char)
    requires
        free_of(sep, x),
        forall|i: int| 0 <= i < parts.len() ==> free_of(#[trigger] parts[i], x),
    ensures
        free_of(text::join(parts, sep), x),
    decreases parts.len(),
{
    if parts.len() == 1 {
        assert(free_of(parts[0], x));
    } else if parts.len() > 1 {
        let d = parts.drop_last();
        assert forall|i: int| 0 <= i < d.len() implies free_of(#[trigger] d[i], x) by {
            assert(d[i] == parts[i]);
        }
        lemma_join_free(d, sep, x);
        assert(free_of(parts[parts.len() - 1], x));
        let a = text::join(d, sep);
        let out = a + sep + parts.last();
        assert forall|k: int| 0 <= k < out.len() implies #[trigger] out[k] != x by {
            if k < a.len() {
                assert(out[k] == a[k]);
            } else if k < a.len() + sep.len() {
                assert(out[k] == sep[k - a.len()]);
            } else {
                assert(out[k] == parts.last()[k - a.len() - sep.len()]);
            }
        }
    }
}

/// No kept punctuation marker is directly followed by the same marker.
pub open spec fn no_repeated_marker(kept: Seq<Seq<char>>) -> bool {
    forall|k: int|
        0 <= k < kept.len() - 1 && is_marker(#[trigger] kept[k]) ==> kept[k + 1] != kept[k]
}

proof fn lemma_kept_no_repeats(tokens: Seq<Seq<char>>, n: int)
    ensures
        no_repeated_marker(kept_tokens(tokens, n)),
    decreases n,
{
    if n > 0 {
        lemma_kept_no_repeats(tokens, n - 1);
        let prev = kept_tokens(tokens, n - 1);
        if !dropped(tokens, n - 1, prev) {
            let cur = prev.push(tokens[n - 1]);
            assert forall|k: int|
                0 <= k < cur.len() - 1 && is_marker(#[trigger] cur[k]) implies cur[k + 1]
                != cur[k] by {
                if k + 1 < prev.len() {
                    assert(cur[k] == prev[k] && cur[k + 1] == prev[k + 1]);
                } else {
                    assert(cur[k] == prev.last());
                }
            }
        }
    }
}

/// Consecutive duplicate punctuation words are removed: in the tokens that
/// normalization keeps (which it writes out, joined by single spaces, with
/// each marker spelled as its punctuation word), no punctuation marker is
/// directly followed by the same marker.
pub proof fn lemma_no_repeated_punctuation(lowered: Seq<char>)
    ensures
        ({
            let tokens = text::words(mark_symbols(mark_words(lowered)));
            let kept = kept_tokens(tokens, tokens.len() as int);
            &&& normalized_0_6b(lowered) == unmark(text::join(kept, seq![' ']))
            &&& no_repeated_marker(kept)
        }),
{
    let tokens = text::words(mark_symbols(mark_words(lowered)));
    lemma_kept_no_repeats(tokens, tokens.len() as int);
}

/// Normalized text carries no written punctuation symbol (`, . ? ! ; : -`):
/// every one of them became its spoken word.
pub proof fn lemma_normalized_has_no_symbols(lowered: Seq<char>, k: int)
    requires
        0 <= k < normalized_0_6b(lowered).len(),
    ensures
        !is_punct_symbol(normalized_0_6b(lowered)[k]),
{
    let out = normalized_0_6b(lowered);
    if is_punct_symbol(out[k]) {
        let x = out[k];
        lemma_symbol_literals(x);
        lemma_mark_symbols_free(mark_words(lowered), x);
        let marked = mark_symbols(mark_words(lowered));
        let tokens = text::words(marked);
        lemma_words_free(marked, x);
        lemma_kept_tokens_free(tokens, tokens.len() as int, x);
        let joined = text::join(kept_tokens(tokens, tokens.len() as int), seq![' ']);
        lemma_join_free(kept_tokens(tokens, tokens.len() as int), seq![' '], x);
        let u1 = text::replace_all(joined, "⟪1⟫"@, "comma"@);
        lemma_replace_keeps_free(joined, "⟪1⟫"@, "comma"@, x);
        let u2 = text::replace_all(u1, "⟪2⟫"@, "period"@);
        lemma_replace_keeps_free(u1, "⟪2⟫"@, "period"@, x);
        let u3 = text::replace_all(u2, "⟪3⟫"@, "question mark"@);
        lemma_replace_keeps_free(u2, "⟪3⟫"@, "question mark"@, x);
        let u4 = text::replace_all(u3, "⟪4⟫"@, "exclamation point"@);
        lemma_replace_keeps_free(u3, "⟪4⟫"@, "exclamation point"@, x);
        let u5 = text::replace_all(u4, "⟪5⟫"@, "semicolon"@);
        lemma_replace_keeps_free(u4, "⟪5⟫"@, "semicolon"@, x);
        let u6 = text::replace_all(u5, "⟪6⟫"@, "colon"@);
        lemma_replace_keeps_free(u5, "⟪6⟫"@, "colon"@, x);
        let u7 = text::replace_all(u6, "⟪7⟫"@, "dash"@);
        lemma_replace_keeps_free(u6, "⟪7⟫"@, "dash"@, x);
        let u8 = text::replace_all(u7, "⟪8⟫"@, "ellipsis"@);
        lemma_replace_keeps_free(u7, "⟪8⟫"@, "ellipsis"@, x);
        assert(u8 == out);
        assert(out[k] != x);
    }
}

// ---------------------------------------------------------------------------
// Spoken punctuation normalizes to its canonical word
// ---------------------------------------------------------------------------

/// `s` holds only whitespace.
pub open spec fn ws_only(s: Seq<char>) -> bool {
    forall|k: int| 0 <= k < s.len() ==> text::is_ws(#[trigger] s[k])
}

proof fn lemma_replace_absent(s: Seq<char>, p: Seq<char>, r: Seq<char>, k: int)
    requires
        0 <= k < p.len(),
        free_of(s, p[k]),
    ensures
        text::replace_all(s, p, r) == s,
    decreases s.len(),
{
    if s.len() >= p.len() {
        if s.take(p.len() as int) == p {
            assert(s.take(p.len() as int)[k] == s[k]);
        } else {
            let d = s.drop_first();
            assert forall|j: int| 0 <= j < d.len() implies #[trigger] d[j] != p[k] by {
                assert(d[j] == s[j + 1]);
            }
            lemma_replace_absent(d, p, r, k);
            assert(seq![s[0]] + d =~= s);
        }
    }
}

proof fn lemma_replace_exact(p: Seq<char>, r: Seq<char>)
    requires
        p.len() > 0,
    ensures
        text::replace_all(p, p, r) == r,
{
    assert(p.take(p.len() as int) =~= p);
    assert(p.skip(p.len() as int) =~= Seq::<char>::empty());
    assert(text::replace_all(Seq::<char>::empty(), p, r) == Seq::<char>::empty());
    assert(r + Seq::<char>::empty() =~= r);
}

proof fn lemma_replace_pad_front(a: Seq<char>, y: Seq<char>, p: Seq<char>, r: Seq<char>)
    requires
        ws_only(a),
        p.len() > 0,
        !text::is_ws(p[0]),
    ensures
        text::replace_all(a + y, p, r) == a + text::replace_all(y, p, r),
    decreases a.len(),
{
    if a.len() > 0 {
        let s = a + y;
        let d = a.drop_first();
        assert forall|k: int| 0 <= k < d.len() implies text::is_ws(#[trigger] d[k]) by {
            assert(d[k] == a[k + 1]);
        }
        lemma_replace_pad_front(d, y, p, r);
        assert(s.drop_first() =~= d + y);
        assert(s[0] == a[0]);
        if s.len() >= p.len() {
            assert(s.take(p.len() as int)[0] == s[0]);
        } else {
            text::lemma_replace_short(y, p, r);
            text::lemma_replace_short(d + y, p, r);
        }
        assert(seq![a[0]] + (d + text::replace_all(y, p, r)) =~= a + text::replace_all(y, p, r));
        assert(seq![s[0]] + (d + y) =~= s);
    } else {
        assert(a + y =~= y);
        assert(a + text::replace_all(y, p, r) =~= text::replace_all(y, p, r));
    }
}

proof fn lemma_replace_pad_back(x: Seq<char>, b: Seq<char>, p: Seq<char>, r: Seq<char>)
    requires
        ws_only(b),
        p.len() > 0,
        !text::is_ws(p[0]),
        !text::is_ws(p[p.len() - 1]),
    ensures
        text::replace_all(x + b, p, r) == text::replace_all(x, p, r) + b,
    decreases x.len(),
{
    let s = x + b;
    if x.len() == 0 {
        assert(s =~= b);
        assert forall|j: int| 0 <= j < b.len() implies #[trigger] b[j] != p[0] by {}
        lemma_replace_absent(b, p, r, 0);
        assert(Seq::<char>::empty() + b =~= b);
    } else if s.len() < p.len() {
        text::lemma_replace_short(x, p, r);
    } else if s.take(p.len() as int) == p {
        if p.len() > x.len() {
            assert(s.take(p.len() as int)[p.len() - 1] == s[p.len() - 1]);
            assert(s[p.len() - 1] == b[p.len() - 1 - x.len()]);
        }
        assert(x.take(p.len() as int) =~= s.take(p.len() as int));
        lemma_replace_pad_back(x.skip(p.len() as int), b, p, r);
        assert(s.skip(p.len() as int) =~= x.skip(p.len() as int) + b);
        assert(r + (text::replace_all(x.skip(p.len() as int), p, r) + b) =~= (r
            + text::replace_all(x.skip(p.len() as int), p, r)) + b);
    } else {
        lemma_replace_pad_back(x.drop_first(), b, p, r);
        assert(s.drop_first() =~= x.drop_first() + b);
        assert(s[0] == x[0]);
        if x.len() >= p.len() {
            assert(x.take(p.len() as int) =~= s.take(p.len() as int));
        } else {
            text::lemma_replace_short(x, p, r);
            text::lemma_replace_short(x.drop_first(), p, r);
            assert(seq![x[0]] + x.drop_first() =~= x);
        }
        assert(seq![x[0]] + (text::replace_all(x.drop_first(), p, r) + b) =~= (seq![x[0]]
            + text::replace_all(x.drop_first(), p, r)) + b);
    }
}

proof fn lemma_replace_pad(a: Seq<char>, x: Seq<char>, b: Seq<char>, p: Seq<char>, r: Seq<char>)
    requires
        ws_only(a),
        ws_only(b),
        p.len() > 0,
        !text::is_ws(p[0]),
        !text::is_ws(p[p.len() - 1]),
    ensures
        text::replace_all(a + x + b, p, r) == a + text::replace_all(x, p, r) + b,
{
    lemma_replace_pad_front(a, x + b, p, r);
    lemma_replace_pad_back(x, b, p, r);
    assert(a + x + b =~= a + (x + b));
    assert(a + (text::replace_all(x, p, r) + b) =~= a + text::replace_all(x, p, r) + b);
}

proof fn lemma_ws_scan_front(a: Seq<char>, y: Seq<char>)
    requires
        ws_only(a),
    ensures
        text::ws_scan(a + y) == text::ws_scan(y),
    decreases y.len(),
{
    if y.len() == 0 {
        assert(a + y =~= a);
        lemma_ws_scan_all_ws(a);
    } else {
        lemma_ws_scan_front(a, y.drop_last());
        assert((a + y).drop_last() =~= a + y.drop_last());
        assert((a + y).last() == y.last());
    }
}

proof fn lemma_ws_scan_all_ws(a: Seq<char>)
    requires
        ws_only(a),
    ensures
        text::ws_scan(a) == (Seq::<Seq<char>>::empty(), Seq::<char>::empty()),
    decreases a.len(),
{
    if a.len() > 0 {
        let d = a.drop_last();
        assert forall|k: int| 0 <= k < d.len() implies text::is_ws(#[trigger] d[k]) by {
            assert(d[k] == a[k]);
        }
        lemma_ws_scan_all_ws(d);
        assert(text::is_ws(a[a.len() - 1]));
    }
}

proof fn lemma_words_back(y: Seq<char>, b: Seq<char>)
    requires
        ws_only(b),
    ensures
        text::words(y + b) == text::words(y),
    decreases b.len(),
{
    if b.len() > 0 {
        let d = b.drop_last();
        assert forall|k: int| 0 <= k < d.len() implies text::is_ws(#[trigger] d[k]) by {
            assert(d[k] == b[k]);
        }
        lemma_words_back(y, d);
        assert((y + b).drop_last() =~= y + d);
        assert((y + b).last() == b[b.len() - 1]);
    } else {
        assert(y + b =~= y);
    }
}

proof fn lemma_ws_scan_word(m: Seq<char>)
    requires
        forall|k: int| 0 <= k < m.len() ==> !text::is_ws(#[trigger] m[k]),
    ensures
        text::ws_scan(m) == (Seq::<Seq<char>>::empty(), m),
    decreases m.len(),
{
    if m.len() > 0 {
        let d = m.drop_last();
        assert forall|k: int| 0 <= k < d.len() implies !text::is_ws(#[trigger] d[k]) by {
            assert(d[k] == m[k]);
        }
        lemma_ws_scan_word(d);
        assert(d.push(m.last()) =~= m);
    }
}

/// The words of `a + m + b`, for whitespace `a`, `b` and a word `m`.
proof fn lemma_words_padded_word(a: Seq<char>, m: Seq<char>, b: Seq<char>)
    requires
        ws_only(a),
        ws_only(b),
        m.len() > 0,
        forall|k: int| 0 <= k < m.len() ==> !text::is_ws(#[trigger] m[k]),
    ensures
        text::words(a + m + b) == seq![m],
{
    lemma_words_back(a + m, b);
    lemma_ws_scan_front(a, m);
    lemma_ws_scan_word(m);
}

proof fn lemma_mark_words_pad(a: Seq<char>, x: Seq<char>, b: Seq<char>)
    requires
        ws_only(a),
        ws_only(b),
    ensures
        mark_words(a + x + b) == a + mark_words(x) + b,
{
    reveal_strlit("exclamation point");
    reveal_strlit("exclamation mark");
    reveal_strlit("question mark");
    reveal_strlit("full stop");
    reveal_strlit("semi colon");
    reveal_strlit("three dots");
    reveal_strlit("ellipsis");
    reveal_strlit("semicolon");
    reveal_strlit("period");
    reveal_strlit("comma");
    reveal_strlit("colon");
    reveal_strlit("dash");
    lemma_replace_pad(a, x, b, "exclamation point"@, "⟪4⟫"@);
    lemma_replace_pad(a, text::replace_all(x, "exclamation point"@, "⟪4⟫"@), b, "exclamation mark"@, "⟪4⟫"@);
    lemma_replace_pad(a, text::replace_all(text::replace_all(x, "exclamation point"@, "⟪4⟫"@), "exclamation mark"@, "⟪4⟫"@), b, "question mark"@, "⟪3⟫"@);
    lemma_replace_pad(a, text::replace_all(text::replace_all(text::replace_all(x, "exclamation point"@, "⟪4⟫"@), "exclamation mark"@, "⟪4⟫"@), "question mark"@, "⟪3⟫"@), b, "full stop"@, "⟪2⟫"@);
    lemma_replace_pad(a, text::replace_all(text::replace_all(text::replace_all(text::replace_all(x, "exclamation point"@, "⟪4⟫"@), "exclamation mark"@, "⟪4⟫"@), "question mark"@, "⟪3⟫"@), "full stop"@, "⟪2⟫"@), b, "semi colon"@, "⟪5⟫"@);
    lemma_replace_pad(a, text::replace_all(text::replace_all(text::replace_all(text::replace_all(text::replace_all(x, "exclamation point"@, "⟪4⟫"@), "exclamation mark"@, "⟪4⟫"@), "question mark"@, "⟪3⟫"@), "full stop"@, "⟪2⟫"@), "semi colon"@, "⟪5⟫"@), b, "three dots"@, "⟪8⟫"@);
    lemma_replace_pad(a, text::replace_all(text::replace_all(text::replace_all(text::replace_all(text::replace_all(text::replace_all(x, "exclamation point"@, "⟪4⟫"@), "exclamation mark"@, "⟪4⟫"@), "question mark"@, "⟪3⟫"@), "full stop"@, "⟪2⟫"@), "semi colon"@, "⟪5⟫"@), "three dots"@, "⟪8⟫"@), b, "ellipsis"@, "⟪8⟫"@);
    lemma_replace_pad(a, text::replace_all(text::replace_all(text::replace_all(text::replace_all(text::replace_all(text::replace_all(text::replace_all(x, "exclamation point"@, "⟪4⟫"@), "exclamation mark"@, "⟪4⟫"@), "question mark"@, "⟪3⟫"@), "full stop"@, "⟪2⟫"@), "semi colon"@, "⟪5⟫"@), "three dots"@, "⟪8⟫"@), "ellipsis"@, "⟪8⟫"@), b, "semicolon"@, "⟪5⟫"@);
    lemma_replace_pad(a, text::replace_all(text::replace_all(text::replace_all(text::replace_all(text::replace_all(text::replace_all(text::replace_all(text::replace_all(x, "exclamation point"@, "⟪4⟫"@), "exclamation mark"@, "⟪4⟫"@), "question mark"@, "⟪3⟫"@), "full stop"@, "⟪2⟫"@), "semi colon"@, "⟪5⟫"@), "three dots"@, "⟪8⟫"@), "ellipsis"@, "⟪8⟫"@), "semicolon"@, "⟪5⟫"@), b, "period"@, "⟪2⟫"@);
    lemma_replace_pad(a, text::replace_all(text::replace_all(text::replace_all(text::replace_all(text::replace_all(text::replace_all(text::replace_all(text::replace_all(text::replace_all(x, "exclamation point"@, "⟪4⟫"@), "exclamation mark"@, "⟪4⟫"@), "question mark"@, "⟪3⟫"@), "full stop"@, "⟪2⟫"@), "semi colon"@, "⟪5⟫"@), "three dots"@, "⟪8⟫"@), "ellipsis"@, "⟪8⟫"@), "semicolon"@, "⟪5⟫"@), "period"@, "⟪2⟫"@), b, "comma"@, "⟪1⟫"@);
    lemma_replace_pad(a, text::replace_all(text::replace_all(text::replace_all(text::replace_all(text::replace_all(text::replace_all(text::replace_all(text::replace_all(text::replace_all(text::replace_all(x, "exclamation point"@, "⟪4⟫"@), "exclamation mark"@, "⟪4⟫"@), "question mark"@, "⟪3⟫"@), "full stop"@, "⟪2⟫"@), "semi colon"@, "⟪5⟫"@), "three dots"@, "⟪8⟫"@), "ellipsis"@, "⟪8⟫"@), "semicolon"@, "⟪5⟫"@), "period"@, "⟪2⟫"@), "comma"@, "⟪1⟫"@), b, "colon"@, "⟪6⟫"@);
    lemma_replace_pad(a, text::replace_all(text::replace_all(text::replace_all(text::replace_all(text::replace_all(text::replace_all(text::replace_all(text::replace_all(text::replace_all(text::replace_all(text::replace_all(x, "exclamation point"@, "⟪4⟫"@), "exclamation mark"@, "⟪4⟫"@), "question mark"@, "⟪3⟫"@), "full stop"@, "⟪2⟫"@), "semi colon"@, "⟪5⟫"@), "three dots"@, "⟪8⟫"@), "ellipsis"@, "⟪8⟫"@), "semicolon"@, "⟪5⟫"@), "period"@, "⟪2⟫"@), "comma"@, "⟪1⟫"@), "colon"@, "⟪6⟫"@), b, "dash"@, "⟪7⟫"@);
}

proof fn lemma_mark_symbols_pad(a: Seq<char>, x: Seq<char>, b: Seq<char>)
    requires
        ws_only(a),
        ws_only(b),
    ensures
        mark_symbols(a + x + b) == a + mark_symbols(x) + b,
{
    reveal_strlit("...");
    reveal_strlit("--");
    reveal_strlit(",");
    reveal_strlit(".");
    reveal_strlit("?");
    reveal_strlit("!");
    reveal_strlit(";");
    reveal_strlit(":");
    reveal_strlit("-");
    lemma_replace_pad(a, x, b, "..."@, " ⟪8⟫ "@);
    lemma_replace_pad(a, text::replace_all(x, "..."@, " ⟪8⟫ "@), b, "--"@, " ⟪7⟫ "@);
    lemma_replace_pad(a, text::replace_all(text::replace_all(x, "..."@, " ⟪8⟫ "@), "--"@, " ⟪7⟫ "@), b, ","@, " ⟪1⟫ "@);
    lemma_replace_pad(a, text::replace_all(text::replace_all(text::replace_all(x, "..."@, " ⟪8⟫ "@), "--"@, " ⟪7⟫ "@), ","@, " ⟪1⟫ "@), b, "."@, " ⟪2⟫ "@);
    lemma_replace_pad(a, text::replace_all(text::replace_all(text::replace_all(text::replace_all(x, "..."@, " ⟪8⟫ "@), "--"@, " ⟪7⟫ "@), ","@, " ⟪1⟫ "@), "."@, " ⟪2⟫ "@), b, "?"@, " ⟪3⟫ "@);
    lemma_replace_pad(a, text::replace_all(text::replace_all(text::replace_all(text::replace_all(text::replace_all(x, "..."@, " ⟪8⟫ "@), "--"@, " ⟪7⟫ "@), ","@, " ⟪1⟫ "@), "."@, " ⟪2⟫ "@), "?"@, " ⟪3⟫ "@), b, "!"@, " ⟪4⟫ "@);
    lemma_replace_pad(a, text::replace_all(text::replace_all(text::replace_all(text::replace_all(text::replace_all(text::replace_all(x, "..."@, " ⟪8⟫ "@), "--"@, " ⟪7⟫ "@), ","@, " ⟪1⟫ "@), "."@, " ⟪2⟫ "@), "?"@, " ⟪3⟫ "@), "!"@, " ⟪4⟫ "@), b, ";"@, " ⟪5⟫ "@);
    lemma_replace_pad(a, text::replace_all(text::replace_all(text::replace_all(text::replace_all(text::replace_all(text::replace_all(text::replace_all(x, "..."@, " ⟪8⟫ "@), "--"@, " ⟪7⟫ "@), ","@, " ⟪1⟫ "@), "."@, " ⟪2⟫ "@), "?"@, " ⟪3⟫ "@), "!"@, " ⟪4⟫ "@), ";"@, " ⟪5⟫ "@), b, ":"@, " ⟪6⟫ "@);
    lemma_replace_pad(a, text::replace_all(text::replace_all(text::replace_all(text::replace_all(text::replace_all(text::replace_all(text::replace_all(text::replace_all(x, "..."@, " ⟪8⟫ "@), "--"@, " ⟪7⟫ "@), ","@, " ⟪1⟫ "@), "."@, " ⟪2⟫ "@), "?"@, " ⟪3⟫ "@), "!"@, " ⟪4⟫ "@), ";"@, " ⟪5⟫ "@), ":"@, " ⟪6⟫ "@), b, "-"@, " ⟪7⟫ "@);
}

proof fn lemma_canonical_semi_colon()
    ensures
        mark_words("semi colon"@) == "⟪5⟫"@,
        mark_symbols("⟪5⟫"@) == "⟪5⟫"@,
        unmark("⟪5⟫"@) == "semicolon"@,
{
    reveal_strlit(" ⟪1⟫ ");
    reveal_strlit(" ⟪2⟫ ");
    reveal_strlit(" ⟪3⟫ ");
    reveal_strlit(" ⟪4⟫ ");
    reveal_strlit(" ⟪5⟫ ");
    reveal_strlit(" ⟪6⟫ ");
    reveal_strlit(" ⟪7⟫ ");
    reveal_strlit(" ⟪8⟫ ");
    reveal_strlit("!");
    reveal_strlit(",");
    reveal_strlit("-");
    reveal_strlit("--");
    reveal_strlit(".");
    reveal_strlit("...");
    reveal_strlit(":");
    reveal_strlit(";");
    reveal_strlit("?");
    reveal_strlit("colon");
    reveal_strlit("comma");
    reveal_strlit("dash");
    reveal_strlit("ellipsis");
    reveal_strlit("exclamation mark");
    reveal_strlit("exclamation point");
    reveal_strlit("full stop");
    reveal_strlit("period");
    reveal_strlit("question mark");
    reveal_strlit("semi colon");
    reveal_strlit("semicolon");
    reveal_strlit("three dots");
    reveal_strlit("⟪1⟫");
    reveal_strlit("⟪2⟫");
    reveal_strlit("⟪3⟫");
    reveal_strlit("⟪4⟫");
    reveal_strlit("⟪5⟫");
    reveal_strlit("⟪6⟫");
    reveal_strlit("⟪7⟫");
    reveal_strlit("⟪8⟫");
    lemma_replace_absent("semi colon"@, "exclamation point"@, "⟪4⟫"@, 1);
    lemma_replace_absent("semi colon"@, "exclamation mark"@, "⟪4⟫"@, 1);
    lemma_replace_absent("semi colon"@, "question mark"@, "⟪3⟫"@, 0);
    lemma_replace_absent("semi colon"@, "full stop"@, "⟪2⟫"@, 0);
    lemma_replace_exact("semi colon"@, "⟪5⟫"@);
    lemma_replace_absent("⟪5⟫"@, "three dots"@, "⟪8⟫"@, 0);
    lemma_replace_absent("⟪5⟫"@, "ellipsis"@, "⟪8⟫"@, 0);
    lemma_replace_absent("⟪5⟫"@, "semicolon"@, "⟪5⟫"@, 0);
    lemma_replace_absent("⟪5⟫"@, "period"@, "⟪2⟫"@, 0);
    lemma_replace_absent("⟪5⟫"@, "comma"@, "⟪1⟫"@, 0);
    lemma_replace_absent("⟪5⟫"@, "colon"@, "⟪6⟫"@, 0);
    lemma_replace_absent("⟪5⟫"@, "dash"@, "⟪7⟫"@, 0);
    lemma_replace_absent("⟪5⟫"@, "..."@, " ⟪8⟫ "@, 0);
    lemma_replace_absent("⟪5⟫"@, "--"@, " ⟪7⟫ "@, 0);
    lemma_replace_absent("⟪5⟫"@, ","@, " ⟪1⟫ "@, 0);
    lemma_replace_absent("⟪5⟫"@, "."@, " ⟪2⟫ "@, 0);
    lemma_replace_absent("⟪5⟫"@, "?"@, " ⟪3⟫ "@, 0);
    lemma_replace_absent("⟪5⟫"@, "!"@, " ⟪4⟫ "@, 0);
    lemma_replace_absent("⟪5⟫"@, ";"@, " ⟪5⟫ "@, 0);
    lemma_replace_absent("⟪5⟫"@, ":"@, " ⟪6⟫ "@, 0);
    lemma_replace_absent("⟪5⟫"@, "-"@, " ⟪7⟫ "@, 0);
    lemma_replace_absent("⟪5⟫"@, "⟪1⟫"@, "comma"@, 1);
    lemma_replace_absent("⟪5⟫"@, "⟪2⟫"@, "period"@, 1);
    lemma_replace_absent("⟪5⟫"@, "⟪3⟫"@, "question mark"@, 1);
    lemma_replace_absent("⟪5⟫"@, "⟪4⟫"@, "exclamation point"@, 1);
    lemma_replace_exact("⟪5⟫"@, "semicolon"@);
    lemma_replace_absent("semicolon"@, "⟪6⟫"@, "colon"@, 0);
    lemma_replace_absent("semicolon"@, "⟪7⟫"@, "dash"@, 0);
    lemma_replace_absent("semicolon"@, "⟪8⟫"@, "ellipsis"@, 0);
}

proof fn lemma_spoken_semi_colon(a: Seq<char>, b: Seq<char>)
    requires
        ws_only(a),
        ws_only(b),
    ensures
        normalized_0_6b(a + "semi colon"@ + b) == "semicolon"@,
{
    lemma_canonical_semi_colon();
    lemma_mark_words_pad(a, "semi colon"@, b);
    lemma_mark_symbols_pad(a, "⟪5⟫"@, b);
    reveal_strlit("⟪5⟫");
    reveal_strlit("⟪1⟫");
    lemma_words_padded_word(a, "⟪5⟫"@, b);
    let t = seq!["⟪5⟫"@];
    assert(kept_tokens(t, 0) == Seq::<Seq<char>>::empty());
    assert(kept_tokens(t, 1) == t);
    assert(text::join(t, seq![' ']) == "⟪5⟫"@);
}

proof fn lemma_canonical_semicolon()
    ensures
        mark_words("semicolon"@) == "⟪5⟫"@,
        mark_symbols("⟪5⟫"@) == "⟪5⟫"@,
        unmark("⟪5⟫"@) == "semicolon"@,
{
    reveal_strlit(" ⟪1⟫ ");
    reveal_strlit(" ⟪2⟫ ");
    reveal_strlit(" ⟪3⟫ ");
    reveal_strlit(" ⟪4⟫ ");
    reveal_strlit(" ⟪5⟫ ");
    reveal_strlit(" ⟪6⟫ ");
    reveal_strlit(" ⟪7⟫ ");
    reveal_strlit(" ⟪8⟫ ");
    reveal_strlit("!");
    reveal_strlit(",");
    reveal_strlit("-");
    reveal_strlit("--");
    reveal_strlit(".");
    reveal_strlit("...");
    reveal_strlit(":");
    reveal_strlit(";");
    reveal_strlit("?");
    reveal_strlit("colon");
    reveal_strlit("comma");
    reveal_strlit("dash");
    reveal_strlit("ellipsis");
    reveal_strlit("exclamation mark");
    reveal_strlit("exclamation point");
    reveal_strlit("full stop");
    reveal_strlit("period");
    reveal_strlit("question mark");
    reveal_strlit("semi colon");
    reveal_strlit("semicolon");
    reveal_strlit("three dots");
    reveal_strlit("⟪1⟫");
    reveal_strlit("⟪2⟫");
    reveal_strlit("⟪3⟫");
    reveal_strlit("⟪4⟫");
    reveal_strlit("⟪5⟫");
    reveal_strlit("⟪6⟫");
    reveal_strlit("⟪7⟫");
    reveal_strlit("⟪8⟫");
    lemma_replace_absent("semicolon"@, "exclamation point"@, "⟪4⟫"@, 1);
    lemma_replace_absent("semicolon"@, "exclamation mark"@, "⟪4⟫"@, 1);
    lemma_replace_absent("semicolon"@, "question mark"@, "⟪3⟫"@, 0);
    lemma_replace_absent("semicolon"@, "full stop"@, "⟪2⟫"@, 0);
    lemma_replace_absent("semicolon"@, "semi colon"@, "⟪5⟫"@, 4);
    lemma_replace_absent("semicolon"@, "three dots"@, "⟪8⟫"@, 0);
    lemma_replace_absent("semicolon"@, "ellipsis"@, "⟪8⟫"@, 4);
    lemma_replace_exact("semicolon"@, "⟪5⟫"@);
    lemma_replace_absent("⟪5⟫"@, "period"@, "⟪2⟫"@, 0);
    lemma_replace_absent("⟪5⟫"@, "comma"@, "⟪1⟫"@, 0);
    lemma_replace_absent("⟪5⟫"@, "colon"@, "⟪6⟫"@, 0);
    lemma_replace_absent("⟪5⟫"@, "dash"@, "⟪7⟫"@, 0);
    lemma_replace_absent("⟪5⟫"@, "..."@, " ⟪8⟫ "@, 0);
    lemma_replace_absent("⟪5⟫"@, "--"@, " ⟪7⟫ "@, 0);
    lemma_replace_absent("⟪5⟫"@, ","@, " ⟪1⟫ "@, 0);
    lemma_replace_absent("⟪5⟫"@, "."@, " ⟪2⟫ "@, 0);
    lemma_replace_absent("⟪5⟫"@, "?"@, " ⟪3⟫ "@, 0);
    lemma_replace_absent("⟪5⟫"@, "!"@, " ⟪4⟫ "@, 0);
    lemma_replace_absent("⟪5⟫"@, ";"@, " ⟪5⟫ "@, 0);
    lemma_replace_absent("⟪5⟫"@, ":"@, " ⟪6⟫ "@, 0);
    lemma_replace_absent("⟪5⟫"@, "-"@, " ⟪7⟫ "@, 0);
    lemma_replace_absent("⟪5⟫"@, "⟪1⟫"@, "comma"@, 1);
    lemma_replace_absent("⟪5⟫"@, "⟪2⟫"@, "period"@, 1);
    lemma_replace_absent("⟪5⟫"@, "⟪3⟫"@, "question mark"@, 1);
    lemma_replace_absent("⟪5⟫"@, "⟪4⟫"@, "exclamation point"@, 1);
    lemma_replace_exact("⟪5⟫"@, "semicolon"@);
    lemma_replace_absent("semicolon"@, "⟪6⟫"@, "colon"@, 0);
    lemma_replace_absent("semicolon"@, "⟪7⟫"@, "dash"@, 0);
    lemma_replace_absent("semicolon"@, "⟪8⟫"@, "ellipsis"@, 0);
}

proof fn lemma_spoken_semicolon(a: Seq<char>, b: Seq<char>)
    requires
        ws_only(a),
        ws_only(b),
    ensures
        normalized_0_6b(a + "semicolon"@ + b) == "semicolon"@,
{
    lemma_canonical_semicolon();
    lemma_mark_words_pad(a, "semicolon"@, b);
    lemma_mark_symbols_pad(a, "⟪5⟫"@, b);
    reveal_strlit("⟪5⟫");
    reveal_strlit("⟪1⟫");
    lemma_words_padded_word(a, "⟪5⟫"@, b);
    let t = seq!["⟪5⟫"@];
    assert(kept_tokens(t, 0) == Seq::<Seq<char>>::empty());
    assert(kept_tokens(t, 1) == t);
    assert(text::join(t, seq![' ']) == "⟪5⟫"@);
}

proof fn lemma_canonical_full_stop()
    ensures
        mark_words("full stop"@) == "⟪2⟫"@,
        mark_symbols("⟪2⟫"@) == "⟪2⟫"@,
        unmark("⟪2⟫"@) == "period"@,
{
    reveal_strlit(" ⟪1⟫ ");
    reveal_strlit(" ⟪2⟫ ");
    reveal_strlit(" ⟪3⟫ ");
    reveal_strlit(" ⟪4⟫ ");
    reveal_strlit(" ⟪5⟫ ");
    reveal_strlit(" ⟪6⟫ ");
    reveal_strlit(" ⟪7⟫ ");
    reveal_strlit(" ⟪8⟫ ");
    reveal_strlit("!");
    reveal_strlit(",");
    reveal_strlit("-");
    reveal_strlit("--");
    reveal_strlit(".");
    reveal_strlit("...");
    reveal_strlit(":");
    reveal_strlit(";");
    reveal_strlit("?");
    reveal_strlit("colon");
    reveal_strlit("comma");
    reveal_strlit("dash");
    reveal_strlit("ellipsis");
    reveal_strlit("exclamation mark");
    reveal_strlit("exclamation point");
    reveal_strlit("full stop");
    reveal_strlit("period");
    reveal_strlit("question mark");
    reveal_strlit("semi colon");
    reveal_strlit("semicolon");
    reveal_strlit("three dots");
    reveal_strlit("⟪1⟫");
    reveal_strlit("⟪2⟫");
    reveal_strlit("⟪3⟫");
    reveal_strlit("⟪4⟫");
    reveal_strlit("⟪5⟫");
    reveal_strlit("⟪6⟫");
    reveal_strlit("⟪7⟫");
    reveal_strlit("⟪8⟫");
    lemma_replace_absent("full stop"@, "exclamation point"@, "⟪4⟫"@, 0);
    lemma_replace_absent("full stop"@, "exclamation mark"@, "⟪4⟫"@, 0);
    lemma_replace_absent("full stop"@, "question mark"@, "⟪3⟫"@, 0);
    lemma_replace_exact("full stop"@, "⟪2⟫"@);
    lemma_replace_absent("⟪2⟫"@, "semi colon"@, "⟪5⟫"@, 0);
    lemma_replace_absent("⟪2⟫"@, "three dots"@, "⟪8⟫"@, 0);
    lemma_replace_absent("⟪2⟫"@, "ellipsis"@, "⟪8⟫"@, 0);
    lemma_replace_absent("⟪2⟫"@, "semicolon"@, "⟪5⟫"@, 0);
    lemma_replace_absent("⟪2⟫"@, "period"@, "⟪2⟫"@, 0);
    lemma_replace_absent("⟪2⟫"@, "comma"@, "⟪1⟫"@, 0);
    lemma_replace_absent("⟪2⟫"@, "colon"@, "⟪6⟫"@, 0);
    lemma_replace_absent("⟪2⟫"@, "dash"@, "⟪7⟫"@, 0);
    lemma_replace_absent("⟪2⟫"@, "..."@, " ⟪8⟫ "@, 0);
    lemma_replace_absent("⟪2⟫"@, "--"@, " ⟪7⟫ "@, 0);
    lemma_replace_absent("⟪2⟫"@, ","@, " ⟪1⟫ "@, 0);
    lemma_replace_absent("⟪2⟫"@, "."@, " ⟪2⟫ "@, 0);
    lemma_replace_absent("⟪2⟫"@, "?"@, " ⟪3⟫ "@, 0);
    lemma_replace_absent("⟪2⟫"@, "!"@, " ⟪4⟫ "@, 0);
    lemma_replace_absent("⟪2⟫"@, ";"@, " ⟪5⟫ "@, 0);
    lemma_replace_absent("⟪2⟫"@, ":"@, " ⟪6⟫ "@, 0);
    lemma_replace_absent("⟪2⟫"@, "-"@, " ⟪7⟫ "@, 0);
    lemma_replace_absent("⟪2⟫"@, "⟪1⟫"@, "comma"@, 1);
    lemma_replace_exact("⟪2⟫"@, "period"@);
    lemma_replace_absent("period"@, "⟪3⟫"@, "question mark"@, 0);
    lemma_replace_absent("period"@, "⟪4⟫"@, "exclamation point"@, 0);
    lemma_replace_absent("period"@, "⟪5⟫"@, "semicolon"@, 0);
    lemma_replace_absent("period"@, "⟪6⟫"@, "colon"@, 0);
    lemma_replace_absent("period"@, "⟪7⟫"@, "dash"@, 0);
    lemma_replace_absent("period"@, "⟪8⟫"@, "ellipsis"@, 0);
}

proof fn lemma_spoken_full_stop(a: Seq<char>, b: Seq<char>)
    requires
        ws_only(a),
        ws_only(b),
    ensures
        normalized_0_6b(a + "full stop"@ + b) == "period"@,
{
    lemma_canonical_full_stop();
    lemma_mark_words_pad(a, "full stop"@, b);
    lemma_mark_symbols_pad(a, "⟪2⟫"@, b);
    reveal_strlit("⟪2⟫");
    reveal_strlit("⟪1⟫");
    lemma_words_padded_word(a, "⟪2⟫"@, b);
    let t = seq!["⟪2⟫"@];
    assert(kept_tokens(t, 0) == Seq::<Seq<char>>::empty());
    assert(kept_tokens(t, 1) == t);
    assert(text::join(t, seq![' ']) == "⟪2⟫"@);
}

proof fn lemma_canonical_period()
    ensures
        mark_words("period"@) == "⟪2⟫"@,
        mark_symbols("⟪2⟫"@) == "⟪2⟫"@,
        unmark("⟪2⟫"@) == "period"@,
{
    reveal_strlit(" ⟪1⟫ ");
    reveal_strlit(" ⟪2⟫ ");
    reveal_strlit(" ⟪3⟫ ");
    reveal_strlit(" ⟪4⟫ ");
    reveal_strlit(" ⟪5⟫ ");
    reveal_strlit(" ⟪6⟫ ");
    reveal_strlit(" ⟪7⟫ ");
    reveal_strlit(" ⟪8⟫ ");
    reveal_strlit("!");
    reveal_strlit(",");
    reveal_strlit("-");
    reveal_strlit("--");
    reveal_strlit(".");
    reveal_strlit("...");
    reveal_strlit(":");
    reveal_strlit(";");
    reveal_strlit("?");
    reveal_strlit("colon");
    reveal_strlit("comma");
    reveal_strlit("dash");
    reveal_strlit("ellipsis");
    reveal_strlit("exclamation mark");
    reveal_strlit("exclamation point");
    reveal_strlit("full stop");
    reveal_strlit("period");
    reveal_strlit("question mark");
    reveal_strlit("semi colon");
    reveal_strlit("semicolon");
    reveal_strlit("three dots");
    reveal_strlit("⟪1⟫");
    reveal_strlit("⟪2⟫");
    reveal_strlit("⟪3⟫");
    reveal_strlit("⟪4⟫");
    reveal_strlit("⟪5⟫");
    reveal_strlit("⟪6⟫");
    reveal_strlit("⟪7⟫");
    reveal_strlit("⟪8⟫");
    lemma_replace_absent("period"@, "exclamation point"@, "⟪4⟫"@, 1);
    lemma_replace_absent("period"@, "exclamation mark"@, "⟪4⟫"@, 1);
    lemma_replace_absent("period"@, "question mark"@, "⟪3⟫"@, 0);
    lemma_replace_absent("period"@, "full stop"@, "⟪2⟫"@, 0);
    lemma_replace_absent("period"@, "semi colon"@, "⟪5⟫"@, 0);
    lemma_replace_absent("period"@, "three dots"@, "⟪8⟫"@, 0);
    lemma_replace_absent("period"@, "ellipsis"@, "⟪8⟫"@, 1);
    lemma_replace_absent("period"@, "semicolon"@, "⟪5⟫"@, 0);
    lemma_replace_exact("period"@, "⟪2⟫"@);
    lemma_replace_absent("⟪2⟫"@, "comma"@, "⟪1⟫"@, 0);
    lemma_replace_absent("⟪2⟫"@, "colon"@, "⟪6⟫"@, 0);
    lemma_replace_absent("⟪2⟫"@, "dash"@, "⟪7⟫"@, 0);
    lemma_replace_absent("⟪2⟫"@, "..."@, " ⟪8⟫ "@, 0);
    lemma_replace_absent("⟪2⟫"@, "--"@, " ⟪7⟫ "@, 0);
    lemma_replace_absent("⟪2⟫"@, ","@, " ⟪1⟫ "@, 0);
    lemma_replace_absent("⟪2⟫"@, "."@, " ⟪2⟫ "@, 0);
    lemma_replace_absent("⟪2⟫"@, "?"@, " ⟪3⟫ "@, 0);
    lemma_replace_absent("⟪2⟫"@, "!"@, " ⟪4⟫ "@, 0);
    lemma_replace_absent("⟪2⟫"@, ";"@, " ⟪5⟫ "@, 0);
    lemma_replace_absent("⟪2⟫"@, ":"@, " ⟪6⟫ "@, 0);
    lemma_replace_absent("⟪2⟫"@, "-"@, " ⟪7⟫ "@, 0);
    lemma_replace_absent("⟪2⟫"@, "⟪1⟫"@, "comma"@, 1);
    lemma_replace_exact("⟪2⟫"@, "period"@);
    lemma_replace_absent("period"@, "⟪3⟫"@, "question mark"@, 0);
    lemma_replace_absent("period"@, "⟪4⟫"@, "exclamation point"@, 0);
    lemma_replace_absent("period"@, "⟪5⟫"@, "semicolon"@, 0);
    lemma_replace_absent("period"@, "⟪6⟫"@, "colon"@, 0);
    lemma_replace_absent("period"@, "⟪7⟫"@, "dash"@, 0);
    lemma_replace_absent("period"@, "⟪8⟫"@, "ellipsis"@, 0);
}

proof fn lemma_spoken_period(a: Seq<char>, b: Seq<char>)
    requires
        ws_only(a),
        ws_only(b),
    ensures
        normalized_0_6b(a + "period"@ + b) == "period"@,
{
    lemma_canonical_period();
    lemma_mark_words_pad(a, "period"@, b);
    lemma_mark_symbols_pad(a, "⟪2⟫"@, b);
    reveal_strlit("⟪2⟫");
    reveal_strlit("⟪1⟫");
    lemma_words_padded_word(a, "⟪2⟫"@, b);
    let t = seq!["⟪2⟫"@];
    assert(kept_tokens(t, 0) == Seq::<Seq<char>>::empty());
    assert(kept_tokens(t, 1) == t);
    assert(text::join(t, seq![' ']) == "⟪2⟫"@);
}

proof fn lemma_canonical_exclamation_mark()
    ensures
        mark_words("exclamation mark"@) == "⟪4⟫"@,
        mark_symbols("⟪4⟫"@) == "⟪4⟫"@,
        unmark("⟪4⟫"@) == "exclamation point"@,
{
    reveal_strlit(" ⟪1⟫ ");
    reveal_strlit(" ⟪2⟫ ");
    reveal_strlit(" ⟪3⟫ ");
    reveal_strlit(" ⟪4⟫ ");
    reveal_strlit(" ⟪5⟫ ");
    reveal_strlit(" ⟪6⟫ ");
    reveal_strlit(" ⟪7⟫ ");
    reveal_strlit(" ⟪8⟫ ");
    reveal_strlit("!");
    reveal_strlit(",");
    reveal_strlit("-");
    reveal_strlit("--");
    reveal_strlit(".");
    reveal_strlit("...");
    reveal_strlit(":");
    reveal_strlit(";");
    reveal_strlit("?");
    reveal_strlit("colon");
    reveal_strlit("comma");
    reveal_strlit("dash");
    reveal_strlit("ellipsis");
    reveal_strlit("exclamation mark");
    reveal_strlit("exclamation point");
    reveal_strlit("full stop");
    reveal_strlit("period");
    reveal_strlit("question mark");
    reveal_strlit("semi colon");
    reveal_strlit("semicolon");
    reveal_strlit("three dots");
    reveal_strlit("⟪1⟫");
    reveal_strlit("⟪2⟫");
    reveal_strlit("⟪3⟫");
    reveal_strlit("⟪4⟫");
    reveal_strlit("⟪5⟫");
    reveal_strlit("⟪6⟫");
    reveal_strlit("⟪7⟫");
    reveal_strlit("⟪8⟫");
    lemma_replace_absent("exclamation mark"@, "exclamation point"@, "⟪4⟫"@, 12);
    lemma_replace_exact("exclamation mark"@, "⟪4⟫"@);
    lemma_replace_absent("⟪4⟫"@, "question mark"@, "⟪3⟫"@, 0);
    lemma_replace_absent("⟪4⟫"@, "full stop"@, "⟪2⟫"@, 0);
    lemma_replace_absent("⟪4⟫"@, "semi colon"@, "⟪5⟫"@, 0);
    lemma_replace_absent("⟪4⟫"@, "three dots"@, "⟪8⟫"@, 0);
    lemma_replace_absent("⟪4⟫"@, "ellipsis"@, "⟪8⟫"@, 0);
    lemma_replace_absent("⟪4⟫"@, "semicolon"@, "⟪5⟫"@, 0);
    lemma_replace_absent("⟪4⟫"@, "period"@, "⟪2⟫"@, 0);
    lemma_replace_absent("⟪4⟫"@, "comma"@, "⟪1⟫"@, 0);
    lemma_replace_absent("⟪4⟫"@, "colon"@, "⟪6⟫"@, 0);
    lemma_replace_absent("⟪4⟫"@, "dash"@, "⟪7⟫"@, 0);
    lemma_replace_absent("⟪4⟫"@, "..."@, " ⟪8⟫ "@, 0);
    lemma_replace_absent("⟪4⟫"@, "--"@, " ⟪7⟫ "@, 0);
    lemma_replace_absent("⟪4⟫"@, ","@, " ⟪1⟫ "@, 0);
    lemma_replace_absent("⟪4⟫"@, "."@, " ⟪2⟫ "@, 0);
    lemma_replace_absent("⟪4⟫"@, "?"@, " ⟪3⟫ "@, 0);
    lemma_replace_absent("⟪4⟫"@, "!"@, " ⟪4⟫ "@, 0);
    lemma_replace_absent("⟪4⟫"@, ";"@, " ⟪5⟫ "@, 0);
    lemma_replace_absent("⟪4⟫"@, ":"@, " ⟪6⟫ "@, 0);
    lemma_replace_absent("⟪4⟫"@, "-"@, " ⟪7⟫ "@, 0);
    lemma_replace_absent("⟪4⟫"@, "⟪1⟫"@, "comma"@, 1);
    lemma_replace_absent("⟪4⟫"@, "⟪2⟫"@, "period"@, 1);
    lemma_replace_absent("⟪4⟫"@, "⟪3⟫"@, "question mark"@, 1);
    lemma_replace_exact("⟪4⟫"@, "exclamation point"@);
    lemma_replace_absent("exclamation point"@, "⟪5⟫"@, "semicolon"@, 0);
    lemma_replace_absent("exclamation point"@, "⟪6⟫"@, "colon"@, 0);
    lemma_replace_absent("exclamation point"@, "⟪7⟫"@, "dash"@, 0);
    lemma_replace_absent("exclamation point"@, "⟪8⟫"@, "ellipsis"@, 0);
}

proof fn lemma_spoken_exclamation_mark(a: Seq<char>, b: Seq<char>)
    requires
        ws_only(a),
        ws_only(b),
    ensures
        normalized_0_6b(a + "exclamation mark"@ + b) == "exclamation point"@,
{
    lemma_canonical_exclamation_mark();
    lemma_mark_words_pad(a, "exclamation mark"@, b);
    lemma_mark_symbols_pad(a, "⟪4⟫"@, b);
    reveal_strlit("⟪4⟫");
    reveal_strlit("⟪1⟫");
    lemma_words_padded_word(a, "⟪4⟫"@, b);
    let t = seq!["⟪4⟫"@];
    assert(kept_tokens(t, 0) == Seq::<Seq<char>>::empty());
    assert(kept_tokens(t, 1) == t);
    assert(text::join(t, seq![' ']) == "⟪4⟫"@);
}

proof fn lemma_canonical_exclamation_point()
    ensures
        mark_words("exclamation point"@) == "⟪4⟫"@,
        mark_symbols("⟪4⟫"@) == "⟪4⟫"@,
        unmark("⟪4⟫"@) == "exclamation point"@,
{
    reveal_strlit(" ⟪1⟫ ");
    reveal_strlit(" ⟪2⟫ ");
    reveal_strlit(" ⟪3⟫ ");
    reveal_strlit(" ⟪4⟫ ");
    reveal_strlit(" ⟪5⟫ ");
    reveal_strlit(" ⟪6⟫ ");
    reveal_strlit(" ⟪7⟫ ");
    reveal_strlit(" ⟪8⟫ ");
    reveal_strlit("!");
    reveal_strlit(",");
    reveal_strlit("-");
    reveal_strlit("--");
    reveal_strlit(".");
    reveal_strlit("...");
    reveal_strlit(":");
    reveal_strlit(";");
    reveal_strlit("?");
    reveal_strlit("colon");
    reveal_strlit("comma");
    reveal_strlit("dash");
    reveal_strlit("ellipsis");
    reveal_strlit("exclamation mark");
    reveal_strlit("exclamation point");
    reveal_strlit("full stop");
    reveal_strlit("period");
    reveal_strlit("question mark");
    reveal_strlit("semi colon");
    reveal_strlit("semicolon");
    reveal_strlit("three dots");
    reveal_strlit("⟪1⟫");
    reveal_strlit("⟪2⟫");
    reveal_strlit("⟪3⟫");
    reveal_strlit("⟪4⟫");
    reveal_strlit("⟪5⟫");
    reveal_strlit("⟪6⟫");
    reveal_strlit("⟪7⟫");
    reveal_strlit("⟪8⟫");
    lemma_replace_exact("exclamation point"@, "⟪4⟫"@);
    lemma_replace_absent("⟪4⟫"@, "exclamation mark"@, "⟪4⟫"@, 0);
    lemma_replace_absent("⟪4⟫"@, "question mark"@, "⟪3⟫"@, 0);
    lemma_replace_absent("⟪4⟫"@, "full stop"@, "⟪2⟫"@, 0);
    lemma_replace_absent("⟪4⟫"@, "semi colon"@, "⟪5⟫"@, 0);
    lemma_replace_absent("⟪4⟫"@, "three dots"@, "⟪8⟫"@, 0);
    lemma_replace_absent("⟪4⟫"@, "ellipsis"@, "⟪8⟫"@, 0);
    lemma_replace_absent("⟪4⟫"@, "semicolon"@, "⟪5⟫"@, 0);
    lemma_replace_absent("⟪4⟫"@, "period"@, "⟪2⟫"@, 0);
    lemma_replace_absent("⟪4⟫"@, "comma"@, "⟪1⟫"@, 0);
    lemma_replace_absent("⟪4⟫"@, "colon"@, "⟪6⟫"@, 0);
    lemma_replace_absent("⟪4⟫"@, "dash"@, "⟪7⟫"@, 0);
    lemma_replace_absent("⟪4⟫"@, "..."@, " ⟪8⟫ "@, 0);
    lemma_replace_absent("⟪4⟫"@, "--"@, " ⟪7⟫ "@, 0);
    lemma_replace_absent("⟪4⟫"@, ","@, " ⟪1⟫ "@, 0);
    lemma_replace_absent("⟪4⟫"@, "."@, " ⟪2⟫ "@, 0);
    lemma_replace_absent("⟪4⟫"@, "?"@, " ⟪3⟫ "@, 0);
    lemma_replace_absent("⟪4⟫"@, "!"@, " ⟪4⟫ "@, 0);
    lemma_replace_absent("⟪4⟫"@, ";"@, " ⟪5⟫ "@, 0);
    lemma_replace_absent("⟪4⟫"@, ":"@, " ⟪6⟫ "@, 0);
    lemma_replace_absent("⟪4⟫"@, "-"@, " ⟪7⟫ "@, 0);
    lemma_replace_absent("⟪4⟫"@, "⟪1⟫"@, "comma"@, 1);
    lemma_replace_absent("⟪4⟫"@, "⟪2⟫"@, "period"@, 1);
    lemma_replace_absent("⟪4⟫"@, "⟪3⟫"@, "question mark"@, 1);
    lemma_replace_exact("⟪4⟫"@, "exclamation point"@);
    lemma_replace_absent("exclamation point"@, "⟪5⟫"@, "semicolon"@, 0);
    lemma_replace_absent("exclamation point"@, "⟪6⟫"@, "colon"@, 0);
    lemma_replace_absent("exclamation point"@, "⟪7⟫"@, "dash"@, 0);
    lemma_replace_absent("exclamation point"@, "⟪8⟫"@, "ellipsis"@, 0);
}

proof fn lemma_spoken_exclamation_point(a: Seq<char>, b: Seq<char>)
    requires
        ws_only(a),
        ws_only(b),
    ensures
        normalized_0_6b(a + "exclamation point"@ + b) == "exclamation point"@,
{
    lemma_canonical_exclamation_point();
    lemma_mark_words_pad(a, "exclamation point"@, b);
    lemma_mark_symbols_pad(a, "⟪4⟫"@, b);
    reveal_strlit("⟪4⟫");
    reveal_strlit("⟪1⟫");
    lemma_words_padded_word(a, "⟪4⟫"@, b);
    let t = seq!["⟪4⟫"@];
    assert(kept_tokens(t, 0) == Seq::<Seq<char>>::empty());
    assert(kept_tokens(t, 1) == t);
    assert(text::join(t, seq![' ']) == "⟪4⟫"@);
}

proof fn lemma_canonical_three_dots()
    ensures
        mark_words("three dots"@) == "⟪8⟫"@,
        mark_symbols("⟪8⟫"@) == "⟪8⟫"@,
        unmark("⟪8⟫"@) == "ellipsis"@,
{
    reveal_strlit(" ⟪1⟫ ");
    reveal_strlit(" ⟪2⟫ ");
    reveal_strlit(" ⟪3⟫ ");
    reveal_strlit(" ⟪4⟫ ");
    reveal_strlit(" ⟪5⟫ ");
    reveal_strlit(" ⟪6⟫ ");
    reveal_strlit(" ⟪7⟫ ");
    reveal_strlit(" ⟪8⟫ ");
    reveal_strlit("!");
    reveal_strlit(",");
    reveal_strlit("-");
    reveal_strlit("--");
    reveal_strlit(".");
    reveal_strlit("...");
    reveal_strlit(":");
    reveal_strlit(";");
    reveal_strlit("?");
    reveal_strlit("colon");
    reveal_strlit("comma");
    reveal_strlit("dash");
    reveal_strlit("ellipsis");
    reveal_strlit("exclamation mark");
    reveal_strlit("exclamation point");
    reveal_strlit("full stop");
    reveal_strlit("period");
    reveal_strlit("question mark");
    reveal_strlit("semi colon");
    reveal_strlit("semicolon");
    reveal_strlit("three dots");
    reveal_strlit("⟪1⟫");
    reveal_strlit("⟪2⟫");
    reveal_strlit("⟪3⟫");
    reveal_strlit("⟪4⟫");
    reveal_strlit("⟪5⟫");
    reveal_strlit("⟪6⟫");
    reveal_strlit("⟪7⟫");
    reveal_strlit("⟪8⟫");
    lemma_replace_absent("three dots"@, "exclamation point"@, "⟪4⟫"@, 1);
    lemma_replace_absent("three dots"@, "exclamation mark"@, "⟪4⟫"@, 1);
    lemma_replace_absent("three dots"@, "question mark"@, "⟪3⟫"@, 0);
    lemma_replace_absent("three dots"@, "full stop"@, "⟪2⟫"@, 0);
    lemma_replace_absent("three dots"@, "semi colon"@, "⟪5⟫"@, 2);
    lemma_replace_exact("three dots"@, "⟪8⟫"@);
    lemma_replace_absent("⟪8⟫"@, "ellipsis"@, "⟪8⟫"@, 0);
    lemma_replace_absent("⟪8⟫"@, "semicolon"@, "⟪5⟫"@, 0);
    lemma_replace_absent("⟪8⟫"@, "period"@, "⟪2⟫"@, 0);
    lemma_replace_absent("⟪8⟫"@, "comma"@, "⟪1⟫"@, 0);
    lemma_replace_absent("⟪8⟫"@, "colon"@, "⟪6⟫"@, 0);
    lemma_replace_absent("⟪8⟫"@, "dash"@, "⟪7⟫"@, 0);
    lemma_replace_absent("⟪8⟫"@, "..."@, " ⟪8⟫ "@, 0);
    lemma_replace_absent("⟪8⟫"@, "--"@, " ⟪7⟫ "@, 0);
    lemma_replace_absent("⟪8⟫"@, ","@, " ⟪1⟫ "@, 0);
    lemma_replace_absent("⟪8⟫"@, "."@, " ⟪2⟫ "@, 0);
    lemma_replace_absent("⟪8⟫"@, "?"@, " ⟪3⟫ "@, 0);
    lemma_replace_absent("⟪8⟫"@, "!"@, " ⟪4⟫ "@, 0);
    lemma_replace_absent("⟪8⟫"@, ";"@, " ⟪5⟫ "@, 0);
    lemma_replace_absent("⟪8⟫"@, ":"@, " ⟪6⟫ "@, 0);
    lemma_replace_absent("⟪8⟫"@, "-"@, " ⟪7⟫ "@, 0);
    lemma_replace_absent("⟪8⟫"@, "⟪1⟫"@, "comma"@, 1);
    lemma_replace_absent("⟪8⟫"@, "⟪2⟫"@, "period"@, 1);
    lemma_replace_absent("⟪8⟫"@, "⟪3⟫"@, "question mark"@, 1);
    lemma_replace_absent("⟪8⟫"@, "⟪4⟫"@, "exclamation point"@, 1);
    lemma_replace_absent("⟪8⟫"@, "⟪5⟫"@, "semicolon"@, 1);
    lemma_replace_absent("⟪8⟫"@, "⟪6⟫"@, "colon"@, 1);
    lemma_replace_absent("⟪8⟫"@, "⟪7⟫"@, "dash"@, 1);
    lemma_replace_exact("⟪8⟫"@, "ellipsis"@);
}

proof fn lemma_spoken_three_dots(a: Seq<char>, b: Seq<char>)
    requires
        ws_only(a),
        ws_only(b),
    ensures
        normalized_0_6b(a + "three dots"@ + b) == "ellipsis"@,
{
    lemma_canonical_three_dots();
    lemma_mark_words_pad(a, "three dots"@, b);
    lemma_mark_symbols_pad(a, "⟪8⟫"@, b);
    reveal_strlit("⟪8⟫");
    reveal_strlit("⟪1⟫");
    lemma_words_padded_word(a, "⟪8⟫"@, b);
    let t = seq!["⟪8⟫"@];
    assert(kept_tokens(t, 0) == Seq::<Seq<char>>::empty());
    assert(kept_tokens(t, 1) == t);
    assert(text::join(t, seq![' ']) == "⟪8⟫"@);
}

proof fn lemma_canonical_ellipsis()
    ensures
        mark_words("ellipsis"@) == "⟪8⟫"@,
        mark_symbols("⟪8⟫"@) == "⟪8⟫"@,
        unmark("⟪8⟫"@) == "ellipsis"@,
{
    reveal_strlit(" ⟪1⟫ ");
    reveal_strlit(" ⟪2⟫ ");
    reveal_strlit(" ⟪3⟫ ");
    reveal_strlit(" ⟪4⟫ ");
    reveal_strlit(" ⟪5⟫ ");
    reveal_strlit(" ⟪6⟫ ");
    reveal_strlit(" ⟪7⟫ ");
    reveal_strlit(" ⟪8⟫ ");
    reveal_strlit("!");
    reveal_strlit(",");
    reveal_strlit("-");
    reveal_strlit("--");
    reveal_strlit(".");
    reveal_strlit("...");
    reveal_strlit(":");
    reveal_strlit(";");
    reveal_strlit("?");
    reveal_strlit("colon");
    reveal_strlit("comma");
    reveal_strlit("dash");
    reveal_strlit("ellipsis");
    reveal_strlit("exclamation mark");
    reveal_strlit("exclamation point");
    reveal_strlit("full stop");
    reveal_strlit("period");
    reveal_strlit("question mark");
    reveal_strlit("semi colon");
    reveal_strlit("semicolon");
    reveal_strlit("three dots");
    reveal_strlit("⟪1⟫");
    reveal_strlit("⟪2⟫");
    reveal_strlit("⟪3⟫");
    reveal_strlit("⟪4⟫");
    reveal_strlit("⟪5⟫");
    reveal_strlit("⟪6⟫");
    reveal_strlit("⟪7⟫");
    reveal_strlit("⟪8⟫");
    lemma_replace_absent("ellipsis"@, "exclamation point"@, "⟪4⟫"@, 1);
    lemma_replace_absent("ellipsis"@, "exclamation mark"@, "⟪4⟫"@, 1);
    lemma_replace_absent("ellipsis"@, "question mark"@, "⟪3⟫"@, 0);
    lemma_replace_absent("ellipsis"@, "full stop"@, "⟪2⟫"@, 0);
    lemma_replace_absent("ellipsis"@, "semi colon"@, "⟪5⟫"@, 2);
    lemma_replace_absent("ellipsis"@, "three dots"@, "⟪8⟫"@, 0);
    lemma_replace_exact("ellipsis"@, "⟪8⟫"@);
    lemma_replace_absent("⟪8⟫"@, "semicolon"@, "⟪5⟫"@, 0);
    lemma_replace_absent("⟪8⟫"@, "period"@, "⟪2⟫"@, 0);
    lemma_replace_absent("⟪8⟫"@, "comma"@, "⟪1⟫"@, 0);
    lemma_replace_absent("⟪8⟫"@, "colon"@, "⟪6⟫"@, 0);
    lemma_replace_absent("⟪8⟫"@, "dash"@, "⟪7⟫"@, 0);
    lemma_replace_absent("⟪8⟫"@, "..."@, " ⟪8⟫ "@, 0);
    lemma_replace_absent("⟪8⟫"@, "--"@, " ⟪7⟫ "@, 0);
    lemma_replace_absent("⟪8⟫"@, ","@, " ⟪1⟫ "@, 0);
    lemma_replace_absent("⟪8⟫"@, "."@, " ⟪2⟫ "@, 0);
    lemma_replace_absent("⟪8⟫"@, "?"@, " ⟪3⟫ "@, 0);
    lemma_replace_absent("⟪8⟫"@, "!"@, " ⟪4⟫ "@, 0);
    lemma_replace_absent("⟪8⟫"@, ";"@, " ⟪5⟫ "@, 0);
    lemma_replace_absent("⟪8⟫"@, ":"@, " ⟪6⟫ "@, 0);
    lemma_replace_absent("⟪8⟫"@, "-"@, " ⟪7⟫ "@, 0);
    lemma_replace_absent("⟪8⟫"@, "⟪1⟫"@, "comma"@, 1);
    lemma_replace_absent("⟪8⟫"@, "⟪2⟫"@, "period"@, 1);
    lemma_replace_absent("⟪8⟫"@, "⟪3⟫"@, "question mark"@, 1);
    lemma_replace_absent("⟪8⟫"@, "⟪4⟫"@, "exclamation point"@, 1);
    lemma_replace_absent("⟪8⟫"@, "⟪5⟫"@, "semicolon"@, 1);
    lemma_replace_absent("⟪8⟫"@, "⟪6⟫"@, "colon"@, 1);
    lemma_replace_absent("⟪8⟫"@, "⟪7⟫"@, "dash"@, 1);
    lemma_replace_exact("⟪8⟫"@, "ellipsis"@);
}

proof fn lemma_spoken_ellipsis(a: Seq<char>, b: Seq<char>)
    requires
        ws_only(a),
        ws_only(b),
    ensures
        normalized_0_6b(a + "ellipsis"@ + b) == "ellipsis"@,
{
    lemma_canonical_ellipsis();
    lemma_mark_words_pad(a, "ellipsis"@, b);
    lemma_mark_symbols_pad(a, "⟪8⟫"@, b);
    reveal_strlit("⟪8⟫");
    reveal_strlit("⟪1⟫");
    lemma_words_padded_word(a, "⟪8⟫"@, b);
    let t = seq!["⟪8⟫"@];
    assert(kept_tokens(t, 0) == Seq::<Seq<char>>::empty());
    assert(kept_tokens(t, 1) == t);
    assert(text::join(t, seq![' ']) == "⟪8⟫"@);
}

proof fn lemma_canonical_question_mark()
    ensures
        mark_words("question mark"@) == "⟪3⟫"@,
        mark_symbols("⟪3⟫"@) == "⟪3⟫"@,
        unmark("⟪3⟫"@) == "question mark"@,
{
    reveal_strlit(" ⟪1⟫ ");
    reveal_strlit(" ⟪2⟫ ");
    reveal_strlit(" ⟪3⟫ ");
    reveal_strlit(" ⟪4⟫ ");
    reveal_strlit(" ⟪5⟫ ");
    reveal_strlit(" ⟪6⟫ ");
    reveal_strlit(" ⟪7⟫ ");
    reveal_strlit(" ⟪8⟫ ");
    reveal_strlit("!");
    reveal_strlit(",");
    reveal_strlit("-");
    reveal_strlit("--");
    reveal_strlit(".");
    reveal_strlit("...");
    reveal_strlit(":");
    reveal_strlit(";");
    reveal_strlit("?");
    reveal_strlit("colon");
    reveal_strlit("comma");
    reveal_strlit("dash");
    reveal_strlit("ellipsis");
    reveal_strlit("exclamation mark");
    reveal_strlit("exclamation point");
    reveal_strlit("full stop");
    reveal_strlit("period");
    reveal_strlit("question mark");
    reveal_strlit("semi colon");
    reveal_strlit("semicolon");
    reveal_strlit("three dots");
    reveal_strlit("⟪1⟫");
    reveal_strlit("⟪2⟫");
    reveal_strlit("⟪3⟫");
    reveal_strlit("⟪4⟫");
    reveal_strlit("⟪5⟫");
    reveal_strlit("⟪6⟫");
    reveal_strlit("⟪7⟫");
    reveal_strlit("⟪8⟫");
    lemma_replace_absent("question mark"@, "exclamation point"@, "⟪4⟫"@, 1);
    lemma_replace_absent("question mark"@, "exclamation mark"@, "⟪4⟫"@, 1);
    lemma_replace_exact("question mark"@, "⟪3⟫"@);
    lemma_replace_absent("⟪3⟫"@, "full stop"@, "⟪2⟫"@, 0);
    lemma_replace_absent("⟪3⟫"@, "semi colon"@, "⟪5⟫"@, 0);
    lemma_replace_absent("⟪3⟫"@, "three dots"@, "⟪8⟫"@, 0);
    lemma_replace_absent("⟪3⟫"@, "ellipsis"@, "⟪8⟫"@, 0);
    lemma_replace_absent("⟪3⟫"@, "semicolon"@, "⟪5⟫"@, 0);
    lemma_replace_absent("⟪3⟫"@, "period"@, "⟪2⟫"@, 0);
    lemma_replace_absent("⟪3⟫"@, "comma"@, "⟪1⟫"@, 0);
    lemma_replace_absent("⟪3⟫"@, "colon"@, "⟪6⟫"@, 0);
    lemma_replace_absent("⟪3⟫"@, "dash"@, "⟪7⟫"@, 0);
    lemma_replace_absent("⟪3⟫"@, "..."@, " ⟪8⟫ "@, 0);
    lemma_replace_absent("⟪3⟫"@, "--"@, " ⟪7⟫ "@, 0);
    lemma_replace_absent("⟪3⟫"@, ","@, " ⟪1⟫ "@, 0);
    lemma_replace_absent("⟪3⟫"@, "."@, " ⟪2⟫ "@, 0);
    lemma_replace_absent("⟪3⟫"@, "?"@, " ⟪3⟫ "@, 0);
    lemma_replace_absent("⟪3⟫"@, "!"@, " ⟪4⟫ "@, 0);
    lemma_replace_absent("⟪3⟫"@, ";"@, " ⟪5⟫ "@, 0);
    lemma_replace_absent("⟪3⟫"@, ":"@, " ⟪6⟫ "@, 0);
    lemma_replace_absent("⟪3⟫"@, "-"@, " ⟪7⟫ "@, 0);
    lemma_replace_absent("⟪3⟫"@, "⟪1⟫"@, "comma"@, 1);
    lemma_replace_absent("⟪3⟫"@, "⟪2⟫"@, "period"@, 1);
    lemma_replace_exact("⟪3⟫"@, "question mark"@);
    lemma_replace_absent("question mark"@, "⟪4⟫"@, "exclamation point"@, 0);
    lemma_replace_absent("question mark"@, "⟪5⟫"@, "semicolon"@, 0);
    lemma_replace_absent("question mark"@, "⟪6⟫"@, "colon"@, 0);
    lemma_replace_absent("question mark"@, "⟪7⟫"@, "dash"@, 0);
    lemma_replace_absent("question mark"@, "⟪8⟫"@, "ellipsis"@, 0);
}

proof fn lemma_spoken_question_mark(a: Seq<char>, b: Seq<char>)
    requires
        ws_only(a),
        ws_only(b),
    ensures
        normalized_0_6b(a + "question mark"@ + b) == "question mark"@,
{
    lemma_canonical_question_mark();
    lemma_mark_words_pad(a, "question mark"@, b);
    lemma_mark_symbols_pad(a, "⟪3⟫"@, b);
    reveal_strlit("⟪3⟫");
    reveal_strlit("⟪1⟫");
    lemma_words_padded_word(a, "⟪3⟫"@, b);
    let t = seq!["⟪3⟫"@];
    assert(kept_tokens(t, 0) == Seq::<Seq<char>>::empty());
    assert(kept_tokens(t, 1) == t);
    assert(text::join(t, seq![' ']) == "⟪3⟫"@);
}

proof fn lemma_canonical_comma()
    ensures
        mark_words("comma"@) == "⟪1⟫"@,
        mark_symbols("⟪1⟫"@) == "⟪1⟫"@,
        unmark("⟪1⟫"@) == "comma"@,
{
    reveal_strlit(" ⟪1⟫ ");
    reveal_strlit(" ⟪2⟫ ");
    reveal_strlit(" ⟪3⟫ ");
    reveal_strlit(" ⟪4⟫ ");
    reveal_strlit(" ⟪5⟫ ");
    reveal_strlit(" ⟪6⟫ ");
    reveal_strlit(" ⟪7⟫ ");
    reveal_strlit(" ⟪8⟫ ");
    reveal_strlit("!");
    reveal_strlit(",");
    reveal_strlit("-");
    reveal_strlit("--");
    reveal_strlit(".");
    reveal_strlit("...");
    reveal_strlit(":");
    reveal_strlit(";");
    reveal_strlit("?");
    reveal_strlit("colon");
    reveal_strlit("comma");
    reveal_strlit("dash");
    reveal_strlit("ellipsis");
    reveal_strlit("exclamation mark");
    reveal_strlit("exclamation point");
    reveal_strlit("full stop");
    reveal_strlit("period");
    reveal_strlit("question mark");
    reveal_strlit("semi colon");
    reveal_strlit("semicolon");
    reveal_strlit("three dots");
    reveal_strlit("⟪1⟫");
    reveal_strlit("⟪2⟫");
    reveal_strlit("⟪3⟫");
    reveal_strlit("⟪4⟫");
    reveal_strlit("⟪5⟫");
    reveal_strlit("⟪6⟫");
    reveal_strlit("⟪7⟫");
    reveal_strlit("⟪8⟫");
    lemma_replace_absent("comma"@, "exclamation point"@, "⟪4⟫"@, 0);
    lemma_replace_absent("comma"@, "exclamation mark"@, "⟪4⟫"@, 0);
    lemma_replace_absent("comma"@, "question mark"@, "⟪3⟫"@, 0);
    lemma_replace_absent("comma"@, "full stop"@, "⟪2⟫"@, 0);
    lemma_replace_absent("comma"@, "semi colon"@, "⟪5⟫"@, 0);
    lemma_replace_absent("comma"@, "three dots"@, "⟪8⟫"@, 0);
    lemma_replace_absent("comma"@, "ellipsis"@, "⟪8⟫"@, 0);
    lemma_replace_absent("comma"@, "semicolon"@, "⟪5⟫"@, 0);
    lemma_replace_absent("comma"@, "period"@, "⟪2⟫"@, 0);
    lemma_replace_exact("comma"@, "⟪1⟫"@);
    lemma_replace_absent("⟪1⟫"@, "colon"@, "⟪6⟫"@, 0);
    lemma_replace_absent("⟪1⟫"@, "dash"@, "⟪7⟫"@, 0);
    lemma_replace_absent("⟪1⟫"@, "..."@, " ⟪8⟫ "@, 0);
    lemma_replace_absent("⟪1⟫"@, "--"@, " ⟪7⟫ "@, 0);
    lemma_replace_absent("⟪1⟫"@, ","@, " ⟪1⟫ "@, 0);
    lemma_replace_absent("⟪1⟫"@, "."@, " ⟪2⟫ "@, 0);
    lemma_replace_absent("⟪1⟫"@, "?"@, " ⟪3⟫ "@, 0);
    lemma_replace_absent("⟪1⟫"@, "!"@, " ⟪4⟫ "@, 0);
    lemma_replace_absent("⟪1⟫"@, ";"@, " ⟪5⟫ "@, 0);
    lemma_replace_absent("⟪1⟫"@, ":"@, " ⟪6⟫ "@, 0);
    lemma_replace_absent("⟪1⟫"@, "-"@, " ⟪7⟫ "@, 0);
    lemma_replace_exact("⟪1⟫"@, "comma"@);
    lemma_replace_absent("comma"@, "⟪2⟫"@, "period"@, 0);
    lemma_replace_absent("comma"@, "⟪3⟫"@, "question mark"@, 0);
    lemma_replace_absent("comma"@, "⟪4⟫"@, "exclamation point"@, 0);
    lemma_replace_absent("comma"@, "⟪5⟫"@, "semicolon"@, 0);
    lemma_replace_absent("comma"@, "⟪6⟫"@, "colon"@, 0);
    lemma_replace_absent("comma"@, "⟪7⟫"@, "dash"@, 0);
    lemma_replace_absent("comma"@, "⟪8⟫"@, "ellipsis"@, 0);
}

proof fn lemma_spoken_comma(a: Seq<char>, b: Seq<char>)
    requires
        ws_only(a),
        ws_only(b),
    ensures
        normalized_0_6b(a + "comma"@ + b) == "comma"@,
{
    lemma_canonical_comma();
    lemma_mark_words_pad(a, "comma"@, b);
    lemma_mark_symbols_pad(a, "⟪1⟫"@, b);
    reveal_strlit("⟪1⟫");
    reveal_strlit("⟪1⟫");
    lemma_words_padded_word(a, "⟪1⟫"@, b);
    let t = seq!["⟪1⟫"@];
    assert(kept_tokens(t, 0) == Seq::<Seq<char>>::empty());
    assert(kept_tokens(t, 1) == t);
    assert(text::join(t, seq![' ']) == "⟪1⟫"@);
}

proof fn lemma_canonical_colon()
    ensures
        mark_words("colon"@) == "⟪6⟫"@,
        mark_symbols("⟪6⟫"@) == "⟪6⟫"@,
        unmark("⟪6⟫"@) == "colon"@,
{
    reveal_strlit(" ⟪1⟫ ");
    reveal_strlit(" ⟪2⟫ ");
    reveal_strlit(" ⟪3⟫ ");
    reveal_strlit(" ⟪4⟫ ");
    reveal_strlit(" ⟪5⟫ ");
    reveal_strlit(" ⟪6⟫ ");
    reveal_strlit(" ⟪7⟫ ");
    reveal_strlit(" ⟪8⟫ ");
    reveal_strlit("!");
    reveal_strlit(",");
    reveal_strlit("-");
    reveal_strlit("--");
    reveal_strlit(".");
    reveal_strlit("...");
    reveal_strlit(":");
    reveal_strlit(";");
    reveal_strlit("?");
    reveal_strlit("colon");
    reveal_strlit("comma");
    reveal_strlit("dash");
    reveal_strlit("ellipsis");
    reveal_strlit("exclamation mark");
    reveal_strlit("exclamation point");
    reveal_strlit("full stop");
    reveal_strlit("period");
    reveal_strlit("question mark");
    reveal_strlit("semi colon");
    reveal_strlit("semicolon");
    reveal_strlit("three dots");
    reveal_strlit("⟪1⟫");
    reveal_strlit("⟪2⟫");
    reveal_strlit("⟪3⟫");
    reveal_strlit("⟪4⟫");
    reveal_strlit("⟪5⟫");
    reveal_strlit("⟪6⟫");
    reveal_strlit("⟪7⟫");
    reveal_strlit("⟪8⟫");
    lemma_replace_absent("colon"@, "exclamation point"@, "⟪4⟫"@, 0);
    lemma_replace_absent("colon"@, "exclamation mark"@, "⟪4⟫"@, 0);
    lemma_replace_absent("colon"@, "question mark"@, "⟪3⟫"@, 0);
    lemma_replace_absent("colon"@, "full stop"@, "⟪2⟫"@, 0);
    lemma_replace_absent("colon"@, "semi colon"@, "⟪5⟫"@, 0);
    lemma_replace_absent("colon"@, "three dots"@, "⟪8⟫"@, 0);
    lemma_replace_absent("colon"@, "ellipsis"@, "⟪8⟫"@, 0);
    lemma_replace_absent("colon"@, "semicolon"@, "⟪5⟫"@, 0);
    lemma_replace_absent("colon"@, "period"@, "⟪2⟫"@, 0);
    lemma_replace_absent("colon"@, "comma"@, "⟪1⟫"@, 2);
    lemma_replace_exact("colon"@, "⟪6⟫"@);
    lemma_replace_absent("⟪6⟫"@, "dash"@, "⟪7⟫"@, 0);
    lemma_replace_absent("⟪6⟫"@, "..."@, " ⟪8⟫ "@, 0);
    lemma_replace_absent("⟪6⟫"@, "--"@, " ⟪7⟫ "@, 0);
    lemma_replace_absent("⟪6⟫"@, ","@, " ⟪1⟫ "@, 0);
    lemma_replace_absent("⟪6⟫"@, "."@, " ⟪2⟫ "@, 0);
    lemma_replace_absent("⟪6⟫"@, "?"@, " ⟪3⟫ "@, 0);
    lemma_replace_absent("⟪6⟫"@, "!"@, " ⟪4⟫ "@, 0);
    lemma_replace_absent("⟪6⟫"@, ";"@, " ⟪5⟫ "@, 0);
    lemma_replace_absent("⟪6⟫"@, ":"@, " ⟪6⟫ "@, 0);
    lemma_replace_absent("⟪6⟫"@, "-"@, " ⟪7⟫ "@, 0);
    lemma_replace_absent("⟪6⟫"@, "⟪1⟫"@, "comma"@, 1);
    lemma_replace_absent("⟪6⟫"@, "⟪2⟫"@, "period"@, 1);
    lemma_replace_absent("⟪6⟫"@, "⟪3⟫"@, "question mark"@, 1);
    lemma_replace_absent("⟪6⟫"@, "⟪4⟫"@, "exclamation point"@, 1);
    lemma_replace_absent("⟪6⟫"@, "⟪5⟫"@, "semicolon"@, 1);
    lemma_replace_exact("⟪6⟫"@, "colon"@);
    lemma_replace_absent("colon"@, "⟪7⟫"@, "dash"@, 0);
    lemma_replace_absent("colon"@, "⟪8⟫"@, "ellipsis"@, 0);
}

proof fn lemma_spoken_colon(a: Seq<char>, b: Seq<char>)
    requires
        ws_only(a),
        ws_only(b),
    ensures
        normalized_0_6b(a + "colon"@ + b) == "colon"@,
{
    lemma_canonical_colon();
    lemma_mark_words_pad(a, "colon"@, b);
    lemma_mark_symbols_pad(a, "⟪6⟫"@, b);
    reveal_strlit("⟪6⟫");
    reveal_strlit("⟪1⟫");
    lemma_words_padded_word(a, "⟪6⟫"@, b);
    let t = seq!["⟪6⟫"@];
    assert(kept_tokens(t, 0) == Seq::<Seq<char>>::empty());
    assert(kept_tokens(t, 1) == t);
    assert(text::join(t, seq![' ']) == "⟪6⟫"@);
}

proof fn lemma_canonical_dash()
    ensures
        mark_words("dash"@) == "⟪7⟫"@,
        mark_symbols("⟪7⟫"@) == "⟪7⟫"@,
        unmark("⟪7⟫"@) == "dash"@,
{
    reveal_strlit(" ⟪1⟫ ");
    reveal_strlit(" ⟪2⟫ ");
    reveal_strlit(" ⟪3⟫ ");
    reveal_strlit(" ⟪4⟫ ");
    reveal_strlit(" ⟪5⟫ ");
    reveal_strlit(" ⟪6⟫ ");
    reveal_strlit(" ⟪7⟫ ");
    reveal_strlit(" ⟪8⟫ ");
    reveal_strlit("!");
    reveal_strlit(",");
    reveal_strlit("-");
    reveal_strlit("--");
    reveal_strlit(".");
    reveal_strlit("...");
    reveal_strlit(":");
    reveal_strlit(";");
    reveal_strlit("?");
    reveal_strlit("colon");
    reveal_strlit("comma");
    reveal_strlit("dash");
    reveal_strlit("ellipsis");
    reveal_strlit("exclamation mark");
    reveal_strlit("exclamation point");
    reveal_strlit("full stop");
    reveal_strlit("period");
    reveal_strlit("question mark");
    reveal_strlit("semi colon");
    reveal_strlit("semicolon");
    reveal_strlit("three dots");
    reveal_strlit("⟪1⟫");
    reveal_strlit("⟪2⟫");
    reveal_strlit("⟪3⟫");
    reveal_strlit("⟪4⟫");
    reveal_strlit("⟪5⟫");
    reveal_strlit("⟪6⟫");
    reveal_strlit("⟪7⟫");
    reveal_strlit("⟪8⟫");
    lemma_replace_absent("dash"@, "exclamation point"@, "⟪4⟫"@, 0);
    lemma_replace_absent("dash"@, "exclamation mark"@, "⟪4⟫"@, 0);
    lemma_replace_absent("dash"@, "question mark"@, "⟪3⟫"@, 0);
    lemma_replace_absent("dash"@, "full stop"@, "⟪2⟫"@, 0);
    lemma_replace_absent("dash"@, "semi colon"@, "⟪5⟫"@, 1);
    lemma_replace_absent("dash"@, "three dots"@, "⟪8⟫"@, 0);
    lemma_replace_absent("dash"@, "ellipsis"@, "⟪8⟫"@, 0);
    lemma_replace_absent("dash"@, "semicolon"@, "⟪5⟫"@, 1);
    lemma_replace_absent("dash"@, "period"@, "⟪2⟫"@, 0);
    lemma_replace_absent("dash"@, "comma"@, "⟪1⟫"@, 0);
    lemma_replace_absent("dash"@, "colon"@, "⟪6⟫"@, 0);
    lemma_replace_exact("dash"@, "⟪7⟫"@);
    lemma_replace_absent("⟪7⟫"@, "..."@, " ⟪8⟫ "@, 0);
    lemma_replace_absent("⟪7⟫"@, "--"@, " ⟪7⟫ "@, 0);
    lemma_replace_absent("⟪7⟫"@, ","@, " ⟪1⟫ "@, 0);
    lemma_replace_absent("⟪7⟫"@, "."@, " ⟪2⟫ "@, 0);
    lemma_replace_absent("⟪7⟫"@, "?"@, " ⟪3⟫ "@, 0);
    lemma_replace_absent("⟪7⟫"@, "!"@, " ⟪4⟫ "@, 0);
    lemma_replace_absent("⟪7⟫"@, ";"@, " ⟪5⟫ "@, 0);
    lemma_replace_absent("⟪7⟫"@, ":"@, " ⟪6⟫ "@, 0);
    lemma_replace_absent("⟪7⟫"@, "-"@, " ⟪7⟫ "@, 0);
    lemma_replace_absent("⟪7⟫"@, "⟪1⟫"@, "comma"@, 1);
    lemma_replace_absent("⟪7⟫"@, "⟪2⟫"@, "period"@, 1);
    lemma_replace_absent("⟪7⟫"@, "⟪3⟫"@, "question mark"@, 1);
    lemma_replace_absent("⟪7⟫"@, "⟪4⟫"@, "exclamation point"@, 1);
    lemma_replace_absent("⟪7⟫"@, "⟪5⟫"@, "semicolon"@, 1);
    lemma_replace_absent("⟪7⟫"@, "⟪6⟫"@, "colon"@, 1);
    lemma_replace_exact("⟪7⟫"@, "dash"@);
    lemma_replace_absent("dash"@, "⟪8⟫"@, "ellipsis"@, 0);
}

proof fn lemma_spoken_dash(a: Seq<char>, b: Seq<char>)
    requires
        ws_only(a),
        ws_only(b),
    ensures
        normalized_0_6b(a + "dash"@ + b) == "dash"@,
{
    lemma_canonical_dash();
    lemma_mark_words_pad(a, "dash"@, b);
    lemma_mark_symbols_pad(a, "⟪7⟫"@, b);
    reveal_strlit("⟪7⟫");
    reveal_strlit("⟪1⟫");
    lemma_words_padded_word(a, "⟪7⟫"@, b);
    let t = seq!["⟪7⟫"@];
    assert(kept_tokens(t, 0) == Seq::<Seq<char>>::empty());
    assert(kept_tokens(t, 1) == t);
    assert(text::join(t, seq![' ']) == "⟪7⟫"@);
}

/// Spoken punctuation comes out as its own canonical word, whatever
/// whitespace surrounds it: "semi colon" and "semicolon" as "semicolon",
/// "full stop" and "period" as "period", "exclamation mark" and
/// "exclamation point" as "exclamation point", "three dots" and "ellipsis"
/// as "ellipsis", and "question mark", "comma", "colon" and "dash" as
/// themselves.
pub proof fn lemma_spoken_punctuation_canonical(a: Seq<char>, b: Seq<char>)
    requires
        ws_only(a),
        ws_only(b),
    ensures
        normalized_0_6b(a + "semi colon"@ + b) == "semicolon"@,
        normalized_0_6b(a + "semicolon"@ + b) == "semicolon"@,
        normalized_0_6b(a + "full stop"@ + b) == "period"@,
        normalized_0_6b(a + "period"@ + b) == "period"@,
        normalized_0_6b(a + "exclamation mark"@ + b) == "exclamation point"@,
        normalized_0_6b(a + "exclamation point"@ + b) == "exclamation point"@,
        normalized_0_6b(a + "three dots"@ + b) == "ellipsis"@,
        normalized_0_6b(a + "ellipsis"@ + b) == "ellipsis"@,
        normalized_0_6b(a + "question mark"@ + b) == "question mark"@,
        normalized_0_6b(a + "comma"@ + b) == "comma"@,
        normalized_0_6b(a + "colon"@ + b) == "colon"@,
        normalized_0_6b(a + "dash"@ + b) == "dash"@,
{
    lemma_spoken_semi_colon(a, b);
    lemma_spoken_semicolon(a, b);
    lemma_spoken_full_stop(a, b);
    lemma_spoken_period(a, b);
    lemma_spoken_exclamation_mark(a, b);
    lemma_spoken_exclamation_point(a, b);
    lemma_spoken_three_dots(a, b);
    lemma_spoken_ellipsis(a, b);
    lemma_spoken_question_mark(a, b);
    lemma_spoken_comma(a, b);
    lemma_spoken_colon(a, b);
    lemma_spoken_dash(a, b);
}

} // verus!
