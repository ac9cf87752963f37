//! Byte patterns with wildcards, and where they match.

use vstd::prelude::*;

use crate::seqs;
use crate::text;

verus! {

/// A byte pattern; a byte whose mask is `false` matches any byte.
#[derive(Debug, Clone, PartialEq, Eq)]
pub struct AobPattern {
    pub bytes: Vec<u8>,
    pub mask: Vec<bool>,
}

#[verifier::ext_equal]
pub struct AobPatternView {
    pub bytes: Seq<u8>,
    pub mask: Seq<bool>,
}

impl DeepView for AobPattern {
    type V = AobPatternView;

    open spec fn deep_view(&self) -> AobPatternView {
        AobPatternView { bytes: self.bytes@, mask: self.mask@ }
    }
}

#[derive(Debug, Clone, PartialEq, Eq)]
pub enum ParseAobError {
    InvalidHexToken { token: String },
}

#[verifier::ext_equal]
pub enum ParseAobErrorView {
    InvalidHexToken { token: Seq<char> },
}

impl DeepView for ParseAobError {
    type V = ParseAobErrorView;

    open spec fn deep_view(&self) -> ParseAobErrorView {
        match *self {
            ParseAobError::InvalidHexToken { token } => ParseAobErrorView::InvalidHexToken {
                token: token@,
            },
        }
    }
}

/// The byte and mask that one word writes: `?` and `??` are wildcards, and
/// anything else is a hexadecimal byte.
pub open spec fn word_byte(word: Seq<char>) -> Option<(u8, bool)> {
    if word == "??"@ || word == "?"@ {
        Some((0u8, false))
    } else {
        match text::number_of(word, 16, 255) {
            Ok(value) => Some((value as u8, true)),
            Err(_) => None,
        }
    }
}

/// The pattern that a list of words writes; the first word that is no byte is
/// the error.
pub open spec fn words_pattern(words: Seq<Seq<char>>) -> Result<AobPatternView, ParseAobErrorView>
    decreases words.len(),
{
    if words.len() == 0 {
        Ok(AobPatternView { bytes: Seq::empty(), mask: Seq::empty() })
    } else {
        match words_pattern(words.drop_last()) {
            Ok(before) => match word_byte(words.last()) {
                Some((byte, must_match)) => Ok(
                    AobPatternView {
                        bytes: before.bytes.push(byte),
                        mask: before.mask.push(must_match),
                    },
                ),
                None => Err(ParseAobErrorView::InvalidHexToken { token: words.last() }),
            },
            Err(error) => Err(error),
        }
    }
}

/// An error among the first words is the error of the whole list.
proof fn lemma_words_pattern_error(words: Seq<Seq<char>>, n: int)
    requires
        0 <= n <= words.len(),
        words_pattern(words.take(n)) is Err,
    ensures
        words_pattern(words) == words_pattern(words.take(n)),
    decreases words.len() - n,
{
    if n < words.len() {
        assert(words.take(n + 1).drop_last() == words.take(n));
        lemma_words_pattern_error(words, n + 1);
    } else {
        assert(words.take(n) == words);
    }
}

/// Whether a character list is the given wildcard.
fn is_wildcard(word: &[char]) -> (wildcard: bool)
    ensures
        wildcard == (word@ == "??"@ || word@ == "?"@),
{
    proof {
        reveal_strlit("??");
        reveal_strlit("?");
        if word@.len() == 1 && word@[0] == '?' {
            assert(word@ == "?"@);
        }
        if word@.len() == 2 && word@[0] == '?' && word@[1] == '?' {
            assert(word@ == "??"@);
        }
    }
    (word.len() == 1 && word[0] == '?') || (word.len() == 2 && word[0] == '?' && word[1] == '?')
}

/// Reads a pattern such as `48 8B ?? 44`.
pub fn parse_aob(pattern: &str) -> (result: Result<AobPattern, ParseAobError>)
    ensures
        match result {
            Ok(parsed) => words_pattern(text::words(pattern@)) == Ok::<
                AobPatternView,
                ParseAobErrorView,
            >(parsed.deep_view()),
            Err(error) => words_pattern(text::words(pattern@)) == Err::<
                AobPatternView,
                ParseAobErrorView,
            >(error.deep_view()),
        },
{
    let words = text::split_words(pattern);
    let ghost all = words.deep_view();
    let mut bytes: Vec<u8> = Vec::new();
    let mut mask: Vec<bool> = Vec::new();
    let mut i: usize = 0;
    while i < words.len()
        invariant
            i <= words.len(),
            all == words.deep_view(),
            all == text::words(pattern@),
            words_pattern(all.take(i as int)) == Ok::<AobPatternView, ParseAobErrorView>(
                AobPatternView { bytes: bytes@, mask: mask@ },
            ),
        decreases words.len() - i,
    {
        let word = words[i].as_slice();
        proof {
            assert(all.take(i + 1).drop_last() == all.take(i as int));
            assert(word@ == all[i as int]);
            assert(all.take(i + 1).last() == word@);
        }
        if is_wildcard(word) {
            bytes.push(0x00);
            mask.push(false);
        } else {
            let Ok(value) = text::parse_number(word, 16, 255) else {
                let token = text::text_of(word);
                proof {
                    lemma_words_pattern_error(all, i + 1);
                }
                return Err(ParseAobError::InvalidHexToken { token });
            };
            bytes.push(value as u8);
            mask.push(true);
        }
        i += 1;
    }
    proof {
        assert(all.take(all.len() as int) == all);
    }
    Ok(AobPattern { bytes, mask })
}

/// Whether the pattern matches at an offset: every byte that must match does.
pub open spec fn matches_at(data: Seq<u8>, pattern: AobPatternView, offset: int) -> bool {
    forall|i: int|
        0 <= i < pattern.bytes.len() && i < pattern.mask.len() && #[trigger] pattern.mask[i]
            ==> data[offset + i] == pattern.bytes[i]
}

/// The number of offsets at which the pattern fits into the data.
pub open spec fn placements(data: Seq<u8>, pattern: AobPatternView) -> int {
    if pattern.bytes.len() == 0 {
        0
    } else {
        data.len() - pattern.bytes.len() + 1
    }
}

/// The offset itself, where the pattern matches there.
pub open spec fn match_at(data: Seq<u8>, pattern: AobPatternView) -> spec_fn(int) -> Seq<usize> {
    |offset: int|
        if matches_at(data, pattern, offset) {
            seq![offset as usize]
        } else {
            Seq::empty()
        }
}

/// Every offset at which the pattern matches, in ascending order.
pub open spec fn aob_matches(data: Seq<u8>, pattern: AobPatternView) -> Seq<usize> {
    seqs::flat_below(placements(data, pattern), match_at(data, pattern))
}

/// The matches are exactly the offsets at which a non-empty pattern fits and
/// matches, each once and in ascending order.
pub proof fn law_aob_matches_exact(data: Seq<u8>, pattern: AobPatternView)
    requires
        data.len() <= usize::MAX,
    ensures
        forall|offset: usize|
            #[trigger] aob_matches(data, pattern).contains(offset) <==> pattern.bytes.len() > 0
                && offset + pattern.bytes.len() <= data.len() && matches_at(
                data,
                pattern,
                offset as int,
            ),
        forall|i: int, j: int|
            0 <= i < j < aob_matches(data, pattern).len() ==> aob_matches(data, pattern)[i]
                < aob_matches(data, pattern)[j],
{
    lemma_matches_below(data, pattern, placements(data, pattern));
}

proof fn lemma_matches_below(data: Seq<u8>, pattern: AobPatternView, n: int)
    requires
        n <= placements(data, pattern),
        data.len() <= usize::MAX,
    ensures
        forall|offset: usize|
            #[trigger] seqs::flat_below(n, match_at(data, pattern)).contains(offset) <==> offset < n
                && matches_at(data, pattern, offset as int),
        forall|i: int, j: int|
            0 <= i < j < seqs::flat_below(n, match_at(data, pattern)).len() ==> seqs::flat_below(
                n,
                match_at(data, pattern),
            )[i] < seqs::flat_below(n, match_at(data, pattern))[j],
    decreases n,
{
    let f = match_at(data, pattern);
    let whole = seqs::flat_below(n, f);
    if n > 0 {
        lemma_matches_below(data, pattern, n - 1);
        let front = seqs::flat_below(n - 1, f);
        assert(whole == front + f(n - 1));
        assert forall|offset: usize| whole.contains(offset) <==> offset < n && matches_at(
            data,
            pattern,
            offset as int,
        ) by {
            if whole.contains(offset) {
                let i = whole.index_of(offset);
                if i < front.len() {
                    assert(front.contains(front[i]));
                }
            }
            if offset < n && matches_at(data, pattern, offset as int) {
                if offset < n - 1 {
                    assert(front.contains(offset));
                    let i = front.index_of(offset);
                    assert(whole[i] == offset);
                } else {
                    assert(whole.last() == offset);
                }
            }
        }
        assert forall|i: int, j: int| 0 <= i < j < whole.len() implies whole[i] < whole[j] by {
            if j == front.len() {
                assert(front.contains(front[i]));
                assert(whole[j] == n - 1);
                assert(whole[i] == front[i]);
            }
        }
    }
}

/// The offsets at which the pattern matches.
pub fn match_aob(data: &[u8], pattern: &AobPattern) -> (hits: Vec<usize>)
    ensures
        hits@ == aob_matches(data@, pattern.deep_view()),
{
    let hits = match_aob_limited(data, pattern, usize::MAX);
    proof {
        assert(data.len() <= usize::MAX);
        lemma_match_count(data@, pattern.deep_view(), placements(data@, pattern.deep_view()));
    }
    hits
}

/// There are at most as many matches as offsets.
proof fn lemma_match_count(data: Seq<u8>, pattern: AobPatternView, n: int)
    ensures
        seqs::flat_below(n, match_at(data, pattern)).len() <= (if n < 0 {
            0
        } else {
            n
        }),
    decreases n,
{
    if n > 0 {
        lemma_match_count(data, pattern, n - 1);
    }
}

/// The first `max_results` offsets at which the pattern matches.
pub fn match_aob_limited(data: &[u8], pattern: &AobPattern, max_results: usize) -> (hits: Vec<
    usize,
>)
    ensures
        hits@ == seqs::capped(aob_matches(data@, pattern.deep_view()), max_results as int),
{
    let pattern_len: usize = pattern.bytes.len();
    let ghost view = pattern.deep_view();
    if max_results == 0 || pattern_len == 0 || data.len() < pattern_len {
        return Vec::new();
    }
    let ghost f = match_at(data@, view);
    let count: usize = data.len() - pattern_len;
    let mut hits: Vec<usize> = Vec::new();
    let mut offset: usize = 0;
    while offset <= count && hits.len() < max_results
        invariant
            view == pattern.deep_view(),
            f == match_at(data@, view),
            pattern_len == view.bytes.len(),
            pattern_len > 0,
            count + pattern_len == data.len(),
            offset <= count + 1,
            hits@ == seqs::capped(seqs::flat_below(offset as int, f), max_results as int),
        decreases count + 1 - offset,
    {
        let matched = matches_here(data, pattern, offset);
        proof {
            seqs::lemma_capped_push(
                seqs::flat_below(offset as int, f),
                offset,
                max_results as int,
            );
        }
        if matched {
            hits.push(offset);
        } else {
            proof {
                assert(seqs::flat_below(offset as int, f) + f(offset as int) == seqs::flat_below(
                    offset as int,
                    f,
                ));
            }
        }
        offset += 1;
    }
    proof {
        if hits@.len() >= max_results {
            seqs::lemma_flat_below_full(
                Seq::<usize>::empty(),
                offset as int,
                count + 1,
                f,
                max_results as int,
            );
            assert(Seq::<usize>::empty() + seqs::flat_below(offset as int, f) == seqs::flat_below(
                offset as int,
                f,
            ));
            assert(Seq::<usize>::empty() + seqs::flat_below(count + 1, f) == seqs::flat_below(
                count + 1,
                f,
            ));
        }
    }
    hits
}

/// Whether the pattern matches at an offset at which it fits.
fn matches_here(data: &[u8], pattern: &AobPattern, offset: usize) -> (matched: bool)
    requires
        offset + pattern.bytes@.len() <= data@.len(),
    ensures
        matched == matches_at(data@, pattern.deep_view(), offset as int),
{
    let ghost view = pattern.deep_view();
    let mut i: usize = 0;
    while i < pattern.bytes.len() && i < pattern.mask.len()
        invariant
            view == pattern.deep_view(),
            offset + pattern.bytes@.len() <= data.len(),
            i <= pattern.bytes@.len(),
            forall|j: int| 0 <= j < i && #[trigger] view.mask[j] ==> data@[offset + j]
                == view.bytes[j],
        decreases pattern.bytes@.len() - i,
    {
        if pattern.mask[i] && data[offset + i] != pattern.bytes[i] {
            proof {
                assert(view.mask[i as int]);
            }
            return false;
        }
        i += 1;
    }
    true
}

/// A pattern has a place for each of its words: any byte fits where the word is `?` or `??`,
/// and else the byte that the word writes in hexadecimal. The first word that writes none is
/// the error.
pub proof fn law_words_pattern(words: Seq<Seq<char>>)
    ensures
        match words_pattern(words) {
            Ok(pattern) => pattern.bytes.len() == words.len() && pattern.mask.len() == words.len()
                && forall|i: int|
                0 <= i < words.len() ==> if (#[trigger] words[i]) == "?"@ || words[i] == "??"@ {
                    !pattern.mask[i]
                } else {
                    pattern.mask[i] && text::number_of(words[i], 16, 255) == Ok::<
                        int,
                        text::NumberError,
                    >(pattern.bytes[i] as int)
                },
            Err(ParseAobErrorView::InvalidHexToken { token }) => exists|i: int|
                0 <= i < words.len() && (#[trigger] words[i]) == token && token != "?"@ && token
                    != "??"@ && text::number_of(token, 16, 255) is Err && forall|j: int|
                    0 <= j < i ==> (#[trigger] words[j]) == "?"@ || words[j] == "??"@
                        || text::number_of(words[j], 16, 255) is Ok,
        },
    decreases words.len(),
{
    if words.len() > 0 {
        let front = words.drop_last();
        let k = words.len() - 1;
        law_words_pattern(front);
        lemma_byte_range(words[k]);
        match words_pattern(front) {
            Ok(before) => {
                match word_byte(words.last()) {
                    Some((byte, must_match)) => {
                        let pattern = words_pattern(words)->Ok_0;
                        assert forall|i: int| 0 <= i < words.len() implies if (
                        #[trigger] words[i]) == "?"@ || words[i] == "??"@ {
                            !pattern.mask[i]
                        } else {
                            pattern.mask[i] && text::number_of(words[i], 16, 255) == Ok::<
                                int,
                                text::NumberError,
                            >(pattern.bytes[i] as int)
                        } by {
                            if i < k {
                                assert(front[i] == words[i]);
                                assert(pattern.bytes[i] == before.bytes[i]);
                                assert(pattern.mask[i] == before.mask[i]);
                            }
                        }
                    },
                    None => {
                        assert(words[k] == words.last());
                        assert forall|j: int| 0 <= j < k implies (#[trigger] words[j]) == "?"@
                            || words[j] == "??"@ || text::number_of(words[j], 16, 255) is Ok by {
                            assert(front[j] == words[j]);
                        }
                    },
                }
            },
            Err(ParseAobErrorView::InvalidHexToken { token }) => {
                let i = choose|i: int|
                    0 <= i < front.len() && (#[trigger] front[i]) == token && token != "?"@ && token
                        != "??"@ && text::number_of(token, 16, 255) is Err && forall|j: int|
                        0 <= j < i ==> (#[trigger] front[j]) == "?"@ || front[j] == "??"@
                            || text::number_of(front[j], 16, 255) is Ok;
                assert(words[i] == token);
                assert forall|j: int| 0 <= j < i implies (#[trigger] words[j]) == "?"@ || words[j]
                    == "??"@ || text::number_of(words[j], 16, 255) is Ok by {
                    assert(front[j] == words[j]);
                }
            },
        }
    }
}

proof fn lemma_byte_range(word: Seq<char>)
    ensures
        text::number_of(word, 16, 255) matches Ok(value) ==> 0 <= value <= 255,
{
    lemma_digits_range(word);
    if word.len() > 0 {
        lemma_digits_range(word.drop_first());
    }
}

proof fn lemma_digits_range(word: Seq<char>)
    ensures
        text::digits_number(word, 16, 255) matches Ok(value) ==> 0 <= value <= 255,
    decreases word.len(),
{
    if word.len() > 0 {
        lemma_digits_range(word.drop_last());
    }
}

} // verus!
