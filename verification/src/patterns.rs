//! Scans for text by regular expression, in UTF-8 and UTF-16.

use vstd::prelude::*;

use crate::options::TextEncoding;
use crate::seqs;
use crate::snapshot;
use crate::text;
use crate::text_scan;
use crate::text_scan::{ScanTarget, ScanTargetView, TextHit, TextHitView};

verus! {

/// Why a pattern is no regular expression over bytes, where it is none.
pub uninterp spec fn byte_regex_syntax(pattern: Seq<char>, ignore_case: bool) -> Option<Seq<char>>;

/// Where a regular expression over bytes matches: start and end of each match.
pub uninterp spec fn byte_regex_matches(
    pattern: Seq<char>,
    ignore_case: bool,
    data: Seq<u8>,
) -> Seq<(usize, usize)>;

/// Why a pattern is no regular expression over text, where it is none.
pub uninterp spec fn text_regex_syntax(pattern: Seq<char>, ignore_case: bool) -> Option<Seq<char>>;

/// Where a regular expression over text matches: start and end of each match, in
/// bytes of UTF-8.
pub uninterp spec fn text_regex_matches(
    pattern: Seq<char>,
    ignore_case: bool,
    data: Seq<char>,
) -> Seq<(usize, usize)>;

/// Why a regular expression could not be built.
#[derive(Debug, Clone, PartialEq, Eq)]
pub enum RegexProblem {
    /// The pattern is none, for this reason.
    Syntax(String),
    /// The compiled pattern would take more than this many bytes.
    TooBig(usize),
    /// It was refused for a reason that has no name here.
    Other,
}

impl RegexProblem {
    /// The problem in words.
    pub open spec fn words(self) -> Seq<char> {
        match self {
            RegexProblem::Syntax(reason) => reason@,
            RegexProblem::TooBig(limit) => "Compiled regex exceeds size limit of "@
                + text::decimal_text(limit as nat) + " bytes."@,
            RegexProblem::Other => "regex was refused"@,
        }
    }

    /// The problem in words.
    pub fn describe(&self) -> (words: String)
        ensures
            words@ == self.words(),
    {
        match self {
            RegexProblem::Syntax(reason) => reason.clone(),
            RegexProblem::TooBig(limit) => {
                let mut words = "Compiled regex exceeds size limit of ".to_string();
                text::push_decimal(&mut words, *limit as u64);
                words.append(" bytes.");
                words
            },
            RegexProblem::Other => "regex was refused".to_string(),
        }
    }
}

/// Whether a problem is the one that a pattern has, as far as the pattern alone
/// decides: it has a syntax error or none.
pub open spec fn is_syntax_problem(problem: RegexProblem, syntax: Option<Seq<char>>) -> bool {
    match problem {
        RegexProblem::Syntax(reason) => syntax == Some(reason@),
        _ => syntax is None,
    }
}

/// `regex::bytes::RegexBuilder` without Unicode mode, and `find_iter` of what it
/// builds. A syntax error depends on the pattern and the flag alone; whether the
/// compiled pattern is too big also depends on the machine, of which nothing is
/// said. A match starts no later than it ends, and ends within the data.
#[verifier::external_body]
fn find_byte_regex(pattern: &str, ignore_case: bool, data: &[u8]) -> (result: Result<
    Vec<(usize, usize)>,
    RegexProblem,
>)
    ensures
        match result {
            Ok(found) => byte_regex_syntax(pattern@, ignore_case) is None && found@
                == byte_regex_matches(pattern@, ignore_case, data@),
            Err(problem) => is_syntax_problem(problem, byte_regex_syntax(pattern@, ignore_case)),
        },
        result matches Ok(found) ==> forall|i: int|
            0 <= i < found@.len() ==> (#[trigger] found@[i]).0 <= found@[i].1 <= data@.len(),
{
    let mut builder = regex::bytes::RegexBuilder::new(pattern);
    match builder.case_insensitive(ignore_case).unicode(false).build() {
        Ok(regex) => Ok(regex.find_iter(data).map(|m| (m.start(), m.end())).collect()),
        Err(regex::Error::Syntax(reason)) => Err(RegexProblem::Syntax(reason)),
        Err(regex::Error::CompiledTooBig(limit)) => Err(RegexProblem::TooBig(limit)),
        Err(_) => Err(RegexProblem::Other),
    }
}

/// `regex::RegexBuilder`, and `find_iter` of what it builds. A syntax error depends
/// on the pattern and the flag alone; of a compiled pattern that is too big nothing
/// is said. The offsets count bytes of UTF-8, and a match starts no later than it
/// ends.
#[verifier::external_body]
fn find_text_regex(pattern: &str, ignore_case: bool, data: &str) -> (result: Result<
    Vec<(usize, usize)>,
    RegexProblem,
>)
    ensures
        match result {
            Ok(found) => text_regex_syntax(pattern@, ignore_case) is None && found@
                == text_regex_matches(pattern@, ignore_case, data@),
            Err(problem) => is_syntax_problem(problem, text_regex_syntax(pattern@, ignore_case)),
        },
        result matches Ok(found) ==> forall|i: int|
            0 <= i < found@.len() ==> (#[trigger] found@[i]).0 <= found@[i].1,
{
    let mut builder = regex::RegexBuilder::new(pattern);
    match builder.case_insensitive(ignore_case).build() {
        Ok(regex) => Ok(regex.find_iter(data).map(|m| (m.start(), m.end())).collect()),
        Err(regex::Error::Syntax(reason)) => Err(RegexProblem::Syntax(reason)),
        Err(regex::Error::CompiledTooBig(limit)) => Err(RegexProblem::TooBig(limit)),
        Err(_) => Err(RegexProblem::Other),
    }
}

/// The report of a match of a pattern over bytes.
pub open spec fn utf8_match(target: ScanTargetView) -> spec_fn((usize, usize)) -> TextHitView {
    |found: (usize, usize)|
        text_scan::text_hit(
            target,
            TextEncoding::Utf8,
            text_scan::lossy_text(target.bytes.subrange(found.0 as int, found.1 as int)),
            found.0 as int,
            found.1 - found.0,
        )
}

/// The reports of matches of a pattern over bytes.
pub open spec fn utf8_hits(target: ScanTargetView, found: Seq<(usize, usize)>) -> Seq<TextHitView> {
    found.map_values(utf8_match(target))
}

/// The reports of the first `limit` matches of a pattern over bytes.
pub fn report_utf8(target: &ScanTarget<'_>, found: &Vec<(usize, usize)>, limit: usize) -> (hits:
    Vec<TextHit>)
    requires
        forall|i: int|
            0 <= i < found@.len() ==> (#[trigger] found@[i]).0 <= found@[i].1
                <= target.bytes@.len(),
    ensures
        hits.deep_view() == seqs::capped(utf8_hits(target.deep_view(), found@), limit as int),
{
    let ghost view = target.deep_view();
    let ghost h = utf8_match(view);
    let mut hits: Vec<TextHit> = Vec::new();
    let mut i: usize = 0;
    proof {
        assert(hits.deep_view() =~= found@.take(0).map_values(h));
    }
    while i < found.len() && i < limit
        invariant
            i <= found.len(),
            i <= limit,
            view == target.deep_view(),
            h == utf8_match(view),
            forall|k: int|
                0 <= k < found@.len() ==> (#[trigger] found@[k]).0 <= found@[k].1
                    <= target.bytes@.len(),
            hits.deep_view() == found@.take(i as int).map_values(h),
        decreases found.len() - i,
    {
        let start: usize = found[i].0;
        let end: usize = found[i].1;
        let ghost before = hits.deep_view();
        proof {
            assert(found@[i as int].0 == start && found@[i as int].1 == end);
            assert(target.bytes.len() == target.bytes@.len());
        }
        let here = text_scan::text_from_bytes(&target.bytes[start..end]);
        hits.push(text_scan::text_match(target, TextEncoding::Utf8, here, start, end - start));
        i += 1;
        proof {
            assert(hits.deep_view() =~= before.push(h(found@[i - 1])));
            assert(found@.take(i as int).map_values(h) =~= before.push(h(found@[i - 1])));
        }
    }
    proof {
        assert(found@.take(i as int).map_values(h) =~= seqs::capped(
            found@.map_values(h),
            limit as int,
        ));
    }
    hits
}

/// The character that one UTF-16 unit stands for by itself.
pub open spec fn unit_char(unit: int) -> char {
    if unit < 0xd800 || 0xe000 <= unit {
        unit as char
    } else {
        '\u{fffd}'
    }
}

/// The units from an offset on, each read as a character by itself.
pub open spec fn decoded(bytes: Seq<u8>, from: int) -> Seq<char> {
    Seq::new(
        (if bytes.len() <= from {
            0
        } else {
            (bytes.len() - from) / 2
        }) as nat,
        |k: int| unit_char(text_scan::unit_at(bytes, from + 2 * k)),
    )
}

/// The units from an offset on, each read as a character by itself.
pub fn decode_units(bytes: &[u8], from: usize) -> (chars: Vec<char>)
    requires
        from <= 1,
    ensures
        chars@ == decoded(bytes@, from as int),
{
    let len: usize = bytes.len();
    let mut chars: Vec<char> = Vec::new();
    if len <= from {
        proof {
            assert(chars@ =~= decoded(bytes@, from as int));
        }
        return chars;
    }
    let count: usize = (len - from) / 2;
    let mut k: usize = 0;
    while k < count
        invariant
            k <= count,
            count == (len - from) / 2,
            len == bytes.len(),
            from < len,
            chars@ =~= decoded(bytes@, from as int).take(k as int),
        decreases count - k,
    {
        let at: usize = from + 2 * k;
        let unit: u32 = bytes[at] as u32 + 256 * (bytes[at + 1] as u32);
        chars.push(snapshot::char_or_replacement(unit));
        k += 1;
    }
    proof {
        assert(chars@ =~= decoded(bytes@, from as int));
    }
    chars
}

/// How many bytes a character takes in UTF-8.
pub open spec fn utf8_width(c: char) -> int {
    let code = c as u32;
    if code < 0x80 {
        1
    } else if code < 0x800 {
        2
    } else if code < 0x10000 {
        3
    } else {
        4
    }
}

fn char_width(c: char) -> (width: usize)
    ensures
        width == utf8_width(c),
{
    let code: u32 = c as u32;
    if code < 0x80 {
        1
    } else if code < 0x800 {
        2
    } else if code < 0x10000 {
        3
    } else {
        4
    }
}

/// How many characters start within the first `bytes` bytes of UTF-8.
pub open spec fn chars_within(s: Seq<char>, bytes: int) -> int
    decreases s.len(),
{
    if s.len() == 0 || bytes <= 0 {
        0
    } else {
        1 + chars_within(s.skip(1), bytes - utf8_width(s[0]))
    }
}

/// More bytes hold no fewer characters, and never more than there are.
pub proof fn lemma_chars_within(s: Seq<char>, a: int, b: int)
    requires
        a <= b,
    ensures
        0 <= chars_within(s, a) <= chars_within(s, b) <= s.len(),
    decreases s.len(),
{
    if s.len() > 0 {
        lemma_chars_within(s.skip(1), a - utf8_width(s[0]), b - utf8_width(s[0]));
    }
}

/// How many characters start within the first `bytes` bytes of UTF-8.
pub fn count_chars(s: &Vec<char>, bytes: usize) -> (count: usize)
    ensures
        count == chars_within(s@, bytes as int),
{
    let mut count: usize = 0;
    let mut left: usize = bytes;
    proof {
        assert(s@.skip(0) =~= s@);
    }
    while count < s.len() && left > 0
        invariant
            count <= s.len(),
            chars_within(s@, bytes as int) == count + chars_within(
                s@.skip(count as int),
                left as int,
            ),
        decreases s.len() - count,
    {
        let width: usize = char_width(s[count]);
        proof {
            assert(s@.skip(count as int).skip(1) =~= s@.skip(count + 1));
            assert(s@.skip(count as int)[0] == s@[count as int]);
            if left <= width {
                assert(chars_within(s@.skip(count + 1), left - width) == 0);
                assert(chars_within(s@.skip(count + 1), 0) == 0);
            }
        }
        left = left.saturating_sub(width);
        count += 1;
    }
    count
}

/// The report of a match in units that were read as characters from `from` on.
pub open spec fn utf16_match(target: ScanTargetView, from: int) -> spec_fn((usize, usize)) -> Seq<
    TextHitView,
> {
    |found: (usize, usize)|
        {
            let chars = decoded(target.bytes, from);
            let start = chars_within(chars, found.0 as int);
            let end = chars_within(chars, found.1 as int);
            if start < chars.len() {
                seq![
                    text_scan::text_hit(
                        target,
                        TextEncoding::Utf16Le,
                        chars.subrange(start, end),
                        from + 2 * start,
                        2 * (end - start),
                    ),
                ]
            } else {
                Seq::empty()
            }
        }
}

/// The reports of matches in units that were read as characters from `from` on.
pub open spec fn utf16_hits(target: ScanTargetView, from: int, found: Seq<(usize, usize)>) -> Seq<
    TextHitView,
> {
    found.flat_map(utf16_match(target, from))
}

/// The reports of the first `limit` matches in units that were read as characters
/// from `from` on.
pub fn report_utf16(
    target: &ScanTarget<'_>,
    from: usize,
    chars: &Vec<char>,
    found: &Vec<(usize, usize)>,
    limit: usize,
) -> (hits: Vec<TextHit>)
    requires
        from <= 1,
        chars@ == decoded(target.bytes@, from as int),
        forall|i: int| 0 <= i < found@.len() ==> (#[trigger] found@[i]).0 <= found@[i].1,
    ensures
        hits.deep_view() == seqs::capped(
            utf16_hits(target.deep_view(), from as int, found@),
            limit as int,
        ),
{
    let ghost view = target.deep_view();
    let ghost f = utf16_match(view, from as int);
    let mut hits: Vec<TextHit> = Vec::new();
    let mut i: usize = 0;
    proof {
        seqs::lemma_flat_map_ends(found@, f);
        assert(hits.deep_view() =~= found@.take(0).flat_map(f));
    }
    while i < found.len() && hits.len() < limit
        invariant
            i <= found.len(),
            from <= 1,
            view == target.deep_view(),
            f == utf16_match(view, from as int),
            chars@ == decoded(target.bytes@, from as int),
            forall|k: int| 0 <= k < found@.len() ==> (#[trigger] found@[k]).0 <= found@[k].1,
            hits.deep_view() == found@.take(i as int).flat_map(f),
            hits.deep_view().len() == hits@.len(),
            hits@.len() <= limit,
        decreases found.len() - i,
    {
        let ghost before = hits.deep_view();
        let ghost m = found@[i as int];
        proof {
            seqs::lemma_flat_map_step(found@, i as int, f);
            lemma_chars_within(chars@, m.0 as int, m.1 as int);
            assert(target.bytes.len() == target.bytes@.len());
        }
        let start: usize = count_chars(chars, found[i].0);
        let end: usize = count_chars(chars, found[i].1);
        if start < chars.len() {
            let here = text::text_of(&chars[start..end]);
            hits.push(
                text_scan::text_match(
                    target,
                    TextEncoding::Utf16Le,
                    here,
                    from + 2 * start,
                    2 * (end - start),
                ),
            );
            proof {
                assert(hits.deep_view() =~= before + f(m));
            }
        } else {
            proof {
                assert(before =~= before + f(m));
            }
        }
        i += 1;
    }
    proof {
        let whole = found@.flat_map(f);
        let front = found@.take(i as int).flat_map(f);
        seqs::lemma_flat_map_ends(found@, f);
        if i < found.len() {
            seqs::lemma_flat_map_prefix(found@, i as int, f);
            seqs::lemma_capped_full(front, whole, limit as int);
        } else {
            assert(found@.take(i as int) =~= found@);
        }
        assert(seqs::capped(front, limit as int) =~= front);
    }
    hits
}

/// What a text scan looks for.
pub struct TextQuery {
    pub pattern: String,
    pub regex: bool,
    pub encoding: TextEncoding,
    pub case_sensitive: bool,
}

#[verifier::ext_equal]
pub struct TextQueryView {
    pub pattern: Seq<char>,
    pub regex: bool,
    pub encoding: TextEncoding,
    pub case_sensitive: bool,
}

impl DeepView for TextQuery {
    type V = TextQueryView;

    open spec fn deep_view(&self) -> TextQueryView {
        TextQueryView {
            pattern: self.pattern@,
            regex: self.regex,
            encoding: self.encoding,
            case_sensitive: self.case_sensitive,
        }
    }
}

impl TextQueryView {
    /// Why the pattern is no expression over bytes, where it is to be one.
    pub open spec fn utf8_syntax(self) -> Option<Seq<char>> {
        if self.regex && self.encoding.takes_utf8() {
            byte_regex_syntax(self.pattern, !self.case_sensitive)
        } else {
            None
        }
    }

    /// Why the pattern is no expression over text, where it is to be one.
    pub open spec fn utf16_syntax(self) -> Option<Seq<char>> {
        if self.regex && self.encoding.takes_utf16() {
            text_regex_syntax(self.pattern, !self.case_sensitive)
        } else {
            None
        }
    }

    /// Whether a message tells why the expression over bytes could not be built.
    pub open spec fn utf8_fault(self, message: Seq<char>) -> bool {
        self.regex && self.encoding.takes_utf8() && exists|problem: RegexProblem|
            #![trigger problem.words()]
            is_syntax_problem(problem, self.utf8_syntax()) && message
                == "invalid UTF-8 byte regex: "@ + problem.words()
    }

    /// Whether a message tells why the expression over text could not be built.
    pub open spec fn utf16_fault(self, message: Seq<char>) -> bool {
        self.regex && self.encoding.takes_utf16() && exists|problem: RegexProblem|
            #![trigger problem.words()]
            is_syntax_problem(problem, self.utf16_syntax()) && message
                == "invalid UTF-16 regex: "@ + problem.words()
    }

    /// Whether a message tells why the query could not be run: an expression over
    /// bytes comes before one over text.
    pub open spec fn fault(self, message: Seq<char>) -> bool {
        self.utf8_fault(message) || (self.utf8_syntax() is None && self.utf16_fault(message))
    }

    /// What the query finds in UTF-8.
    pub open spec fn hits_utf8(self, target: ScanTargetView) -> Seq<TextHitView> {
        if !self.encoding.takes_utf8() {
            Seq::empty()
        } else if self.regex {
            utf8_hits(
                target,
                byte_regex_matches(self.pattern, !self.case_sensitive, target.bytes),
            )
        } else {
            text_scan::exact_utf8_hits(target, self.pattern, self.case_sensitive)
        }
    }

    /// What an expression finds in the UTF-16 units from an offset on.
    pub open spec fn hits_from(self, target: ScanTargetView, from: int) -> Seq<TextHitView> {
        utf16_hits(
            target,
            from,
            text_regex_matches(self.pattern, !self.case_sensitive, decoded(target.bytes, from)),
        )
    }

    /// What the query finds in UTF-16: at even offsets, then at odd ones.
    pub open spec fn hits_utf16(self, target: ScanTargetView) -> Seq<TextHitView> {
        if !self.encoding.takes_utf16() {
            Seq::empty()
        } else if self.regex {
            self.hits_from(target, 0) + self.hits_from(target, 1)
        } else {
            text_scan::exact_utf16_hits(target, self.pattern, self.case_sensitive)
        }
    }

    /// What the query finds: what it finds in UTF-8, then what it finds in UTF-16.
    pub open spec fn hits(self, target: ScanTargetView) -> Seq<TextHitView> {
        self.hits_utf8(target) + self.hits_utf16(target)
    }
}

fn utf8_message(problem: &RegexProblem) -> (message: String)
    ensures
        message@ == "invalid UTF-8 byte regex: "@ + problem.words(),
{
    let mut message = "invalid UTF-8 byte regex: ".to_string();
    let words = problem.describe();
    message.append(&words);
    message
}

fn utf16_message(problem: &RegexProblem) -> (message: String)
    ensures
        message@ == "invalid UTF-16 regex: "@ + problem.words(),
{
    let mut message = "invalid UTF-16 regex: ".to_string();
    let words = problem.describe();
    message.append(&words);
    message
}

/// Builds the expressions of a query, each once.
pub fn compile_text_regexes(query: &TextQuery) -> (result: Result<(), String>)
    ensures
        match result {
            Ok(()) => query.deep_view().utf8_syntax() is None && query.deep_view().utf16_syntax()
                is None,
            Err(message) => query.deep_view().fault(message@),
        },
        !query.regex ==> result is Ok,
{
    if !query.regex {
        return Ok(());
    }
    if query.encoding.has_utf8() {
        let nothing: Vec<u8> = Vec::new();
        match find_byte_regex(&query.pattern, !query.case_sensitive, &nothing) {
            Ok(_) => {},
            Err(problem) => {
                return Err(utf8_message(&problem));
            },
        }
    }
    if query.encoding.has_utf16() {
        match find_text_regex(&query.pattern, !query.case_sensitive, "") {
            Ok(_) => {},
            Err(problem) => {
                return Err(utf16_message(&problem));
            },
        }
    }
    Ok(())
}

/// What a query finds in UTF-8 in what was read of a region.
fn scan_utf8(query: &TextQuery, target: &ScanTarget<'_>, limit: usize) -> (result: Result<
    Vec<TextHit>,
    String,
>)
    ensures
        match result {
            Ok(found) => query.deep_view().utf8_syntax() is None && found.deep_view()
                == seqs::capped(query.deep_view().hits_utf8(target.deep_view()), limit as int),
            Err(message) => query.deep_view().utf8_fault(message@),
        },
{
    if !query.encoding.has_utf8() {
        let found: Vec<TextHit> = Vec::new();
        proof {
            assert(found.deep_view() =~= Seq::<TextHitView>::empty());
        }
        return Ok(found);
    }
    if !query.regex {
        return Ok(
            text_scan::scan_exact_utf8(target, &query.pattern, query.case_sensitive, limit),
        );
    }
    match find_byte_regex(&query.pattern, !query.case_sensitive, target.bytes) {
        Ok(found) => Ok(report_utf8(target, &found, limit)),
        Err(problem) => Err(utf8_message(&problem)),
    }
}

/// What an expression finds in the UTF-16 units from an offset on.
fn scan_units(query: &TextQuery, target: &ScanTarget<'_>, from: usize, limit: usize) -> (result:
    Result<Vec<TextHit>, String>)
    requires
        from <= 1,
        query.regex,
        query.encoding.takes_utf16(),
    ensures
        match result {
            Ok(found) => query.deep_view().utf16_syntax() is None && found.deep_view()
                == seqs::capped(
                query.deep_view().hits_from(target.deep_view(), from as int),
                limit as int,
            ),
            Err(message) => query.deep_view().utf16_fault(message@),
        },
{
    let chars = decode_units(target.bytes, from);
    let data = text::text_of(&chars);
    match find_text_regex(&query.pattern, !query.case_sensitive, &data) {
        Ok(found) => Ok(report_utf16(target, from, &chars, &found, limit)),
        Err(problem) => Err(utf16_message(&problem)),
    }
}

/// What a query finds in UTF-16 in what was read of a region.
fn scan_utf16(query: &TextQuery, target: &ScanTarget<'_>, limit: usize) -> (result: Result<
    Vec<TextHit>,
    String,
>)
    ensures
        match result {
            Ok(found) => query.deep_view().utf16_syntax() is None && found.deep_view()
                == seqs::capped(query.deep_view().hits_utf16(target.deep_view()), limit as int),
            Err(message) => query.deep_view().utf16_fault(message@),
        },
{
    if !query.encoding.has_utf16() {
        let found: Vec<TextHit> = Vec::new();
        proof {
            assert(found.deep_view() =~= Seq::<TextHitView>::empty());
        }
        return Ok(found);
    }
    if !query.regex {
        return Ok(
            text_scan::scan_exact_utf16(target, &query.pattern, query.case_sensitive, limit),
        );
    }
    let mut found = match scan_units(query, target, 0, limit) {
        Ok(found) => found,
        Err(message) => {
            return Err(message);
        },
    };
    match scan_units(query, target, 1, limit) {
        Ok(odd) => {
            append_capped(&mut found, odd, limit);
            proof {
                let a = query.deep_view().hits_from(target.deep_view(), 0);
                let b = query.deep_view().hits_from(target.deep_view(), 1);
                lemma_capped_both(a, b, limit as int);
            }
            Ok(found)
        },
        Err(message) => Err(message),
    }
}

/// Capping both parts first changes nothing.
pub proof fn lemma_capped_both<T>(a: Seq<T>, b: Seq<T>, n: int)
    requires
        0 <= n,
    ensures
        seqs::capped(seqs::capped(a, n) + seqs::capped(b, n), n) == seqs::capped(a + b, n),
{
    assert(seqs::capped(seqs::capped(a, n) + seqs::capped(b, n), n) =~= seqs::capped(a + b, n));
}

/// Appends hits up to a limit.
fn append_capped(found: &mut Vec<TextHit>, more: Vec<TextHit>, limit: usize)
    requires
        old(found).deep_view().len() <= limit,
    ensures
        final(found).deep_view() == seqs::capped(
            old(found).deep_view() + more.deep_view(),
            limit as int,
        ),
{
    let mut more = more;
    let ghost tail = more.deep_view();
    proof {
        assert(tail.len() == more@.len());
        assert(found.deep_view().len() == found@.len());
    }
    let room: usize = limit - found.len();
    if more.len() > room {
        more.truncate(room);
        proof {
            assert(more.deep_view() =~= tail.take(room as int));
        }
    }
    let ghost front = found.deep_view();
    let ghost kept = more.deep_view();
    found.append(&mut more);
    proof {
        assert(found.deep_view() =~= front + kept);
        assert(front + kept =~= seqs::capped(front + tail, limit as int));
    }
}

/// The first `limit` places that a query finds in what was read of a region.
pub fn scan_text_region(query: &TextQuery, target: &ScanTarget<'_>, limit: usize) -> (result:
    Result<Vec<TextHit>, String>)
    ensures
        match result {
            Ok(found) => query.deep_view().utf8_syntax() is None && query.deep_view().utf16_syntax()
                is None && found.deep_view() == seqs::capped(
                query.deep_view().hits(target.deep_view()),
                limit as int,
            ),
            Err(message) => query.deep_view().fault(message@),
        },
        !query.regex ==> result is Ok,
{
    let mut found = match scan_utf8(query, target, limit) {
        Ok(found) => found,
        Err(message) => {
            return Err(message);
        },
    };
    match scan_utf16(query, target, limit) {
        Ok(wide) => {
            append_capped(&mut found, wide, limit);
            proof {
                lemma_capped_both(
                    query.deep_view().hits_utf8(target.deep_view()),
                    query.deep_view().hits_utf16(target.deep_view()),
                    limit as int,
                );
            }
            Ok(found)
        },
        Err(message) => Err(message),
    }
}

/// A scan in both encodings finds what one in UTF-8 finds, and then what one in UTF-16
/// finds.
pub proof fn law_both_encodings(query: TextQueryView, target: ScanTargetView)
    ensures
        (TextQueryView { encoding: TextEncoding::Both, ..query }).hits(target) == (TextQueryView {
            encoding: TextEncoding::Utf8,
            ..query
        }).hits(target) + (TextQueryView { encoding: TextEncoding::Utf16Le, ..query }).hits(target),
{
    let utf8 = TextQueryView { encoding: TextEncoding::Utf8, ..query };
    let utf16 = TextQueryView { encoding: TextEncoding::Utf16Le, ..query };
    let none = Seq::<TextHitView>::empty();
    assert(utf8.hits(target) =~= utf8.hits_utf8(target) + none);
    assert(utf8.hits_utf8(target) + none =~= utf8.hits_utf8(target));
    assert(none + utf16.hits_utf16(target) =~= utf16.hits_utf16(target));
}

/// A query that is no expression finds its pattern as it is written, and one that is an
/// expression finds what the expression matches; where case does not count the expression
/// is told so.
pub proof fn law_query_finds(query: TextQueryView, target: ScanTargetView)
    ensures
        !query.regex && query.encoding == TextEncoding::Utf8 ==> query.hits(target)
            == text_scan::exact_utf8_hits(target, query.pattern, query.case_sensitive),
        !query.regex && query.encoding == TextEncoding::Utf16Le ==> query.hits(target)
            == text_scan::exact_utf16_hits(target, query.pattern, query.case_sensitive),
        query.regex && query.encoding == TextEncoding::Utf8 ==> query.hits(target) == utf8_hits(
            target,
            byte_regex_matches(query.pattern, !query.case_sensitive, target.bytes),
        ),
        query.regex && query.encoding == TextEncoding::Utf16Le ==> query.hits(target) == utf16_hits(
            target,
            0,
            text_regex_matches(query.pattern, !query.case_sensitive, decoded(target.bytes, 0)),
        ) + utf16_hits(
            target,
            1,
            text_regex_matches(query.pattern, !query.case_sensitive, decoded(target.bytes, 1)),
        ),
{
    let none = Seq::<TextHitView>::empty();
    assert(query.hits_utf8(target) + none =~= query.hits_utf8(target));
    assert(none + query.hits_utf16(target) =~= query.hits_utf16(target));
}

/// Each match of an expression over bytes is reported where it starts, with the text from
/// there to where it ends.
pub proof fn law_utf8_matches_reported(target: ScanTargetView, found: Seq<(usize, usize)>, i: int)
    requires
        target.bytes.len() <= usize::MAX,
        0 <= i < found.len(),
        found[i].0 <= found[i].1 <= target.bytes.len(),
    ensures
        ({
            let hits = utf8_hits(target, found);
            let start = found[i].0 as int;
            let end = found[i].1 as int;
            &&& hits.len() == found.len()
            &&& hits[i].encoding == TextEncoding::Utf8
            &&& hits[i].text == text_scan::lossy_text(target.bytes.subrange(start, end))
            &&& text_scan::reports(target, start, end - start, hits[i])
        }),
{
}

/// The units from an offset on are read two bytes by two, the low one first; a half of a
/// pair becomes the replacement character, and an odd byte at the end is left out.
pub proof fn law_decoded(data: Seq<u8>, from: int)
    requires
        0 <= from <= 1,
    ensures
        ({
            let chars = decoded(data, from);
            &&& from + 2 * chars.len() <= data.len() || chars.len() == 0
            &&& data.len() < from + 2 * chars.len() + 2
            &&& forall|k: int|
                0 <= k < chars.len() ==> {
                    let unit = data[from + 2 * k] + 0x100 * data[from + 2 * k + 1];
                    #[trigger] chars[k] as int == if 0xd800 <= unit <= 0xdfff {
                        0xfffd
                    } else {
                        unit
                    }
                }
        }),
{
}

/// Where the first `n` characters of a text end in UTF-8, `n` characters start before.
pub proof fn law_chars_within(s: Seq<char>, n: int)
    requires
        0 <= n <= s.len(),
    ensures
        chars_within(s, widths(s.take(n))) == n,
        0 <= widths(s.take(n)),
    decreases n,
{
    if n > 0 {
        let rest = s.skip(1);
        law_chars_within(rest, n - 1);
        let front = s.take(n);
        assert(front.skip(1) =~= rest.take(n - 1));
        assert(front[0] == s[0]);
        lemma_width(s[0]);
        assert(widths(front) == utf8_width(s[0]) + widths(rest.take(n - 1)));
        assert(chars_within(s, widths(front)) == 1 + chars_within(
            rest,
            widths(front) - utf8_width(s[0]),
        ));
    } else {
        assert(s.take(0) =~= Seq::<char>::empty());
    }
}

proof fn lemma_width(c: char)
    ensures
        utf8_width(c) == if (c as int) < 128 {
            1int
        } else if (c as int) < 2048 {
            2
        } else if c as int <= 0xffff {
            3
        } else {
            4
        },
{
}

/// How many bytes some characters take in UTF-8: one below 128, two below 2048, three up to
/// the last character of one UTF-16 unit, and four behind it.
pub open spec fn widths(s: Seq<char>) -> int
    decreases s.len(),
{
    if s.len() == 0 {
        0
    } else {
        let code = s[0] as int;
        (if code < 128 {
            1int
        } else if code < 2048 {
            2
        } else if code <= 0xffff {
            3
        } else {
            4
        }) + widths(s.skip(1))
    }
}

/// A match in units that were read as characters is reported where its first character
/// stands, two bytes for each character before it, with the characters up to its end; a
/// match behind the last character is left out.
pub proof fn law_utf16_match_reported(
    target: ScanTargetView,
    from: int,
    start: int,
    end: int,
    found: (usize, usize),
)
    requires
        0 <= from <= 1,
        target.bytes.len() <= usize::MAX,
        0 <= start <= end <= decoded(target.bytes, from).len(),
        found.0 == widths(decoded(target.bytes, from).take(start)),
        found.1 == widths(decoded(target.bytes, from).take(end)),
    ensures
        ({
            let chars = decoded(target.bytes, from);
            let hits = utf16_hits(target, from, seq![found]);
            &&& hits.len() == if start < chars.len() {
                1int
            } else {
                0
            }
            &&& start < chars.len() ==> hits[0].encoding == TextEncoding::Utf16Le && hits[0].text
                == chars.subrange(start, end) && text_scan::reports(
                target,
                from + 2 * start,
                2 * (end - start),
                hits[0],
            )
        }),
{
    let chars = decoded(target.bytes, from);
    let f = utf16_match(target, from);
    let one = seq![found];
    law_chars_within(chars, start);
    law_chars_within(chars, end);
    seqs::lemma_flat_map_ends(one, f);
    seqs::lemma_flat_map_step(one, 0, f);
    assert(one.take(1) =~= one);
    assert(Seq::<TextHitView>::empty() + f(found) =~= f(found));
}

} // verus!
