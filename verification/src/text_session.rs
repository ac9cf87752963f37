//! A text scan from region to region: what is read, what is kept, and what is
//! written to a file.

use vstd::prelude::*;

use crate::evidence::Address;
use crate::memory::{ModuleInfo, ModuleInfoView};
use crate::options::ScanOutputFormat;
use crate::patterns;
use crate::patterns::{TextQuery, TextQueryView};
use crate::seqs;
use crate::snapshot;
use crate::snapshot::{MemoryRegionInfo, SnapshotScope};
use crate::text;
use crate::text_scan::{ScanTarget, ScanTargetView, TextHit, TextHitView};

verus! {

impl Clone for TextHit {
    fn clone(&self) -> (copy: Self)
        ensures
            copy.deep_view() == self.deep_view(),
    {
        TextHit {
            address: self.address,
            encoding: self.encoding,
            text: self.text.clone(),
            module: match &self.module {
                Some(module) => Some(module.clone()),
                None => None,
            },
            region: self.region,
            ascii_preview: self.ascii_preview.clone(),
            scan_base: self.scan_base,
            offset: self.offset,
        }
    }
}

/// The sum of two counts, or the highest count where the sum is higher.
pub open spec fn counted(a: int, b: int) -> int {
    if a + b <= usize::MAX {
        a + b
    } else {
        usize::MAX as int
    }
}

/// What is known of a text scan.
#[verifier::ext_equal]
pub struct TextScanView {
    pub query: TextQueryView,
    pub scope: SnapshotScope,
    /// Whether the scan goes on when enough has been found.
    pub scan_all: bool,
    pub max_results: int,
    pub modules: Seq<ModuleInfoView>,
    /// The first hits, up to the most that are kept.
    pub kept: Seq<TextHitView>,
    /// How many hits there were.
    pub total: int,
    pub region_count: int,
    pub byte_count: int,
}

impl TextScanView {
    /// Whether enough has been found.
    pub open spec fn is_full(self) -> bool {
        !self.scan_all && self.total >= self.max_results
    }

    /// How many more hits are wanted.
    pub open spec fn room(self) -> int {
        if self.scan_all {
            usize::MAX as int
        } else if self.total >= self.max_results {
            0
        } else {
            self.max_results - self.total
        }
    }

    /// How many bytes of a region are to be read, where any: those of a region that
    /// can be read and that the scope takes in, within the limits of the scope
    /// unless everything is scanned.
    pub open spec fn wants(self, region: MemoryRegionInfo) -> Option<int> {
        let inside = snapshot::in_first_module(self.modules, region.base);
        if self.is_full() || !self.scope.takes(inside, region.flags.executable) {
            None
        } else if self.scan_all {
            snapshot::planned_read(
                region,
                usize::MAX as int,
                self.byte_count,
                usize::MAX as int,
            )
        } else {
            snapshot::planned_read(
                region,
                snapshot::read_limit(self.scope, inside),
                self.byte_count,
                snapshot::total_limit(),
            )
        }
    }

    /// What was read of a region, from an address on.
    pub open spec fn target(
        self,
        region: MemoryRegionInfo,
        base: Address,
        bytes: Seq<u8>,
    ) -> ScanTargetView {
        ScanTargetView { region, base, bytes, modules: self.modules }
    }

    /// The hits in what was read of a region, up to what is wanted.
    pub open spec fn found(self, region: MemoryRegionInfo, base: Address, bytes: Seq<u8>) -> Seq<
        TextHitView,
    > {
        seqs::capped(self.query.hits(self.target(region, base, bytes)), self.room())
    }

    /// The scan after a region.
    pub open spec fn after(self, found: Seq<TextHitView>, byte_count: int) -> TextScanView {
        TextScanView {
            kept: seqs::capped(self.kept + found, self.max_results),
            total: counted(self.total, found.len() as int),
            region_count: counted(self.region_count, 1),
            byte_count: counted(self.byte_count, byte_count),
            ..self
        }
    }

    /// What always holds of a scan: it keeps as many hits as there were, up to the
    /// most that are kept, and goes on to more only where everything is scanned.
    pub open spec fn valid(self) -> bool {
        &&& 0 <= self.max_results <= usize::MAX
        &&& 0 <= self.total <= usize::MAX
        &&& self.kept.len() == (if self.total <= self.max_results {
            self.total
        } else {
            self.max_results
        })
        &&& !self.scan_all ==> self.total <= self.max_results
    }
}

/// A text scan.
pub struct TextScan {
    query: TextQuery,
    scope: SnapshotScope,
    scan_all: bool,
    max_results: usize,
    modules: Vec<ModuleInfo>,
    kept: Vec<TextHit>,
    total: usize,
    region_count: usize,
    byte_count: usize,
}

impl DeepView for TextScan {
    type V = TextScanView;

    closed spec fn deep_view(&self) -> TextScanView {
        TextScanView {
            query: self.query.deep_view(),
            scope: self.scope,
            scan_all: self.scan_all,
            max_results: self.max_results as int,
            modules: self.modules.deep_view(),
            kept: self.kept.deep_view(),
            total: self.total as int,
            region_count: self.region_count as int,
            byte_count: self.byte_count as int,
        }
    }
}

impl TextScan {
    /// A scan that has read nothing. Without a pattern there is none, and none with
    /// a pattern that is no regular expression where it is to be one.
    pub fn start(
        query: TextQuery,
        scope: SnapshotScope,
        max_results: usize,
        scan_all: bool,
        modules: Vec<ModuleInfo>,
    ) -> (result: Result<Self, String>)
        ensures
            match result {
                Ok(scan) => query.pattern@.len() > 0 && query.deep_view().utf8_syntax() is None
                    && query.deep_view().utf16_syntax() is None && scan.deep_view().valid()
                    && scan.deep_view() == (TextScanView {
                    query: query.deep_view(),
                    scope,
                    scan_all,
                    max_results: max_results as int,
                    modules: modules.deep_view(),
                    kept: Seq::empty(),
                    total: 0,
                    region_count: 0,
                    byte_count: 0,
                }),
                Err(message) => if query.pattern@.len() == 0 {
                    message@ == "pattern must not be empty"@
                } else {
                    query.deep_view().fault(message@)
                },
            },
            query.pattern@.len() > 0 && !query.regex ==> result is Ok,
    {
        match check_query(&query) {
            Ok(()) => {
                let scan = TextScan {
                    query,
                    scope,
                    scan_all,
                    max_results,
                    modules,
                    kept: Vec::new(),
                    total: 0,
                    region_count: 0,
                    byte_count: 0,
                };
                proof {
                    assert(scan.kept.deep_view() =~= Seq::<TextHitView>::empty());
                }
                Ok(scan)
            },
            Err(message) => Err(message),
        }
    }

    /// Whether enough has been found.
    pub fn should_stop(&self) -> (stop: bool)
        ensures
            stop == self.deep_view().is_full(),
    {
        !self.scan_all && self.total >= self.max_results
    }

    /// How many bytes of a region are to be read, where any.
    pub fn plan(&self, region: MemoryRegionInfo) -> (len: Option<usize>)
        ensures
            match len {
                Some(len) => self.deep_view().wants(region) == Some(len as int),
                None => self.deep_view().wants(region) is None,
            },
    {
        let max_total: usize = if self.scan_all {
            usize::MAX
        } else {
            self.scope.limits().1
        };
        if self.should_stop() || self.byte_count >= max_total || !region.flags.readable
            || region.flags.guarded {
            return None;
        }
        let inside = snapshot::in_main_module(&self.modules, region.base);
        if !self.scope.includes(inside, region.flags.executable) {
            return None;
        }
        let max_region: usize = if self.scan_all {
            usize::MAX
        } else {
            snapshot::region_read_limit(self.scope, inside)
        };
        Some(snapshot::smallest(region.size, max_region, max_total - self.byte_count))
    }

    /// Scans what was read of a region from an address on, and gives the hits.
    pub fn scan_window(&mut self, region: MemoryRegionInfo, base: Address, bytes: &[u8]) -> (result:
        Result<Vec<TextHit>, String>)
        requires
            old(self).deep_view().valid(),
        ensures
            final(self).deep_view().valid(),
            match result {
                Ok(found) => found.deep_view() == old(self).deep_view().found(region, base, bytes@)
                    && final(self).deep_view() == old(self).deep_view().after(
                    found.deep_view(),
                    bytes@.len() as int,
                ),
                Err(message) => final(self).deep_view() == old(self).deep_view() && old(
                    self,
                ).deep_view().query.fault(message@),
            },
            !old(self).deep_view().query.regex ==> result is Ok,
    {
        let room: usize = if self.scan_all {
            usize::MAX
        } else {
            self.max_results.saturating_sub(self.total)
        };
        let target = ScanTarget { region, base, bytes, modules: &self.modules };
        let ghost whole = self.query.deep_view().hits(target.deep_view());
        let result = patterns::scan_text_region(&self.query, &target, room);
        match result {
            Ok(found) => {
                proof {
                    assert(found.deep_view().len() == found@.len());
                    assert(found.len() == found@.len());
                    assert(bytes.len() == bytes@.len());
                }
                keep_first(&mut self.kept, &found, self.max_results);
                self.total = self.total.saturating_add(found.len());
                self.region_count = self.region_count.saturating_add(1);
                self.byte_count = self.byte_count.saturating_add(bytes.len());
                Ok(found)
            },
            Err(message) => Err(message),
        }
    }

    /// Scans what was read of a region from its base on; nothing is scanned where
    /// nothing was read.
    pub fn scan_region(&mut self, region: MemoryRegionInfo, bytes: &[u8]) -> (result: Result<
        Vec<TextHit>,
        String,
    >)
        requires
            old(self).deep_view().valid(),
        ensures
            final(self).deep_view().valid(),
            match result {
                Ok(found) => if bytes@.len() == 0 {
                    found@.len() == 0 && final(self).deep_view() == old(self).deep_view()
                } else {
                    found.deep_view() == old(self).deep_view().found(region, region.base, bytes@)
                        && final(self).deep_view() == old(self).deep_view().after(
                        found.deep_view(),
                        bytes@.len() as int,
                    )
                },
                Err(message) => bytes@.len() > 0 && final(self).deep_view() == old(self).deep_view()
                    && old(self).deep_view().query.fault(message@),
            },
            !old(self).deep_view().query.regex ==> result is Ok,
    {
        if bytes.len() == 0 {
            return Ok(Vec::new());
        }
        self.scan_window(region, region.base, bytes)
    }

    /// The hits that were kept.
    pub fn hits(&self) -> (hits: &Vec<TextHit>)
        ensures
            hits.deep_view() == self.deep_view().kept,
    {
        &self.kept
    }

    /// How many hits there were.
    pub fn total_hit_count(&self) -> (count: usize)
        ensures
            count == self.deep_view().total,
    {
        self.total
    }

    pub fn scanned_region_count(&self) -> (count: usize)
        ensures
            count == self.deep_view().region_count,
    {
        self.region_count
    }

    pub fn scanned_bytes(&self) -> (count: usize)
        ensures
            count == self.deep_view().byte_count,
    {
        self.byte_count
    }
}

/// Whether a query can be run: its pattern is not empty, and is a regular expression
/// where it is to be one.
pub fn check_query(query: &TextQuery) -> (result: Result<(), String>)
    ensures
        match result {
            Ok(()) => query.pattern@.len() > 0 && query.deep_view().utf8_syntax() is None
                && query.deep_view().utf16_syntax() is None,
            Err(message) => if query.pattern@.len() == 0 {
                message@ == "pattern must not be empty"@
            } else {
                query.deep_view().fault(message@)
            },
        },
        query.pattern@.len() > 0 && !query.regex ==> result is Ok,
{
    if text::chars_of(&query.pattern).len() == 0 {
        return Err("pattern must not be empty".to_string());
    }
    patterns::compile_text_regexes(query)
}

/// Copies hits to those that are kept, up to a limit.
fn keep_first(kept: &mut Vec<TextHit>, found: &Vec<TextHit>, limit: usize)
    requires
        old(kept).deep_view().len() <= limit,
    ensures
        final(kept).deep_view() == seqs::capped(
            old(kept).deep_view() + found.deep_view(),
            limit as int,
        ),
{
    let ghost front = kept.deep_view();
    let ghost all = found.deep_view();
    let mut i: usize = 0;
    proof {
        assert(front.len() == kept@.len());
        assert(all.len() == found@.len());
        assert(front + all.take(0) =~= front);
    }
    while i < found.len() && kept.len() < limit
        invariant
            i <= found.len(),
            all == found.deep_view(),
            all.len() == found@.len(),
            kept.deep_view() == front + all.take(i as int),
            kept.deep_view().len() == kept@.len(),
            kept@.len() <= limit,
        decreases found.len() - i,
    {
        let ghost before = kept.deep_view();
        kept.push(found[i].clone());
        i += 1;
        proof {
            assert(kept.deep_view() =~= before.push(all[i - 1]));
            assert(front + all.take(i as int) =~= before.push(all[i - 1]));
        }
    }
    proof {
        assert(front + all.take(i as int) =~= seqs::capped(front + all, limit as int));
    }
}

/// A scan keeps as many hits as there were, up to the most that are kept; and where
/// not everything is scanned, there are never more than are kept.
pub proof fn law_text_scan_keeps_first(scan: TextScanView)
    requires
        scan.valid(),
    ensures
        scan.kept.len() <= scan.max_results,
        scan.total <= scan.max_results ==> scan.kept.len() == scan.total,
        !scan.scan_all ==> scan.kept.len() == scan.total,
{
}

/// A scan is still one after a region.
pub proof fn law_text_scan_stays_valid(
    scan: TextScanView,
    region: MemoryRegionInfo,
    base: Address,
    bytes: Seq<u8>,
)
    requires
        scan.valid(),
    ensures
        scan.after(scan.found(region, base, bytes), bytes.len() as int).valid(),
        scan.kept.is_prefix_of(
            scan.after(scan.found(region, base, bytes), bytes.len() as int).kept,
        ),
{
}

/// A text with each quote doubled.
pub open spec fn doubled(s: Seq<char>) -> Seq<char>
    decreases s.len(),
{
    if s.len() == 0 {
        Seq::empty()
    } else if s.last() == '"' {
        doubled(s.drop_last()) + seq!['"', '"']
    } else {
        doubled(s.drop_last()).push(s.last())
    }
}

/// Whether a character cannot stand bare in a field.
pub open spec fn is_special(c: char) -> bool {
    c == ',' || c == '"' || c == '\n' || c == '\r'
}

/// Whether a text cannot stand bare in a field.
pub open spec fn needs_quotes(s: Seq<char>) -> bool {
    exists|i: int| 0 <= i < s.len() && is_special(#[trigger] s[i])
}

/// A text as a field: in quotes, with its own quotes doubled, where it holds a
/// separator, a quote or a line break, and bare otherwise.
pub open spec fn csv_field(s: Seq<char>) -> Seq<char> {
    if needs_quotes(s) {
        seq!['"'] + doubled(s) + seq!['"']
    } else {
        s
    }
}

/// A text as a field.
pub fn csv_escape(value: &str) -> (field: String)
    ensures
        field@ == csv_field(value@),
{
    let chars = text::chars_of(value);
    let mut special = false;
    let mut field = String::new();
    field.push('"');
    let mut i: usize = 0;
    proof {
        assert(field@ =~= seq!['"'] + doubled(value@.take(0)));
    }
    while i < chars.len()
        invariant
            i <= chars.len(),
            chars@ == value@,
            special == (exists|j: int| 0 <= j < i && is_special(#[trigger] value@[j])),
            field@ == seq!['"'] + doubled(value@.take(i as int)),
        decreases chars.len() - i,
    {
        let c = chars[i];
        let ghost before = field@;
        if c == ',' || c == '"' || c == '\n' || c == '\r' {
            special = true;
            proof {
                assert(is_special(value@[i as int]));
            }
        }
        proof {
            assert(value@.take(i + 1).drop_last() =~= value@.take(i as int));
        }
        field.push(c);
        if c == '"' {
            field.push(c);
            proof {
                assert(field@ =~= before + seq!['"', '"']);
            }
        }
        proof {
            assert(field@ =~= seq!['"'] + doubled(value@.take(i + 1)));
        }
        i += 1;
    }
    proof {
        assert(value@.take(value@.len() as int) =~= value@);
    }
    if special {
        field.push('"');
        proof {
            assert(field@ =~= seq!['"'] + doubled(value@) + seq!['"']);
        }
        field
    } else {
        value.to_string()
    }
}

/// Every second of two quotes that follow each other left out.
pub open spec fn undoubled(s: Seq<char>) -> Seq<char>
    decreases s.len(),
{
    if s.len() == 0 {
        Seq::empty()
    } else if s.len() >= 2 && s.last() == '"' && s[s.len() - 2] == '"' {
        undoubled(s.take(s.len() - 2)).push('"')
    } else {
        undoubled(s.drop_last()).push(s.last())
    }
}

/// Nothing is lost when quotes are doubled.
pub proof fn law_doubled_round_trip(s: Seq<char>)
    ensures
        undoubled(doubled(s)) == s,
    decreases s.len(),
{
    if s.len() > 0 {
        let front = doubled(s.drop_last());
        law_doubled_round_trip(s.drop_last());
        if s.last() == '"' {
            assert(doubled(s).take(doubled(s).len() - 2) =~= front);
            assert(undoubled(doubled(s)) == undoubled(front).push('"'));
        } else {
            assert(doubled(s).drop_last() =~= front);
        }
        assert(s.drop_last().push(s.last()) =~= s);
    }
}

/// A truth value in words.
pub open spec fn truth(value: bool) -> Seq<char> {
    if value {
        "true"@
    } else {
        "false"@
    }
}

fn push_truth(row: &mut String, value: bool)
    ensures
        final(row)@ == old(row)@ + ","@ + truth(value),
{
    row.append(",");
    if value {
        row.append("true");
    } else {
        row.append("false");
    }
}

fn push_field(row: &mut String, value: &str)
    ensures
        final(row)@ == old(row)@ + ","@ + csv_field(value@),
{
    row.append(",");
    let field = csv_escape(value);
    row.append(&field);
}

/// The names of the columns.
pub open spec fn csv_header() -> Seq<char> {
    "address,encoding,text,module,rva,region_base,region_size,readable,writable,executable,guarded,ascii_preview\n"@
}

/// The name of the module of a hit, or nothing.
pub open spec fn module_name(hit: TextHitView) -> Seq<char> {
    match hit.module {
        Some(module) => module.name,
        None => ""@,
    }
}

/// Where in its module a hit lies, or nothing.
pub open spec fn module_rva(hit: TextHitView) -> Seq<char> {
    match hit.module {
        Some(module) => text::prefixed_hex(module.rva.0 as nat),
        None => ""@,
    }
}

/// A hit as a line of a table.
pub open spec fn csv_line(hit: TextHitView) -> Seq<char> {
    csv_field(text::prefixed_hex(hit.address.0 as nat)) + ","@ + csv_field(hit.encoding.name())
        + ","@ + csv_field(hit.text) + ","@ + csv_field(module_name(hit)) + ","@ + csv_field(
        module_rva(hit),
    ) + ","@ + csv_field(text::prefixed_hex(hit.region.base.0 as nat)) + ","@ + csv_field(
        text::decimal_text(hit.region.size as nat),
    ) + ","@ + truth(hit.region.flags.readable) + ","@ + truth(hit.region.flags.writable) + ","@
        + truth(hit.region.flags.executable) + ","@ + truth(hit.region.flags.guarded) + ","@
        + csv_field(hit.ascii_preview) + "\n"@
}

/// A hit as a line of a table.
pub fn csv_row(hit: &TextHit) -> (row: String)
    ensures
        row@ == csv_line(hit.deep_view()),
{
    let mut row = csv_escape(&text::hex(hit.address.0));
    push_field(&mut row, hit.encoding.label());
    push_field(&mut row, &hit.text);
    match &hit.module {
        Some(module) => {
            push_field(&mut row, &module.name);
            push_field(&mut row, &text::hex(module.rva.0));
        },
        None => {
            push_field(&mut row, "");
            push_field(&mut row, "");
        },
    }
    push_field(&mut row, &text::hex(hit.region.base.0));
    push_field(&mut row, &text::decimal(hit.region.size as u64));
    push_truth(&mut row, hit.region.flags.readable);
    push_truth(&mut row, hit.region.flags.writable);
    push_truth(&mut row, hit.region.flags.executable);
    push_truth(&mut row, hit.region.flags.guarded);
    push_field(&mut row, &hit.ascii_preview);
    row.append("\n");
    row
}

/// What a file begins with.
pub open spec fn file_start(format: ScanOutputFormat) -> Seq<char> {
    match format {
        ScanOutputFormat::Csv => csv_header(),
        ScanOutputFormat::Json => "[\n"@,
    }
}

/// What stands between two records.
pub open spec fn file_separator(format: ScanOutputFormat) -> Seq<char> {
    match format {
        ScanOutputFormat::Csv => ""@,
        ScanOutputFormat::Json => ",\n"@,
    }
}

/// What a file ends with.
pub open spec fn file_end(format: ScanOutputFormat) -> Seq<char> {
    match format {
        ScanOutputFormat::Csv => ""@,
        ScanOutputFormat::Json => "\n]\n"@,
    }
}

/// A file of some records.
pub open spec fn file_text(format: ScanOutputFormat, records: Seq<Seq<char>>) -> Seq<char> {
    file_start(format) + text::joined(records, file_separator(format)) + file_end(format)
}

/// A file of hits that is being written piece by piece.
#[derive(Debug, PartialEq, Eq)]
pub struct ScanFile {
    pub format: ScanOutputFormat,
    /// Whether nothing has been recorded yet.
    pub first: bool,
}

impl ScanFile {
    /// A file without records, and what it begins with.
    pub fn start(format: ScanOutputFormat) -> (started: (Self, &'static str))
        ensures
            started.0 == (ScanFile { format, first: true }),
            started.1@ == file_start(format),
    {
        match format {
            ScanOutputFormat::Csv => (
                ScanFile { format, first: true },
                "address,encoding,text,module,rva,region_base,region_size,readable,writable,executable,guarded,ascii_preview\n",
            ),
            ScanOutputFormat::Json => (ScanFile { format, first: true }, "[\n"),
        }
    }

    /// What stands before the next record.
    pub fn before_record(&mut self) -> (piece: &'static str)
        ensures
            *final(self) == (ScanFile { format: old(self).format, first: false }),
            piece@ == (if old(self).first {
                ""@
            } else {
                file_separator(old(self).format)
            }),
    {
        let first = self.first;
        self.first = false;
        if first {
            return "";
        }
        match self.format {
            ScanOutputFormat::Csv => "",
            ScanOutputFormat::Json => ",\n",
        }
    }

    /// What the file ends with.
    pub fn end(&self) -> (piece: &'static str)
        ensures
            piece@ == file_end(self.format),
    {
        match self.format {
            ScanOutputFormat::Csv => "",
            ScanOutputFormat::Json => "\n]\n",
        }
    }
}

/// What is written of some records, each behind its separator.
pub open spec fn written(format: ScanOutputFormat, records: Seq<Seq<char>>) -> Seq<char>
    decreases records.len(),
{
    if records.len() == 0 {
        Seq::empty()
    } else {
        written(format, records.drop_last()) + (if records.len() == 1 {
            ""@
        } else {
            file_separator(format)
        }) + records.last()
    }
}

/// The pieces, one after the other, are the records with separators between them.
pub proof fn law_file_pieces(format: ScanOutputFormat, records: Seq<Seq<char>>)
    ensures
        file_start(format) + written(format, records) + file_end(format) == file_text(
            format,
            records,
        ),
    decreases records.len(),
{
    lemma_written(format, records);
}

proof fn lemma_written(format: ScanOutputFormat, records: Seq<Seq<char>>)
    ensures
        written(format, records) == text::joined(records, file_separator(format)),
    decreases records.len(),
{
    if records.len() > 1 {
        lemma_written(format, records.drop_last());
    } else if records.len() == 1 {
        reveal_strlit("");
        assert(written(format, records.drop_last()) =~= Seq::empty());
        assert(written(format, records) =~= records.last());
    }
}

/// The name of a file of hits: for a process and a moment.
pub open spec fn scan_file_text(
    pid: int,
    regex: bool,
    stamp: Seq<char>,
    format: ScanOutputFormat,
) -> Seq<char> {
    "argus-"@ + (if regex {
        "scan-regex"@
    } else {
        "scan-string"@
    }) + "-"@ + text::decimal_text(pid as nat) + "-"@ + stamp + "."@ + format.name()
}

/// The name of a file of hits: for a process and a moment.
pub fn scan_file_name(pid: u32, regex: bool, stamp: &str, format: ScanOutputFormat) -> (name:
    String)
    ensures
        name@ == scan_file_text(pid as int, regex, stamp@, format),
{
    let mut name = "argus-".to_string();
    if regex {
        name.append("scan-regex");
    } else {
        name.append("scan-string");
    }
    name.append("-");
    text::push_decimal(&mut name, pid as u64);
    name.append("-");
    name.append(stamp);
    name.append(".");
    name.append(format.label());
    name
}

/// A scan of a region finds the first hits that the query has there, as many as are still
/// wanted: all of them where everything is scanned, and else those up to the limit.
pub proof fn law_text_scan_finds(
    scan: TextScanView,
    region: MemoryRegionInfo,
    base: Address,
    bytes: Seq<u8>,
)
    requires
        scan.valid(),
    ensures
        ({
            let all = scan.query.hits(
                ScanTargetView { region, base, bytes, modules: scan.modules },
            );
            let found = scan.found(region, base, bytes);
            &&& found.is_prefix_of(all)
            &&& scan.scan_all && all.len() <= usize::MAX ==> found == all
            &&& !scan.scan_all ==> scan.total + found.len() <= scan.max_results
            &&& !scan.scan_all && found.len() < all.len() ==> scan.total + found.len()
                == scan.max_results
        }),
{
}

/// After a region a scan has counted its hits, the region and its bytes, and has kept the
/// hits that there is room for behind those that it had.
pub proof fn law_text_scan_after(scan: TextScanView, found: Seq<TextHitView>, byte_count: int)
    requires
        scan.valid(),
        0 <= byte_count,
        scan.total + found.len() <= usize::MAX,
        0 <= scan.region_count < usize::MAX,
        scan.byte_count + byte_count <= usize::MAX,
    ensures
        ({
            let next = scan.after(found, byte_count);
            &&& next.total == scan.total + found.len()
            &&& next.region_count == scan.region_count + 1
            &&& next.byte_count == scan.byte_count + byte_count
            &&& next.kept.is_prefix_of(scan.kept + found)
            &&& next.kept.len() == if scan.kept.len() + found.len() < scan.max_results {
                (scan.kept.len() + found.len()) as int
            } else {
                scan.max_results
            }
            &&& next.query == scan.query
            &&& next.scope == scan.scope
            &&& next.scan_all == scan.scan_all
            &&& next.max_results == scan.max_results
            &&& next.modules == scan.modules
        }),
{
}

/// A scan wants to read of the readable regions that its scope takes in, until it has found
/// enough; within the limits of the scope, unless everything is scanned.
pub proof fn law_text_scan_wants(scan: TextScanView, region: MemoryRegionInfo)
    requires
        scan.valid(),
        0 <= scan.byte_count,
    ensures
        ({
            let inside = snapshot::in_first_module(scan.modules, region.base);
            let limit = snapshot::read_limit(scan.scope, inside);
            match scan.wants(region) {
                Some(len) => {
                    &&& region.flags.readable && !region.flags.guarded
                    &&& scan.scope.takes(inside, region.flags.executable)
                    &&& scan.scan_all || scan.total < scan.max_results
                    &&& len <= region.size
                    &&& !scan.scan_all ==> len <= limit && scan.byte_count + len
                        <= snapshot::total_limit()
                    &&& !scan.scan_all ==> len == region.size || len == limit || scan.byte_count
                        + len == snapshot::total_limit()
                    &&& scan.scan_all && scan.byte_count + region.size <= usize::MAX ==> len
                        == region.size
                },
                None => {
                    ||| !region.flags.readable || region.flags.guarded
                    ||| !scan.scope.takes(inside, region.flags.executable)
                    ||| !scan.scan_all && scan.total >= scan.max_results
                    ||| !scan.scan_all && scan.byte_count >= snapshot::total_limit()
                    ||| scan.byte_count >= usize::MAX
                },
            }
        }),
{
}

/// A field of a table reads back as the text: it stands bare where it holds no separator,
/// quote or line break, and else in quotes with its own quotes doubled.
pub proof fn law_csv_field(s: Seq<char>)
    ensures
        if exists|i: int|
            0 <= i < s.len() && (#[trigger] s[i] == ',' || s[i] == '"' || s[i] == '\n' || s[i]
                == '\r') {
            let field = csv_field(s);
            &&& field.len() >= 2
            &&& field[0] == '"' && field.last() == '"'
            &&& undoubled(field.subrange(1, field.len() - 1)) == s
        } else {
            csv_field(s) == s
        },
{
    law_doubled_round_trip(s);
    let field = csv_field(s);
    if needs_quotes(s) {
        let i = choose|i: int| 0 <= i < s.len() && is_special(#[trigger] s[i]);
        assert(s[i] == ',' || s[i] == '"' || s[i] == '\n' || s[i] == '\r');
        assert(field.subrange(1, field.len() - 1) =~= doubled(s));
    } else {
        assert forall|i: int| 0 <= i < s.len() implies !(#[trigger] s[i] == ',' || s[i] == '"'
            || s[i] == '\n' || s[i] == '\r') by {
            assert(!is_special(s[i]));
        }
    }
}

/// The fields of a hit, in the order of the columns of the table.
pub open spec fn columns(hit: TextHitView) -> Seq<Seq<char>> {
    let flags = hit.region.flags;
    seq![
        text::prefixed_hex(hit.address.0 as nat),
        hit.encoding.name(),
        hit.text,
        match hit.module {
            Some(module) => module.name,
            None => Seq::empty(),
        },
        match hit.module {
            Some(module) => text::prefixed_hex(module.rva.0 as nat),
            None => Seq::empty(),
        },
        text::prefixed_hex(hit.region.base.0 as nat),
        text::decimal_text(hit.region.size as nat),
        if flags.readable {
            "true"@
        } else {
            "false"@
        },
        if flags.writable {
            "true"@
        } else {
            "false"@
        },
        if flags.executable {
            "true"@
        } else {
            "false"@
        },
        if flags.guarded {
            "true"@
        } else {
            "false"@
        },
        hit.ascii_preview,
    ]
}

proof fn lemma_truth_bare(value: bool)
    ensures
        csv_field(truth(value)) == truth(value),
{
    reveal_strlit("true");
    reveal_strlit("false");
    law_csv_field(truth(value));
    assert forall|i: int| 0 <= i < truth(value).len() implies !is_special(
        #[trigger] truth(value)[i],
    ) by {}
}

/// A line of the table holds a field for each column, with commas between them, and ends
/// with a line break.
pub proof fn law_csv_line(hit: TextHitView)
    ensures
        csv_line(hit) == text::joined(
            columns(hit).map_values(|field: Seq<char>| csv_field(field)),
            ","@,
        ) + "\n"@,
{
    let flags = hit.region.flags;
    lemma_truth_bare(flags.readable);
    lemma_truth_bare(flags.writable);
    lemma_truth_bare(flags.executable);
    lemma_truth_bare(flags.guarded);
    reveal_strlit("");
    assert(module_name(hit) =~= columns(hit)[3]);
    assert(module_rva(hit) =~= columns(hit)[4]);
    let fields = columns(hit).map_values(|field: Seq<char>| csv_field(field));
    assert(fields.len() == 12);
    lemma_joined_step(fields, ","@, 12);
    lemma_joined_step(fields, ","@, 11);
    lemma_joined_step(fields, ","@, 10);
    lemma_joined_step(fields, ","@, 9);
    lemma_joined_step(fields, ","@, 8);
    lemma_joined_step(fields, ","@, 7);
    lemma_joined_step(fields, ","@, 6);
    lemma_joined_step(fields, ","@, 5);
    lemma_joined_step(fields, ","@, 4);
    lemma_joined_step(fields, ","@, 3);
    lemma_joined_step(fields, ","@, 2);
    assert(text::joined(fields.take(1), ","@) == fields[0]);
    assert(fields.take(12) =~= fields);
}

proof fn lemma_joined_step(fields: Seq<Seq<char>>, separator: Seq<char>, n: int)
    requires
        2 <= n <= fields.len(),
    ensures
        text::joined(fields.take(n), separator) == text::joined(fields.take(n - 1), separator)
            + separator + fields[n - 1],
{
    assert(fields.take(n).drop_last() =~= fields.take(n - 1));
}

} // verus!
