//! Scans for exact text in UTF-8 and UTF-16, and the report of what is found.

use vstd::prelude::*;

use crate::evidence::{Address, ModuleContext, ModuleContextView, Rva};
use crate::find;
use crate::hits;
use crate::memory::{ModuleInfo, ModuleInfoView};
use crate::options::TextEncoding;
use crate::seqs;
use crate::snapshot::MemoryRegionInfo;
use crate::text;

verus! {

/// Bytes as text; what is no UTF-8 becomes replacement characters.
pub uninterp spec fn lossy_text(bytes: Seq<u8>) -> Seq<char>;

/// `String::from_utf8_lossy`.
#[verifier::external_body]
pub(crate) fn text_from_bytes(bytes: &[u8]) -> (text: String)
    ensures
        text@ == lossy_text(bytes@),
{
    String::from_utf8_lossy(bytes).to_string()
}

/// A text that was found.
#[derive(Debug, PartialEq, Eq)]
pub struct TextHit {
    pub address: Address,
    pub encoding: TextEncoding,
    pub text: String,
    pub module: Option<ModuleContext>,
    pub region: MemoryRegionInfo,
    pub ascii_preview: String,
    pub scan_base: Address,
    pub offset: usize,
}

#[verifier::ext_equal]
pub struct TextHitView {
    pub address: Address,
    pub encoding: TextEncoding,
    pub text: Seq<char>,
    pub module: Option<ModuleContextView>,
    pub region: MemoryRegionInfo,
    pub ascii_preview: Seq<char>,
    pub scan_base: Address,
    pub offset: usize,
}

impl DeepView for TextHit {
    type V = TextHitView;

    open spec fn deep_view(&self) -> TextHitView {
        TextHitView {
            address: self.address,
            encoding: self.encoding,
            text: self.text@,
            module: self.module.deep_view(),
            region: self.region,
            ascii_preview: self.ascii_preview@,
            scan_base: self.scan_base,
            offset: self.offset,
        }
    }
}

/// Bytes that were read of a region, from an address on.
pub struct ScanTarget<'a> {
    pub region: MemoryRegionInfo,
    pub base: Address,
    pub bytes: &'a [u8],
    pub modules: &'a Vec<ModuleInfo>,
}

#[verifier::ext_equal]
pub struct ScanTargetView {
    pub region: MemoryRegionInfo,
    pub base: Address,
    pub bytes: Seq<u8>,
    pub modules: Seq<ModuleInfoView>,
}

impl<'a> DeepView for ScanTarget<'a> {
    type V = ScanTargetView;

    open spec fn deep_view(&self) -> ScanTargetView {
        ScanTargetView {
            region: self.region,
            base: self.base,
            bytes: self.bytes@,
            modules: self.modules.deep_view(),
        }
    }
}

/// The address behind a module, as far as there are addresses.
pub open spec fn module_end(module: ModuleInfoView) -> int {
    if module.base.0 + module.size <= u64::MAX {
        module.base.0 + module.size
    } else {
        u64::MAX as int
    }
}

/// Whether a module reaches over an address.
pub open spec fn modules_over(address: Address) -> spec_fn(ModuleInfoView) -> bool {
    |module: ModuleInfoView| module.base.0 <= address.0 < module_end(module)
}

/// The first module that reaches over an address.
pub open spec fn module_over(modules: Seq<ModuleInfoView>, address: Address) -> Option<
    ModuleContextView,
> {
    match seqs::first_from(modules, 0, modules_over(address)) {
        Some(i) => Some(modules[i].context(address)),
        None => None,
    }
}

/// The first module that reaches over an address.
pub fn module_context(address: Address, modules: &Vec<ModuleInfo>) -> (found: Option<
    ModuleContext,
>)
    ensures
        found.deep_view() == module_over(modules.deep_view(), address),
{
    let ghost wanted = modules_over(address);
    let ghost all = modules.deep_view();
    let mut i: usize = 0;
    while i < modules.len()
        invariant
            i <= modules.len(),
            all == modules.deep_view(),
            wanted == modules_over(address),
            seqs::first_from(all, 0, wanted) == seqs::first_from(all, i as int, wanted),
        decreases modules.len() - i,
    {
        let module = &modules[i];
        proof {
            assert(module.deep_view() == all[i as int]);
        }
        if module.base.0 <= address.0 && address.0 < module.base.0.saturating_add(module.size) {
            return Some(
                ModuleContext {
                    name: module.name.clone(),
                    base: module.base,
                    rva: Rva(address.0 - module.base.0),
                },
            );
        }
        i += 1;
    }
    None
}

/// The report of a text at an offset of what was read, with sixteen bytes to
/// either side in its preview.
pub open spec fn text_hit(
    target: ScanTargetView,
    encoding: TextEncoding,
    text: Seq<char>,
    offset: int,
    len: int,
) -> TextHitView {
    let address = target.base.plus(offset);
    TextHitView {
        address,
        encoding,
        text,
        module: module_over(target.modules, address),
        region: target.region,
        ascii_preview: hits::preview_text(
            hits::clipped(target.bytes, offset - 16, offset + len + 16),
        ),
        scan_base: target.base,
        offset: offset as usize,
    }
}

/// The report of a text at an offset of what was read.
pub fn text_match(
    target: &ScanTarget<'_>,
    encoding: TextEncoding,
    text: String,
    offset: usize,
    len: usize,
) -> (hit: TextHit)
    requires
        offset <= target.bytes@.len(),
    ensures
        hit.deep_view() == text_hit(
            target.deep_view(),
            encoding,
            text@,
            offset as int,
            len as int,
        ),
{
    let address = target.base.offset(offset as u64);
    let data = target.bytes;
    let start: usize = if offset < 16 {
        0
    } else {
        offset - 16
    };
    let left: usize = data.len() - offset;
    let middle: usize = if len < left {
        offset + len
    } else {
        data.len()
    };
    let end: usize = if data.len() - middle > 16 {
        middle + 16
    } else {
        data.len()
    };
    let preview = hits::ascii_preview(&data[start..end]);
    proof {
        assert(data@.subrange(start as int, end as int) =~= hits::clipped(
            data@,
            offset - 16,
            offset + len + 16,
        ));
    }
    TextHit {
        address,
        encoding,
        text,
        module: module_context(address, target.modules),
        region: target.region,
        ascii_preview: preview,
        scan_base: target.base,
        offset,
    }
}

/// A byte for comparison: where case does not count, ASCII capitals are lowered.
pub open spec fn folded_byte(byte: u8, case_sensitive: bool) -> u8 {
    if !case_sensitive && 0x41 <= byte <= 0x5a {
        (byte + 32) as u8
    } else {
        byte
    }
}

/// Bytes for comparison.
pub open spec fn folded(bytes: Seq<u8>, case_sensitive: bool) -> Seq<u8> {
    bytes.map_values(|byte: u8| folded_byte(byte, case_sensitive))
}

fn fold_byte(byte: u8, case_sensitive: bool) -> (result: u8)
    ensures
        result == folded_byte(byte, case_sensitive),
{
    if !case_sensitive && 0x41 <= byte && byte <= 0x5a {
        byte + 32
    } else {
        byte
    }
}

/// Whether two bytes are the same, where case counts or not.
pub fn byte_equal_with_case(left: u8, right: u8, case_sensitive: bool) -> (equal: bool)
    ensures
        equal == (folded_byte(left, case_sensitive) == folded_byte(right, case_sensitive)),
{
    fold_byte(left, case_sensitive) == fold_byte(right, case_sensitive)
}

/// Bytes for comparison.
pub fn fold_bytes(bytes: &[u8], case_sensitive: bool) -> (result: Vec<u8>)
    ensures
        result@ == folded(bytes@, case_sensitive),
{
    let mut result: Vec<u8> = Vec::new();
    let mut i: usize = 0;
    while i < bytes.len()
        invariant
            i <= bytes.len(),
            result@ == folded(bytes@.take(i as int), case_sensitive),
        decreases bytes.len() - i,
    {
        result.push(fold_byte(bytes[i], case_sensitive));
        i += 1;
        proof {
            assert(folded(bytes@.take(i as int), case_sensitive) =~= folded(
                bytes@.take(i - 1),
                case_sensitive,
            ).push(folded_byte(bytes@[i - 1], case_sensitive)));
        }
    }
    proof {
        assert(bytes@.take(bytes@.len() as int) =~= bytes@);
    }
    result
}

/// Whether two runs of bytes are the same, where case counts or not.
pub fn bytes_equal_with_case(left: &[u8], right: &[u8], case_sensitive: bool) -> (equal: bool)
    ensures
        equal == (folded(left@, case_sensitive) == folded(right@, case_sensitive)),
{
    text::same_bytes(&fold_bytes(left, case_sensitive), &fold_bytes(right, case_sensitive))
}

/// The first index at which a needle stands, where case counts or not; the empty
/// needle stands nowhere.
pub fn find_bytes_with_case(haystack: &[u8], needle: &[u8], case_sensitive: bool) -> (found: Option<
    usize,
>)
    ensures
        match found {
            Some(i) => needle@.len() > 0 && find::find_from(
                folded(haystack@, case_sensitive),
                folded(needle@, case_sensitive),
                0,
            ) == Some(i as int),
            None => needle@.len() == 0 || find::find_from(
                folded(haystack@, case_sensitive),
                folded(needle@, case_sensitive),
                0,
            ) is None,
        },
{
    if needle.len() == 0 {
        return None;
    }
    find::find_bytes(
        &fold_bytes(haystack, case_sensitive),
        &fold_bytes(needle, case_sensitive),
        0,
    )
}

/// The reports of an exact UTF-8 text.
pub open spec fn utf8_hit(target: ScanTargetView, len: int) -> spec_fn(usize) -> TextHitView {
    |offset: usize|
        text_hit(
            target,
            TextEncoding::Utf8,
            lossy_text(target.bytes.subrange(offset as int, offset + len)),
            offset as int,
            len,
        )
}

/// The reports of an exact UTF-8 text, leftmost first and without overlap.
pub open spec fn exact_utf8_hits(
    target: ScanTargetView,
    pattern: Seq<char>,
    case_sensitive: bool,
) -> Seq<TextHitView> {
    let needle = vstd::utf8::encode_utf8(pattern);
    find::occurrences(
        folded(target.bytes, case_sensitive),
        folded(needle, case_sensitive),
        0,
    ).map_values(utf8_hit(target, needle.len() as int))
}

/// The first `limit` places of an exact UTF-8 text.
pub fn scan_exact_utf8(
    target: &ScanTarget<'_>,
    pattern: &str,
    case_sensitive: bool,
    limit: usize,
) -> (found: Vec<TextHit>)
    ensures
        found.deep_view() == seqs::capped(
            exact_utf8_hits(target.deep_view(), pattern@, case_sensitive),
            limit as int,
        ),
{
    let needle = pattern.as_bytes();
    let ghost view = target.deep_view();
    let ghost h = utf8_hit(view, needle@.len() as int);
    let data = fold_bytes(target.bytes, case_sensitive);
    let wanted = fold_bytes(needle, case_sensitive);
    let offsets = find::find_all(&data, &wanted, limit);
    proof {
        seqs::lemma_capped_map(find::occurrences(data@, wanted@, 0), h, limit as int);
    }
    let mut found: Vec<TextHit> = Vec::new();
    let mut i: usize = 0;
    proof {
        assert(found.deep_view() =~= offsets@.take(0).map_values(h));
    }
    while i < offsets.len()
        invariant
            i <= offsets.len(),
            view == target.deep_view(),
            h == utf8_hit(view, needle@.len() as int),
            data@ == folded(view.bytes, case_sensitive),
            wanted@ == folded(needle@, case_sensitive),
            forall|j: int|
                0 <= j < offsets@.len() ==> find::occurs_at(
                    data@,
                    wanted@,
                    #[trigger] offsets@[j] as int,
                ),
            found.deep_view() == offsets@.take(i as int).map_values(h),
        decreases offsets.len() - i,
    {
        let offset: usize = offsets[i];
        let ghost before = found.deep_view();
        proof {
            assert(find::occurs_at(data@, wanted@, offset as int));
            assert(target.bytes.len() == target.bytes@.len());
        }
        let here = text_from_bytes(&target.bytes[offset..offset + needle.len()]);
        found.push(text_match(target, TextEncoding::Utf8, here, offset, needle.len()));
        i += 1;
        proof {
            assert(found.deep_view() =~= before.push(h(offset)));
            assert(offsets@.take(i as int).map_values(h) =~= before.push(h(offset)));
        }
    }
    proof {
        assert(offsets@.take(offsets@.len() as int) =~= offsets@);
    }
    found
}

/// The UTF-16 units of a character: one, or a pair of surrogates.
pub open spec fn char_units(c: char) -> Seq<u16> {
    let code = c as u32;
    if code < 0x10000 {
        seq![code as u16]
    } else {
        seq![
            (0xd800 + (code - 0x10000) / 0x400) as u16,
            (0xdc00 + (code - 0x10000) % 0x400) as u16,
        ]
    }
}

/// The UTF-16 units of a text.
pub open spec fn utf16_units(s: Seq<char>) -> Seq<u16>
    decreases s.len(),
{
    if s.len() == 0 {
        Seq::empty()
    } else {
        utf16_units(s.drop_last()) + char_units(s.last())
    }
}

fn push_units(units: &mut Vec<u16>, c: char)
    ensures
        final(units)@ == old(units)@ + char_units(c),
{
    let code: u32 = c as u32;
    if code < 0x10000 {
        units.push(code as u16);
    } else {
        let rest: u32 = code - 0x10000;
        units.push((0xd800 + rest / 0x400) as u16);
        units.push((0xdc00 + rest % 0x400) as u16);
    }
    proof {
        assert(units@ =~= old(units)@ + char_units(c));
    }
}

/// The UTF-16 units of a text.
pub fn encode_utf16(s: &str) -> (units: Vec<u16>)
    ensures
        units@ == utf16_units(s@),
        units@.len() >= s@.len(),
{
    let chars = text::chars_of(s);
    let mut units: Vec<u16> = Vec::new();
    let mut i: usize = 0;
    while i < chars.len()
        invariant
            i <= chars.len(),
            chars@ == s@,
            units@ == utf16_units(s@.take(i as int)),
            units@.len() >= i,
        decreases chars.len() - i,
    {
        push_units(&mut units, chars[i]);
        proof {
            assert(s@.take(i + 1).drop_last() =~= s@.take(i as int));
        }
        i += 1;
    }
    proof {
        assert(s@.take(s@.len() as int) =~= s@);
    }
    units
}

/// A UTF-16 unit for comparison: where case does not count, ASCII capitals are
/// lowered.
pub open spec fn folded_unit(unit: int, case_sensitive: bool) -> int {
    if !case_sensitive && 0x41 <= unit <= 0x5a {
        unit + 32
    } else {
        unit
    }
}

/// Whether two UTF-16 units are the same, where case counts or not.
pub fn utf16_unit_equal_with_case(left: u16, right: u16, case_sensitive: bool) -> (equal: bool)
    ensures
        equal == (folded_unit(left as int, case_sensitive) == folded_unit(
            right as int,
            case_sensitive,
        )),
{
    let folded_left: u32 = if !case_sensitive && 0x41 <= left && left <= 0x5a {
        left as u32 + 32
    } else {
        left as u32
    };
    let folded_right: u32 = if !case_sensitive && 0x41 <= right && right <= 0x5a {
        right as u32 + 32
    } else {
        right as u32
    };
    folded_left == folded_right
}

/// The UTF-16 unit at an offset.
pub open spec fn unit_at(bytes: Seq<u8>, offset: int) -> int {
    bytes[offset] + 256 * bytes[offset + 1]
}

/// Whether UTF-16 units stand at an offset.
pub open spec fn units_stand_at(
    bytes: Seq<u8>,
    needle: Seq<u16>,
    offset: int,
    case_sensitive: bool,
) -> bool {
    &&& offset + 2 * needle.len() <= bytes.len()
    &&& forall|k: int|
        0 <= k < needle.len() ==> folded_unit(unit_at(bytes, offset + 2 * k), case_sensitive)
            == folded_unit(#[trigger] needle[k] as int, case_sensitive)
}

/// Whether UTF-16 units stand at an offset.
pub fn utf16_units_match(bytes: &[u8], offset: usize, needle: &[u16], case_sensitive: bool) -> (
    matched: bool)
    ensures
        matched == units_stand_at(bytes@, needle@, offset as int, case_sensitive),
{
    let len: usize = bytes.len();
    if offset > len || needle.len() > (len - offset) / 2 {
        return false;
    }
    let mut k: usize = 0;
    while k < needle.len()
        invariant
            k <= needle.len(),
            len == bytes.len(),
            offset + 2 * needle.len() <= len,
            forall|j: int|
                0 <= j < k ==> folded_unit(unit_at(bytes@, offset + 2 * j), case_sensitive)
                    == folded_unit(#[trigger] needle@[j] as int, case_sensitive),
        decreases needle.len() - k,
    {
        let at: usize = offset + 2 * k;
        let unit: u16 = bytes[at] as u16 + 256 * (bytes[at + 1] as u16);
        if !utf16_unit_equal_with_case(unit, needle[k], case_sensitive) {
            proof {
                assert(needle@[k as int] == needle[k as int]);
            }
            return false;
        }
        k += 1;
    }
    true
}

/// The offsets from `from` on, in steps of two, at which UTF-16 units stand
/// without overlap.
pub open spec fn unit_offsets(
    bytes: Seq<u8>,
    needle: Seq<u16>,
    from: int,
    case_sensitive: bool,
) -> Seq<usize>
    decreases bytes.len() - from,
{
    if needle.len() == 0 || from + 2 * needle.len() > bytes.len() {
        Seq::empty()
    } else if units_stand_at(bytes, needle, from, case_sensitive) {
        seq![from as usize] + unit_offsets(
            bytes,
            needle,
            from + 2 * needle.len(),
            case_sensitive,
        )
    } else {
        unit_offsets(bytes, needle, from + 2, case_sensitive)
    }
}

/// The first `limit` offsets from `from` on at which UTF-16 units stand.
fn find_units(
    bytes: &[u8],
    needle: &[u16],
    from: usize,
    case_sensitive: bool,
    limit: usize,
) -> (found: Vec<usize>)
    requires
        from <= 1,
    ensures
        found@ == seqs::capped(
            unit_offsets(bytes@, needle@, from as int, case_sensitive),
            limit as int,
        ),
        forall|k: int|
            0 <= k < found@.len() ==> (#[trigger] found@[k]) + 2 * needle@.len() <= bytes@.len(),
{
    let mut found: Vec<usize> = Vec::new();
    let len: usize = bytes.len();
    if needle.len() == 0 || needle.len() > len / 2 {
        return found;
    }
    let width: usize = 2 * needle.len();
    let ghost whole = unit_offsets(bytes@, needle@, from as int, case_sensitive);
    let mut offset: usize = from;
    proof {
        assert(found@ + whole =~= whole);
    }
    while offset <= len - width && found.len() < limit
        invariant
            len == bytes.len(),
            width == 2 * needle.len(),
            0 < needle.len(),
            width <= len,
            whole == unit_offsets(bytes@, needle@, from as int, case_sensitive),
            found@.len() <= limit,
            found@ + unit_offsets(bytes@, needle@, offset as int, case_sensitive) == whole,
            forall|k: int|
                0 <= k < found@.len() ==> (#[trigger] found@[k]) + 2 * needle@.len()
                    <= bytes@.len(),
        decreases len + 2 - offset,
    {
        if utf16_units_match(bytes, offset, needle, case_sensitive) {
            let ghost before = found@;
            let ghost rest = unit_offsets(
                bytes@,
                needle@,
                offset + 2 * needle@.len(),
                case_sensitive,
            );
            found.push(offset);
            proof {
                assert(before + (seq![offset] + rest) =~= found@ + rest);
            }
            offset = offset + width;
        } else {
            if len - width - offset < 2 {
                proof {
                    assert(unit_offsets(bytes@, needle@, offset + 2, case_sensitive).len() == 0);
                    assert(found@ =~= whole);
                }
                return found;
            }
            offset = offset + 2;
        }
    }
    proof {
        if found@.len() >= limit {
            assert(found@ =~= seqs::capped(whole, limit as int));
        } else {
            assert(unit_offsets(bytes@, needle@, offset as int, case_sensitive).len() == 0);
            assert(found@ =~= whole);
        }
    }
    found
}

/// The report of an exact UTF-16 text.
pub open spec fn utf16_hit(target: ScanTargetView, pattern: Seq<char>) -> spec_fn(
    usize,
) -> TextHitView {
    |offset: usize|
        text_hit(
            target,
            TextEncoding::Utf16Le,
            pattern,
            offset as int,
            2 * utf16_units(pattern).len() as int,
        )
}

/// The reports of an exact UTF-16 text: those at even offsets, then those at odd
/// ones.
pub open spec fn exact_utf16_hits(
    target: ScanTargetView,
    pattern: Seq<char>,
    case_sensitive: bool,
) -> Seq<TextHitView> {
    let needle = utf16_units(pattern);
    (unit_offsets(target.bytes, needle, 0, case_sensitive) + unit_offsets(
        target.bytes,
        needle,
        1,
        case_sensitive,
    )).map_values(utf16_hit(target, pattern))
}

/// The first `limit` places of an exact UTF-16 text.
pub fn scan_exact_utf16(
    target: &ScanTarget<'_>,
    pattern: &str,
    case_sensitive: bool,
    limit: usize,
) -> (found: Vec<TextHit>)
    ensures
        found.deep_view() == seqs::capped(
            exact_utf16_hits(target.deep_view(), pattern@, case_sensitive),
            limit as int,
        ),
{
    let ghost view = target.deep_view();
    let ghost h = utf16_hit(view, pattern@);
    let needle = encode_utf16(pattern);
    let ghost even = unit_offsets(view.bytes, needle@, 0, case_sensitive);
    let ghost odd = unit_offsets(view.bytes, needle@, 1, case_sensitive);
    let mut offsets = find_units(target.bytes, &needle, 0, case_sensitive, limit);
    if offsets.len() < limit {
        let mut more = find_units(
            target.bytes,
            &needle,
            1,
            case_sensitive,
            limit - offsets.len(),
        );
        proof {
            seqs::lemma_capped_append(even, odd, limit as int);
        }
        offsets.append(&mut more);
    } else {
        proof {
            seqs::lemma_capped_full(even, even + odd, limit as int);
        }
    }
    proof {
        seqs::lemma_capped_map(even + odd, h, limit as int);
    }
    let mut found: Vec<TextHit> = Vec::new();
    let mut i: usize = 0;
    proof {
        assert(found.deep_view() =~= offsets@.take(0).map_values(h));
    }
    while i < offsets.len()
        invariant
            i <= offsets.len(),
            view == target.deep_view(),
            needle@ == utf16_units(pattern@),
            h == utf16_hit(view, pattern@),
            forall|k: int|
                0 <= k < offsets@.len() ==> (#[trigger] offsets@[k]) + 2 * needle@.len()
                    <= target.bytes@.len(),
            found.deep_view() == offsets@.take(i as int).map_values(h),
        decreases offsets.len() - i,
    {
        let offset: usize = offsets[i];
        let ghost before = found.deep_view();
        proof {
            assert(target.bytes.len() == target.bytes@.len());
        }
        found.push(
            text_match(
                target,
                TextEncoding::Utf16Le,
                pattern.to_string(),
                offset,
                2 * needle.len(),
            ),
        );
        i += 1;
        proof {
            assert(found.deep_view() =~= before.push(h(offset)));
            assert(offsets@.take(i as int).map_values(h) =~= before.push(h(offset)));
        }
    }
    proof {
        assert(offsets@.take(offsets@.len() as int) =~= offsets@);
    }
    found
}

/// Whether two numbers are the same character code, or those of one ASCII letter in its two
/// cases where case does not count.
pub open spec fn alike(left: int, right: int, case_sensitive: bool) -> bool {
    ||| left == right
    ||| !case_sensitive && 0x41 <= left <= 0x5a && right == left + 32
    ||| !case_sensitive && 0x41 <= right <= 0x5a && left == right + 32
}

/// Two bytes or two UTF-16 units compare as equal just where they are alike.
pub proof fn law_folded_alike(left: u8, right: u8, a: u16, b: u16, case_sensitive: bool)
    ensures
        folded_byte(left, case_sensitive) == folded_byte(right, case_sensitive) <==> alike(
            left as int,
            right as int,
            case_sensitive,
        ),
        folded_unit(a as int, case_sensitive) == folded_unit(b as int, case_sensitive) <==> alike(
            a as int,
            b as int,
            case_sensitive,
        ),
{
}

/// A character is one UTF-16 unit, or two of which the first lies from `d800` on and the
/// second from `dc00` on and which together give its code; a text is its characters, one
/// behind the other.
pub proof fn law_utf16_units(front: Seq<char>, c: char, back: Seq<char>)
    ensures
        utf16_units(front + back) == utf16_units(front) + utf16_units(back),
        c as int <= 0xffff ==> utf16_units(seq![c]).len() == 1 && utf16_units(seq![c])[0] as int
            == c as int,
        c as int > 0xffff ==> {
            let units = utf16_units(seq![c]);
            &&& units.len() == 2
            &&& 0xd800 <= units[0] < 0xdc00
            &&& 0xdc00 <= units[1] < 0xe000
            &&& c as int == 0x10000 + (units[0] - 0xd800) * 0x400 + (units[1] - 0xdc00)
        },
    decreases back.len(),
{
    let one = seq![c];
    assert(one.drop_last() =~= Seq::<char>::empty());
    assert(utf16_units(one) =~= char_units(c)) by {
        reveal_with_fuel(utf16_units, 2);
    }
    if back.len() > 0 {
        law_utf16_units(front, c, back.drop_last());
        assert((front + back).drop_last() =~= front + back.drop_last());
        assert(utf16_units(front + back) =~= utf16_units(front) + utf16_units(back));
    } else {
        assert(front + back =~= front);
        assert(utf16_units(front) + utf16_units(back) =~= utf16_units(front));
    }
}

/// The module over an address is the first one between whose ends the address lies; one
/// that would reach over the last address ends there.
pub proof fn law_module_over(modules: Seq<ModuleInfoView>, address: Address)
    ensures
        match module_over(modules, address) {
            Some(context) => context.base.0 + context.rva.0 == address.0 && exists|i: int|
                0 <= i < modules.len() && (#[trigger] modules[i]).name == context.name
                    && modules[i].base == context.base && context.rva.0 < modules[i].size && forall|
                    j: int,
                |
                    0 <= j < i ==> !((#[trigger] modules[j]).base.0 <= address.0 < modules[j].base.0
                        + modules[j].size) || address.0 == u64::MAX,
            None => forall|j: int|
                0 <= j < modules.len() ==> !((#[trigger] modules[j]).base.0 <= address.0
                    < modules[j].base.0 + modules[j].size) || address.0 == u64::MAX,
        },
{
    let wanted = modules_over(address);
    seqs::lemma_first_from(modules, 0, wanted);
    assert forall|j: int| 0 <= j < modules.len() implies wanted(#[trigger] modules[j]) == (
    modules[j].base.0 <= address.0 < module_end(modules[j])) by {}
}

/// Whether a report shows the `len` bytes at an offset of what was read: the address there,
/// the module and the region around it, where the reading began, and a preview of sixteen
/// bytes to either side.
pub open spec fn reports(target: ScanTargetView, offset: int, len: int, hit: TextHitView) -> bool {
    let data = target.bytes;
    let left = if offset < 16 {
        offset
    } else {
        16
    };
    let right = if data.len() - offset - len < 16 {
        data.len() - offset - len
    } else {
        16
    };
    &&& hit.address.0 == (target.base.0 + offset) % 0x1_0000_0000_0000_0000
    &&& hit.offset == offset
    &&& hit.scan_base == target.base
    &&& hit.region == target.region
    &&& hit.module == module_over(target.modules, hit.address)
    &&& hit.ascii_preview.len() == left + len + right
    &&& forall|k: int|
        0 <= k < hit.ascii_preview.len() ==> {
            let byte = data[offset - left + k];
            #[trigger] hit.ascii_preview[k] == if 0x20 <= byte <= 0x7e {
                byte as char
            } else {
                '.'
            }
        }
}

proof fn lemma_text_hit_reports(
    target: ScanTargetView,
    encoding: TextEncoding,
    text: Seq<char>,
    offset: int,
    len: int,
)
    requires
        0 <= offset,
        0 <= len,
        offset + len <= target.bytes.len() <= usize::MAX,
    ensures
        reports(target, offset, len, text_hit(target, encoding, text, offset, len)),
{
}

/// Whether a needle stands at an offset of some bytes, where case counts or not.
pub open spec fn reads_at(
    data: Seq<u8>,
    needle: Seq<u8>,
    offset: int,
    case_sensitive: bool,
) -> bool {
    &&& 0 <= offset <= data.len() - needle.len()
    &&& forall|k: int|
        0 <= k < needle.len() ==> alike(
            data[offset + k] as int,
            #[trigger] needle[k] as int,
            case_sensitive,
        )
}

proof fn lemma_reads_at(data: Seq<u8>, needle: Seq<u8>, offset: int, case_sensitive: bool)
    requires
        0 <= offset <= data.len() - needle.len(),
    ensures
        reads_at(data, needle, offset, case_sensitive) <==> folded(data, case_sensitive).subrange(
            offset,
            offset + needle.len(),
        ) == folded(needle, case_sensitive),
{
    let part = folded(data, case_sensitive).subrange(offset, offset + needle.len());
    let whole = folded(needle, case_sensitive);
    assert forall|k: int| 0 <= k < needle.len() implies (part[k] == whole[k] <==> alike(
        data[offset + k] as int,
        #[trigger] needle[k] as int,
        case_sensitive,
    )) by {
        law_folded_alike(data[offset + k], needle[k], 0, 0, case_sensitive);
    }
    if reads_at(data, needle, offset, case_sensitive) {
        assert(part =~= whole);
    }
    if part == whole {
        assert forall|k: int| 0 <= k < needle.len() implies alike(
            data[offset + k] as int,
            #[trigger] needle[k] as int,
            case_sensitive,
        ) by {
            assert(part[k] == whole[k]);
        }
    }
}

/// A scan for an exact UTF-8 text reports the places at which its bytes stand, each behind
/// the end of the one before, with the text that stands there, and misses none but those
/// that overlap one that it reports.
pub proof fn law_exact_utf8_hits(target: ScanTargetView, pattern: Seq<char>, case_sensitive: bool)
    requires
        target.bytes.len() <= usize::MAX,
        vstd::utf8::encode_utf8(pattern).len() > 0,
    ensures
        ({
            let needle = vstd::utf8::encode_utf8(pattern);
            let len = needle.len() as int;
            let found = exact_utf8_hits(target, pattern, case_sensitive);
            &&& forall|i: int|
                0 <= i < found.len() ==> {
                    let offset = (#[trigger] found[i]).offset as int;
                    &&& reads_at(target.bytes, needle, offset, case_sensitive)
                    &&& reports(target, offset, len, found[i])
                    &&& found[i].encoding == TextEncoding::Utf8
                    &&& found[i].text == lossy_text(target.bytes.subrange(offset, offset + len))
                }
            &&& forall|i: int, j: int|
                0 <= i < j < found.len() ==> (#[trigger] found[i]).offset + len <= (
                #[trigger] found[j]).offset
            &&& forall|place: int| #[trigger]
                reads_at(target.bytes, needle, place, case_sensitive) ==> exists|i: int|
                    0 <= i < found.len() && (#[trigger] found[i]).offset <= place < found[i].offset
                        + len
        }),
{
    let needle = vstd::utf8::encode_utf8(pattern);
    let len = needle.len() as int;
    let data = folded(target.bytes, case_sensitive);
    let wanted = folded(needle, case_sensitive);
    let places = find::occurrences(data, wanted, 0);
    let found = exact_utf8_hits(target, pattern, case_sensitive);
    find::law_occurrences(data, wanted, 0);
    assert forall|i: int| 0 <= i < found.len() implies {
        let offset = (#[trigger] found[i]).offset as int;
        &&& reads_at(target.bytes, needle, offset, case_sensitive)
        &&& reports(target, offset, len, found[i])
        &&& found[i].encoding == TextEncoding::Utf8
        &&& found[i].text == lossy_text(target.bytes.subrange(offset, offset + len))
    } by {
        let offset = places[i] as int;
        assert(found[i] == utf8_hit(target, len)(places[i]));
        lemma_reads_at(target.bytes, needle, offset, case_sensitive);
        lemma_text_hit_reports(
            target,
            TextEncoding::Utf8,
            lossy_text(target.bytes.subrange(offset, offset + len)),
            offset,
            len,
        );
    }
    assert forall|i: int, j: int| 0 <= i < j < found.len() implies (#[trigger] found[i]).offset
        + len <= (#[trigger] found[j]).offset by {
        assert(found[i].offset == places[i] && found[j].offset == places[j]);
    }
    assert forall|place: int| #[trigger]
        reads_at(target.bytes, needle, place, case_sensitive) implies exists|i: int|
        0 <= i < found.len() && (#[trigger] found[i]).offset <= place < found[i].offset + len by {
        lemma_reads_at(target.bytes, needle, place, case_sensitive);
        assert(data.subrange(place, place + wanted.len()) == wanted);
        let i = choose|i: int|
            0 <= i < places.len() && (#[trigger] places[i]) <= place < places[i] + wanted.len();
        assert(found[i].offset == places[i]);
    }
}

/// Whether UTF-16 units stand at an offset of some bytes, the low byte of each first, where
/// case counts or not.
#[verifier::opaque]
pub open spec fn units_read_at(
    data: Seq<u8>,
    needle: Seq<u16>,
    offset: int,
    case_sensitive: bool,
) -> bool {
    &&& 0 <= offset
    &&& offset + 2 * needle.len() <= data.len()
    &&& forall|k: int|
        0 <= k < needle.len() ==> alike(
            data[offset + 2 * k] + 0x100 * data[offset + 2 * k + 1],
            #[trigger] needle[k] as int,
            case_sensitive,
        )
}

proof fn lemma_units_read_at(data: Seq<u8>, needle: Seq<u16>, offset: int, case_sensitive: bool)
    requires
        0 <= offset,
    ensures
        units_read_at(data, needle, offset, case_sensitive) <==> units_stand_at(
            data,
            needle,
            offset,
            case_sensitive,
        ),
        units_read_at(data, needle, offset, case_sensitive) ==> offset + 2 * needle.len()
            <= data.len(),
{
    reveal(units_read_at);
    assert forall|k: int| 0 <= k < needle.len() implies (alike(
        data[offset + 2 * k] + 0x100 * data[offset + 2 * k + 1],
        #[trigger] needle[k] as int,
        case_sensitive,
    ) <==> folded_unit(unit_at(data, offset + 2 * k), case_sensitive) == folded_unit(
        needle[k] as int,
        case_sensitive,
    )) by {}
}

/// The places of UTF-16 units from an offset on, in steps of two bytes, are places at which
/// they stand, each behind the end of the one before, and miss none in step with the offset
/// but those that overlap one of them.
#[verifier::rlimit(60)]
#[verifier::spinoff_prover]
pub proof fn law_unit_offsets(
    data: Seq<u8>,
    needle: Seq<u16>,
    from: int,
    case_sensitive: bool,
)
    requires
        0 <= from,
        0 < needle.len(),
        data.len() <= usize::MAX,
    ensures
        ({
            let found = unit_offsets(data, needle, from, case_sensitive);
            &&& forall|i: int|
                0 <= i < found.len() ==> from <= (#[trigger] found[i]) && (found[i] - from) % 2 == 0
                    && units_read_at(data, needle, found[i] as int, case_sensitive)
            &&& forall|i: int, j: int|
                0 <= i < j < found.len() ==> (#[trigger] found[i]) + 2 * needle.len()
                    <= #[trigger] found[j]
            &&& forall|place: int|
                from <= place && (place - from) % 2 == 0 && #[trigger] units_read_at(
                    data,
                    needle,
                    place,
                    case_sensitive,
                ) ==> exists|i: int|
                    0 <= i < found.len() && (#[trigger] found[i]) <= place < found[i] + 2
                        * needle.len()
        }),
    decreases data.len() - from,
{
    let found = unit_offsets(data, needle, from, case_sensitive);
    let len = 2 * needle.len() as int;
    lemma_units_read_at(data, needle, from, case_sensitive);
    if from + len <= data.len() {
        if units_stand_at(data, needle, from, case_sensitive) {
            law_unit_offsets(data, needle, from + len, case_sensitive);
            let rest = unit_offsets(data, needle, from + len, case_sensitive);
            assert(found == seq![from as usize] + rest);
            assert forall|i: int| 0 <= i < found.len() implies from <= (#[trigger] found[i]) && (
            found[i] - from) % 2 == 0 && units_read_at(
                data,
                needle,
                found[i] as int,
                case_sensitive,
            ) by {
                if i > 0 {
                    assert(found[i] == rest[i - 1]);
                }
            }
            assert forall|i: int, j: int| 0 <= i < j < found.len() implies (#[trigger] found[i])
                + len <= #[trigger] found[j] by {
                assert(found[j] == rest[j - 1]);
                if i > 0 {
                    assert(found[i] == rest[i - 1]);
                }
            }
            assert forall|place: int|
                from <= place && (place - from) % 2 == 0 && #[trigger] units_read_at(
                    data,
                    needle,
                    place,
                    case_sensitive,
                ) implies exists|i: int|
                0 <= i < found.len() && (#[trigger] found[i]) <= place < found[i] + len by {
                if place < from + len {
                    assert(found[0] <= place < found[0] + len);
                } else {
                    let i = choose|i: int|
                        0 <= i < rest.len() && (#[trigger] rest[i]) <= place < rest[i] + len;
                    assert(found[i + 1] == rest[i]);
                }
            }
        } else {
            law_unit_offsets(data, needle, from + 2, case_sensitive);
            assert(found == unit_offsets(data, needle, from + 2, case_sensitive));
            assert forall|i: int| 0 <= i < found.len() implies from <= (#[trigger] found[i]) && (
            found[i] - from) % 2 == 0 && units_read_at(
                data,
                needle,
                found[i] as int,
                case_sensitive,
            ) by {
                assert((found[i] - (from + 2)) % 2 == 0);
            }
            assert forall|place: int|
                from <= place && (place - from) % 2 == 0 && #[trigger] units_read_at(
                    data,
                    needle,
                    place,
                    case_sensitive,
                ) implies exists|i: int|
                0 <= i < found.len() && (#[trigger] found[i]) <= place < found[i] + len by {
                assert(place != from);
                assert(from + 2 <= place && (place - (from + 2)) % 2 == 0);
            }
        }
    } else {
        assert forall|place: int|
            from <= place && (place - from) % 2 == 0 && #[trigger] units_read_at(
                data,
                needle,
                place,
                case_sensitive,
            ) implies false by {
            lemma_units_read_at(data, needle, place, case_sensitive);
        }
    }
}

/// A scan for an exact UTF-16 text reports the places of its units at even offsets, and
/// then those at odd offsets.
pub proof fn law_exact_utf16_hits(target: ScanTargetView, pattern: Seq<char>, case_sensitive: bool)
    requires
        target.bytes.len() <= usize::MAX,
        utf16_units(pattern).len() > 0,
    ensures
        ({
            let needle = utf16_units(pattern);
            let even = unit_offsets(target.bytes, needle, 0, case_sensitive);
            let odd = unit_offsets(target.bytes, needle, 1, case_sensitive);
            let found = exact_utf16_hits(target, pattern, case_sensitive);
            &&& found.len() == even.len() + odd.len()
            &&& forall|i: int|
                0 <= i < found.len() ==> {
                    let offset = if i < even.len() {
                        even[i] as int
                    } else {
                        odd[i - even.len()] as int
                    };
                    &&& (#[trigger] found[i]).offset == offset
                    &&& units_read_at(target.bytes, needle, offset, case_sensitive)
                    &&& reports(target, offset, 2 * needle.len() as int, found[i])
                    &&& found[i].encoding == TextEncoding::Utf16Le
                    &&& found[i].text == pattern
                }
        }),
{
    let needle = utf16_units(pattern);
    let len = 2 * needle.len() as int;
    let even = unit_offsets(target.bytes, needle, 0, case_sensitive);
    let odd = unit_offsets(target.bytes, needle, 1, case_sensitive);
    let found = exact_utf16_hits(target, pattern, case_sensitive);
    law_unit_offsets(target.bytes, needle, 0, case_sensitive);
    law_unit_offsets(target.bytes, needle, 1, case_sensitive);
    assert forall|i: int| 0 <= i < found.len() implies {
        let offset = if i < even.len() {
            even[i] as int
        } else {
            odd[i - even.len()] as int
        };
        &&& (#[trigger] found[i]).offset == offset
        &&& units_read_at(target.bytes, needle, offset, case_sensitive)
        &&& reports(target, offset, len, found[i])
        &&& found[i].encoding == TextEncoding::Utf16Le
        &&& found[i].text == pattern
    } by {
        let offset = (even + odd)[i];
        assert(found[i] == utf16_hit(target, pattern)(offset));
        lemma_units_read_at(target.bytes, needle, offset as int, case_sensitive);
        lemma_text_hit_reports(target, TextEncoding::Utf16Le, pattern, offset as int, len);
    }
}

} // verus!
