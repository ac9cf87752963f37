//! How a finding is reported: its place, the bytes around it, and what to do next.

use vstd::prelude::*;

use crate::bytes;
use crate::evidence::{
    Address, AddressContext, AddressContextView, EvidenceContext, EvidenceContextView, EvidenceHit,
    EvidenceHitView, EvidenceValue, EvidenceValueView, NextToolHint, NextToolHintView,
    RegionContext, ToolArgument, ToolArgumentView,
};
use crate::memory::{ArgusEngine, MemoryRegion, MemoryRegionView, MemoryView};
use crate::text;

verus! {

/// A byte as it is shown in a preview.
pub open spec fn preview_char(byte: u8) -> char {
    if bytes::is_graphic(byte) || byte == 0x20 {
        byte as char
    } else {
        '.'
    }
}

/// Bytes as they are shown in a preview.
pub open spec fn preview_text(data: Seq<u8>) -> Seq<char> {
    data.map_values(|byte: u8| preview_char(byte))
}

/// The bytes from `start` to `end`, as far as the data reaches.
pub open spec fn clipped(data: Seq<u8>, start: int, end: int) -> Seq<u8> {
    let first = if start < 0 {
        0
    } else if start > data.len() {
        data.len() as int
    } else {
        start
    };
    let last = if end > data.len() {
        data.len() as int
    } else {
        end
    };
    if first < last {
        data.subrange(first, last)
    } else {
        Seq::empty()
    }
}

/// The sixteen bytes before and after a piece of evidence, and a preview of the
/// evidence with twenty-four bytes to either side; less where the data ends.
pub open spec fn context_of(data: Seq<u8>, offset: int, evidence_len: int) -> EvidenceContextView {
    EvidenceContextView {
        before: clipped(data, offset - 16, offset),
        after: clipped(data, offset + evidence_len, offset + evidence_len + 16),
        ascii_preview: preview_text(clipped(data, offset - 24, offset + evidence_len + 24)),
    }
}

/// A tool to call next on an address.
pub open spec fn hint(tool: Seq<char>, reason: Seq<char>, address: Address) -> NextToolHintView {
    NextToolHintView {
        tool,
        reason,
        arguments: seq![
            ToolArgumentView { name: "address"@, value: text::prefixed_hex(address.0 as nat) },
        ],
    }
}

/// The report of a finding at an offset of a region.
pub open spec fn hit_of(
    memory: MemoryView,
    label: Seq<char>,
    address: Address,
    region: MemoryRegionView,
    offset: int,
    evidence_len: int,
    evidence: EvidenceValueView,
    next_tools: Seq<NextToolHintView>,
) -> EvidenceHitView {
    EvidenceHitView {
        address,
        label,
        address_context: AddressContextView {
            module: memory.module_at(address),
            region: RegionContext { kind: region.kind, flags: region.flags },
        },
        evidence,
        context: context_of(region.bytes, offset, evidence_len),
        next_tools,
    }
}

/// Bytes as they are shown in a preview.
pub fn ascii_preview(data: &[u8]) -> (preview: String)
    ensures
        preview@ == preview_text(data@),
{
    let mut preview = String::new();
    let mut i: usize = 0;
    while i < data.len()
        invariant
            i <= data.len(),
            preview@ == preview_text(data@.take(i as int)),
        decreases data.len() - i,
    {
        let byte: u8 = data[i];
        if 0x20 <= byte && byte <= 0x7e {
            preview.push(byte as char);
        } else {
            preview.push('.');
        }
        i += 1;
        proof {
            assert(preview_text(data@.take(i as int)) =~= preview_text(data@.take(i - 1)).push(
                preview_char(byte),
            ));
        }
    }
    proof {
        assert(data@.take(data@.len() as int) =~= data@);
    }
    preview
}

/// The bytes around a piece of evidence.
pub fn context_window(data: &[u8], offset: usize, evidence_len: usize) -> (context: EvidenceContext)
    requires
        offset <= data@.len(),
    ensures
        context.deep_view() == context_of(data@, offset as int, evidence_len as int),
{
    let len: usize = data.len();
    let left: usize = len - offset;
    let before_start: usize = if offset < 16 {
        0
    } else {
        offset - 16
    };
    let after_start: usize = if evidence_len < left {
        offset + evidence_len
    } else {
        len
    };
    let after_end: usize = if len - after_start > 16 {
        after_start + 16
    } else {
        len
    };
    let preview_start: usize = if offset < 24 {
        0
    } else {
        offset - 24
    };
    let preview_end: usize = if len - after_start > 24 {
        after_start + 24
    } else {
        len
    };
    let before = vstd::slice::slice_to_vec(&data[before_start..offset]);
    let after = vstd::slice::slice_to_vec(&data[after_start..after_end]);
    let preview = ascii_preview(&data[preview_start..preview_end]);
    proof {
        let expected = context_of(data@, offset as int, evidence_len as int);
        assert(before@ =~= expected.before);
        assert(after@ =~= expected.after);
        assert(data@.subrange(preview_start as int, preview_end as int) =~= clipped(
            data@,
            offset - 24,
            offset + evidence_len + 24,
        ));
    }
    EvidenceContext { before, after, ascii_preview: preview }
}

/// What a finding is made of.
pub struct HitSpec<'a> {
    pub label: &'a str,
    pub address: Address,
    pub region: &'a MemoryRegion,
    pub offset: usize,
    pub evidence_len: usize,
    pub evidence: EvidenceValue,
    pub next_tools: Vec<NextToolHint>,
}

impl ArgusEngine {
    /// Reports a finding.
    pub fn hit(&self, spec: HitSpec<'_>) -> (hit: EvidenceHit)
        requires
            spec.offset <= spec.region.bytes@.len(),
        ensures
            hit.deep_view() == hit_of(
                self.memory(),
                spec.label@,
                spec.address,
                spec.region.deep_view(),
                spec.offset as int,
                spec.evidence_len as int,
                spec.evidence.deep_view(),
                spec.next_tools.deep_view(),
            ),
    {
        EvidenceHit {
            address: spec.address,
            label: spec.label.to_string(),
            address_context: AddressContext {
                module: self.module_at(spec.address),
                region: RegionContext { kind: spec.region.kind, flags: spec.region.flags },
            },
            evidence: spec.evidence,
            context: context_window(&spec.region.bytes, spec.offset, spec.evidence_len),
            next_tools: spec.next_tools,
        }
    }

    /// A tool to call next on an address.
    pub fn next_tool(&self, tool: &str, reason: &str, address: Address) -> (next: NextToolHint)
        ensures
            next.deep_view() == hint(tool@, reason@, address),
    {
        let next = NextToolHint {
            tool: tool.to_string(),
            reason: reason.to_string(),
            arguments: vec![
                ToolArgument { name: "address".to_string(), value: text::hex(address.0) },
            ],
        };
        proof {
            assert(next.arguments.deep_view() =~= hint(tool@, reason@, address).arguments);
        }
        next
    }

    /// Reads up to `size` bytes at an address; the region's end cuts the read short.
    pub fn mem_read(&self, address: Address, size: usize) -> (hit: Option<EvidenceHit>)
        ensures
            hit.deep_view() == mem_read_hit(self.memory(), address, size as int),
    {
        let (region, offset) = match self.region_at(address) {
            Some(found) => found,
            None => {
                return None;
            },
        };
        let left: usize = region.bytes.len() - offset;
        let end: usize = if size < left {
            offset + size
        } else {
            region.bytes.len()
        };
        let found = vstd::slice::slice_to_vec(&region.bytes[offset..end]);
        proof {
            assert(found@ =~= clipped(region.bytes@, offset as int, offset + size));
        }
        let evidence_len: usize = found.len();
        let next_tools = vec![
            self.next_tool(
                "scan_pointers_to",
                "find pointers that reference this memory address",
                address,
            ),
        ];
        proof {
            assert(next_tools.deep_view() =~= mem_read_hints(address));
        }
        Some(
            self.hit(
                HitSpec {
                    label: "mem_read",
                    address,
                    region,
                    offset,
                    evidence_len,
                    evidence: EvidenceValue::Bytes { bytes: found },
                    next_tools,
                },
            ),
        )
    }
}

/// What to do after reading memory.
pub open spec fn mem_read_hints(address: Address) -> Seq<NextToolHintView> {
    seq![
        hint("scan_pointers_to"@, "find pointers that reference this memory address"@, address),
    ]
}

/// The report of a read: the bytes at the address, as far as its region reaches.
pub open spec fn mem_read_hit(memory: MemoryView, address: Address, size: int) -> Option<
    EvidenceHitView,
> {
    match memory.region_at(address) {
        Some((region, offset)) => {
            let found = clipped(region.bytes, offset, offset + size);
            Some(
                hit_of(
                    memory,
                    "mem_read"@,
                    address,
                    region,
                    offset,
                    found.len() as int,
                    EvidenceValueView::Bytes { bytes: found },
                    mem_read_hints(address),
                ),
            )
        },
        None => None,
    }
}

/// Whether a report shows `len` bytes at an offset of a region: the address there, the
/// module and the region around it, the bytes to either side, sixteen where there are as
/// many, and a preview of twenty-four bytes to either side.
pub open spec fn shows(
    memory: MemoryView,
    region: MemoryRegionView,
    offset: int,
    len: int,
    hit: EvidenceHitView,
) -> bool {
    let data = region.bytes;
    let before = hit.context.before;
    let after = hit.context.after;
    let preview = hit.context.ascii_preview;
    let left = if offset < 24 {
        offset
    } else {
        24
    };
    let right = if data.len() - offset - len < 24 {
        data.len() - offset - len
    } else {
        24
    };
    &&& hit.address.0 == (region.base.0 + offset) % 0x1_0000_0000_0000_0000
    &&& hit.address_context.module == memory.module_at(hit.address)
    &&& hit.address_context.region.kind == region.kind
    &&& hit.address_context.region.flags == region.flags
    &&& before.len() == if offset < 16 {
        offset
    } else {
        16
    }
    &&& after.len() == if data.len() - offset - len < 16 {
        data.len() - offset - len
    } else {
        16
    }
    &&& before + data.subrange(offset, offset + len) + after == data.subrange(
        offset - before.len(),
        offset + len + after.len(),
    )
    &&& preview.len() == left + len + right
    &&& forall|k: int|
        0 <= k < preview.len() ==> {
            let byte = data[offset - left + k];
            #[trigger] preview[k] == if 0x20 <= byte <= 0x7e {
                byte as char
            } else {
                '.'
            }
        }
}

/// The report of a finding shows it.
pub proof fn law_hit_shows(
    memory: MemoryView,
    label: Seq<char>,
    region: MemoryRegionView,
    offset: int,
    len: int,
    evidence: EvidenceValueView,
    next_tools: Seq<NextToolHintView>,
)
    requires
        0 <= offset,
        0 <= len,
        offset + len <= region.bytes.len(),
    ensures
        ({
            let hit = hit_of(
                memory,
                label,
                region.base.plus(offset),
                region,
                offset,
                len,
                evidence,
                next_tools,
            );
            &&& shows(memory, region, offset, len, hit)
            &&& hit.label == label
            &&& hit.evidence == evidence
            &&& hit.next_tools == next_tools
        }),
{
    let data = region.bytes;
    let context = context_of(data, offset, len);
    let before = context.before;
    let after = context.after;
    assert(before + data.subrange(offset, offset + len) + after =~= data.subrange(
        offset - before.len(),
        offset + len + after.len(),
    ));
}

/// Reading memory at an address shows the bytes there, as many as were asked for and the
/// region has; where no region holds the address there is nothing to show.
pub proof fn law_mem_read_shows_bytes(memory: MemoryView, address: Address, size: int)
    requires
        0 <= size,
    ensures
        match memory.region_at(address) {
            Some((region, offset)) => match mem_read_hit(memory, address, size) {
                Some(hit) => {
                    &&& hit.address == address
                    &&& hit.evidence matches EvidenceValueView::Bytes { bytes } && bytes.len()
                        == (if region.bytes.len() - offset < size {
                        region.bytes.len() - offset
                    } else {
                        size
                    }) && shows(memory, region, offset, bytes.len() as int, hit) && forall|k: int|
                        0 <= k < bytes.len() ==> #[trigger] bytes[k] == region.bytes[offset + k]
                },
                None => false,
            },
            None => mem_read_hit(memory, address, size) is None,
        },
{
    crate::memory::law_region_at(memory, address);
    if let Some((region, offset)) = memory.region_at(address) {
        let found = clipped(region.bytes, offset, offset + size);
        assert(region.base.plus(offset) == address);
        law_hit_shows(
            memory,
            "mem_read"@,
            region,
            offset,
            found.len() as int,
            EvidenceValueView::Bytes { bytes: found },
            mem_read_hints(address),
        );
    }
}

/// Whether a report advises a tool as its `k`th, on an address.
pub open spec fn advises(hit: EvidenceHitView, k: int, tool: Seq<char>, address: int) -> bool {
    &&& 0 <= k < hit.next_tools.len()
    &&& hit.next_tools[k].tool == tool
    &&& hit.next_tools[k].arguments.len() == 1
    &&& hit.next_tools[k].arguments[0].name == "address"@
    &&& hit.next_tools[k].arguments[0].value == "0x"@ + text::hex_text(address as nat)
}

/// A read advises to look for pointers to the address that was read.
pub proof fn law_mem_read_advises(memory: MemoryView, address: Address, size: int)
    ensures
        mem_read_hit(memory, address, size) matches Some(hit) ==> hit.label == "mem_read"@
            && hit.next_tools.len() == 1 && advises(
            hit,
            0,
            "scan_pointers_to"@,
            hit.address.0 as int,
        ),
{
}

} // verus!
