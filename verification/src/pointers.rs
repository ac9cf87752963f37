//! Chains of pointers, and addresses between a live and a static image.

use vstd::prelude::*;

use crate::bytes;
use crate::evidence::Address;
use crate::hits;
use crate::json;
use crate::json::{Fields, Json, JsonView};
use crate::memory::{ModuleInfo, ModuleInfoView};
use crate::requests::CorrelateAddrRequest;
use crate::shapes;
use crate::text;

verus! {

/// An address moved on, as far as there are addresses.
pub open spec fn moved(address: Address, offset: u64) -> Address {
    if address.0 + offset > u64::MAX {
        Address(u64::MAX)
    } else {
        Address((address.0 + offset) as u64)
    }
}

/// An address moved on, as far as there are addresses.
pub fn move_on(address: Address, offset: u64) -> (result: Address)
    ensures
        result == moved(address, offset),
{
    Address(address.0.saturating_add(offset))
}

/// The number of bytes of a pointer on this machine.
pub fn pointer_width_bytes() -> (width: usize)
    ensures
        width == usize::BITS / 8,
        width == 4 || width == 8,
{
    (usize::BITS / 8) as usize
}

/// The pointer in what was read at an address; too few bytes hold none.
pub open spec fn pointer_in(address: Address, data: Seq<u8>) -> Result<Address, Seq<char>> {
    let width = (usize::BITS / 8) as int;
    if data.len() < width {
        Err("short pointer read at "@ + text::prefixed_hex(address.0 as nat))
    } else {
        Ok(Address(bytes::le_value(data.take(width)) as u64))
    }
}

/// The pointer in what was read at an address.
pub fn read_pointer(address: Address, data: &[u8]) -> (result: Result<Address, String>)
    ensures
        match result {
            Ok(pointer) => pointer_in(address, data@) == Ok::<Address, Seq<char>>(pointer),
            Err(message) => pointer_in(address, data@) == Err::<Address, Seq<char>>(message@),
        },
{
    let width: usize = pointer_width_bytes();
    if data.len() < width {
        let mut message = "short pointer read at ".to_string();
        let shown = text::hex(address.0);
        message.append(&shown);
        return Err(message);
    }
    if width == 4 {
        proof {
            assert(data@.subrange(0, 4) =~= data@.take(4));
        }
        Ok(Address(bytes::read_u32(data, 0) as u64))
    } else {
        proof {
            assert(data@.subrange(0, 8) =~= data@.take(8));
        }
        Ok(Address(bytes::read_u64(data, 0)))
    }
}

/// A walk along a chain: the pointer at the base is read, then an offset is added,
/// the pointer there is read, and so on; behind the last offset nothing is read.
#[verifier::ext_equal]
pub struct WalkView {
    pub base: Address,
    pub offsets: Seq<u64>,
    /// The pointers that have been read.
    pub pointers: Seq<Address>,
}

impl WalkView {
    /// How many pointers are read: one, or one for each offset.
    pub open spec fn read_count(self) -> int {
        if self.offsets.len() == 0 {
            1
        } else {
            self.offsets.len() as int
        }
    }

    /// Whether no more pointers than needed have been read.
    pub open spec fn valid(self) -> bool {
        self.pointers.len() <= self.read_count()
    }

    /// Whether all pointers have been read.
    pub open spec fn is_complete(self) -> bool {
        self.pointers.len() == self.read_count()
    }

    /// Where an offset leads.
    pub open spec fn place(self, i: int) -> Address {
        moved(self.pointers[i], self.offsets[i])
    }

    /// Where the next pointer is read.
    pub open spec fn next(self) -> Option<Address> {
        if self.is_complete() {
            None
        } else if self.pointers.len() == 0 {
            Some(self.base)
        } else {
            Some(self.place(self.pointers.len() - 1))
        }
    }

    /// Where the chain ends.
    pub open spec fn last(self) -> Address {
        if self.offsets.len() == 0 {
            self.pointers[0]
        } else {
            self.place(self.offsets.len() - 1)
        }
    }

    /// What an offset adds to the chain: where it leads, and the pointer there where
    /// one is read.
    pub open spec fn links(self) -> spec_fn(int) -> Seq<Address> {
        |i: int|
            if i + 1 < self.offsets.len() {
                seq![self.place(i), self.pointers[i + 1]]
            } else {
                seq![self.place(i)]
            }
    }

    /// The addresses of the chain up to an offset.
    pub open spec fn chain(self, count: int) -> Seq<Address>
        decreases count,
    {
        if count <= 0 {
            seq![self.base, self.pointers[0]]
        } else {
            self.chain(count - 1) + self.links()(count - 1)
        }
    }

    /// A step of the walk.
    pub open spec fn step(self, i: int) -> JsonView {
        if i == 0 {
            JsonView::Object(
                json::record()
                    .push(("index"@, JsonView::Unsigned(0)))
                    .push(("next_address"@, shapes::address_json(self.pointers[0])))
                    .push(("offset"@, JsonView::Unsigned(0)))
                    .push(("pointer"@, shapes::address_json(self.pointers[0])))
                    .push(("read_address"@, shapes::address_json(self.base))),
            )
        } else {
            let head = if i < self.offsets.len() {
                json::record().push(("deref"@, shapes::address_json(self.pointers[i])))
            } else {
                json::record()
            };
            JsonView::Object(
                head
                    .push(("index"@, JsonView::Unsigned(i as u64)))
                    .push(("next_address"@, shapes::address_json(self.place(i - 1))))
                    .push(("offset"@, JsonView::Unsigned(self.offsets[i - 1])))
                    .push(("pointer"@, shapes::address_json(self.pointers[i - 1])))
                    .push(("read_address"@, shapes::address_json(self.pointers[i - 1]))),
            )
        }
    }

    /// The steps of the walk.
    pub open spec fn steps(self) -> Seq<JsonView> {
        Seq::new(self.offsets.len() + 1, |i: int| self.step(i))
    }
}

/// A walk along a chain of pointers.
pub struct PointerWalk {
    base: Address,
    offsets: Vec<u64>,
    pointers: Vec<Address>,
}

impl DeepView for PointerWalk {
    type V = WalkView;

    closed spec fn deep_view(&self) -> WalkView {
        WalkView { base: self.base, offsets: self.offsets@, pointers: self.pointers@ }
    }
}

impl PointerWalk {
    /// A walk that has read nothing.
    pub fn start(base: Address, offsets: Vec<u64>) -> (walk: Self)
        ensures
            walk.deep_view() == (WalkView { base, offsets: offsets@, pointers: Seq::empty() }),
            walk.deep_view().valid(),
    {
        PointerWalk { base, offsets, pointers: Vec::new() }
    }

    /// Where the next pointer is to be read; nowhere where the walk is complete.
    pub fn next_read(&self) -> (next: Option<Address>)
        requires
            self.deep_view().valid(),
        ensures
            next == self.deep_view().next(),
    {
        let count: usize = self.pointers.len();
        let needed: usize = if self.offsets.len() == 0 {
            1
        } else {
            self.offsets.len()
        };
        if count == needed {
            None
        } else if count == 0 {
            Some(self.base)
        } else {
            Some(move_on(self.pointers[count - 1], self.offsets[count - 1]))
        }
    }

    /// Takes the pointer that was read.
    pub fn take(&mut self, pointer: Address)
        requires
            old(self).deep_view().valid(),
            old(self).deep_view().next() is Some,
        ensures
            final(self).deep_view() == (WalkView {
                pointers: old(self).deep_view().pointers.push(pointer),
                ..old(self).deep_view()
            }),
            final(self).deep_view().valid(),
    {
        self.pointers.push(pointer);
    }

    /// Where the chain ends, once it is complete.
    pub fn last(&self) -> (last: Option<Address>)
        requires
            self.deep_view().valid(),
        ensures
            last == (if self.deep_view().is_complete() {
                Some(self.deep_view().last())
            } else {
                None
            }),
    {
        if self.next_read().is_some() {
            return None;
        }
        let count: usize = self.offsets.len();
        if count == 0 {
            Some(self.pointers[0])
        } else {
            Some(move_on(self.pointers[count - 1], self.offsets[count - 1]))
        }
    }

    fn chain_to(&self) -> (chain: Vec<Address>)
        requires
            self.deep_view().is_complete(),
        ensures
            chain@ == self.deep_view().chain(self.deep_view().offsets.len() as int),
    {
        let ghost view = self.deep_view();
        let mut chain: Vec<Address> = Vec::new();
        chain.push(self.base);
        chain.push(self.pointers[0]);
        let mut i: usize = 0;
        proof {
            assert(chain@ =~= view.chain(0));
        }
        while i < self.offsets.len()
            invariant
                i <= self.offsets.len(),
                view == self.deep_view(),
                view.is_complete(),
                chain@ == view.chain(i as int),
            decreases self.offsets.len() - i,
        {
            let ghost before = chain@;
            chain.push(move_on(self.pointers[i], self.offsets[i]));
            if i + 1 < self.offsets.len() {
                chain.push(self.pointers[i + 1]);
            }
            i += 1;
            proof {
                assert(chain@ =~= before + view.links()(i - 1));
            }
        }
        chain
    }

    fn step_json(&self, i: usize) -> (step: Json)
        requires
            self.deep_view().is_complete(),
            i <= self.deep_view().offsets.len(),
        ensures
            step.deep_view() == self.deep_view().step(i as int),
    {
        if i == 0 {
            return Fields::new()
                .with("index", Json::Unsigned(0))
                .with("next_address", shapes::address_to_json(self.pointers[0]))
                .with("offset", Json::Unsigned(0))
                .with("pointer", shapes::address_to_json(self.pointers[0]))
                .with("read_address", shapes::address_to_json(self.base))
                .object();
        }
        let head = if i < self.offsets.len() {
            Fields::new().with("deref", shapes::address_to_json(self.pointers[i]))
        } else {
            Fields::new()
        };
        let place = move_on(self.pointers[i - 1], self.offsets[i - 1]);
        head
            .with("index", Json::Unsigned(i as u64))
            .with("next_address", shapes::address_to_json(place))
            .with("offset", Json::Unsigned(self.offsets[i - 1]))
            .with("pointer", shapes::address_to_json(self.pointers[i - 1]))
            .with("read_address", shapes::address_to_json(self.pointers[i - 1]))
            .object()
    }

    fn steps_json(&self) -> (steps: Json)
        requires
            self.deep_view().is_complete(),
        ensures
            steps.deep_view() == JsonView::Array(self.deep_view().steps()),
    {
        let ghost view = self.deep_view();
        let mut steps: Vec<Json> = Vec::new();
        steps.push(self.step_json(0));
        let mut i: usize = 0;
        proof {
            assert(steps.deep_view() =~= view.steps().take(1));
        }
        while i < self.offsets.len()
            invariant
                i <= self.offsets.len(),
                view == self.deep_view(),
                view.is_complete(),
                steps.deep_view() == view.steps().take(i + 1),
            decreases self.offsets.len() - i,
        {
            let ghost before = steps.deep_view();
            i += 1;
            steps.push(self.step_json(i));
            proof {
                assert(steps.deep_view() =~= before.push(view.step(i as int)));
                assert(view.steps().take(i + 1) =~= before.push(view.step(i as int)));
            }
        }
        proof {
            assert(view.steps().take(i + 1) =~= view.steps());
        }
        Json::array(steps)
    }

    /// The report of a complete walk, with what was read at its end.
    pub fn report(&self, data: &[u8]) -> (report: Option<Json>)
        requires
            self.deep_view().valid(),
        ensures
            match report {
                Some(report) => self.deep_view().is_complete() && report.deep_view()
                    == chain_report(self.deep_view(), data@),
                None => !self.deep_view().is_complete(),
            },
    {
        let last = match self.last() {
            Some(last) => last,
            None => {
                return None;
            },
        };
        let chain = self.chain_to();
        let preview = hits::ascii_preview(data);
        Some(
            Fields::new()
                .with("ascii_preview", Json::text(&preview))
                .with("base_address", shapes::address_to_json(self.base))
                .with("chain", shapes::addresses_to_json(&chain))
                .with("final_address", shapes::address_to_json(last))
                .with("final_bytes", Json::bytes(data))
                .with("offsets", numbers_to_json(&self.offsets))
                .with("pointer_width", Json::Unsigned(pointer_width_bytes() as u64))
                .with("steps", self.steps_json())
                .with("tool", Json::text("mem_read_chain"))
                .object(),
        )
    }
}

/// Numbers as a list.
pub open spec fn numbers_json(numbers: Seq<u64>) -> JsonView {
    JsonView::Array(numbers.map_values(|n: u64| JsonView::Unsigned(n)))
}

fn number_to_json(n: u64) -> (json: Json)
    ensures
        json.deep_view() == JsonView::Unsigned(n),
{
    Json::Unsigned(n)
}

fn numbers_to_json(numbers: &Vec<u64>) -> (json: Json)
    ensures
        json.deep_view() == numbers_json(numbers@),
{
    Json::plain_list(numbers, number_to_json, Ghost(|n: u64| JsonView::Unsigned(n)))
}

/// The report of a complete walk.
pub open spec fn chain_report(walk: WalkView, data: Seq<u8>) -> JsonView {
    JsonView::Object(
        json::record()
            .push(("ascii_preview"@, JsonView::Text(hits::preview_text(data))))
            .push(("base_address"@, shapes::address_json(walk.base)))
            .push(("chain"@, shapes::addresses_json(walk.chain(walk.offsets.len() as int))))
            .push(("final_address"@, shapes::address_json(walk.last())))
            .push(("final_bytes"@, json::byte_list(data)))
            .push(("offsets"@, numbers_json(walk.offsets)))
            .push(("pointer_width"@, JsonView::Unsigned((usize::BITS / 8) as u64)))
            .push(("steps"@, JsonView::Array(walk.steps())))
            .push(("tool"@, JsonView::Text("mem_read_chain"@))),
    )
}

/// A walk ends where its chain ends, and begins at its base.
pub proof fn law_chain_ends_at_last(walk: WalkView)
    requires
        walk.is_complete(),
    ensures
        walk.chain(walk.offsets.len() as int).first() == walk.base,
        walk.chain(walk.offsets.len() as int).last() == walk.last(),
        walk.chain(walk.offsets.len() as int).len() == 1 + walk.read_count()
            + walk.offsets.len(),
{
    lemma_chain(walk, walk.offsets.len() as int);
}

proof fn lemma_chain(walk: WalkView, count: int)
    requires
        walk.is_complete(),
        0 <= count <= walk.offsets.len(),
    ensures
        walk.chain(count).first() == walk.base,
        walk.chain(count).len() == (if count == 0 {
            2
        } else if count < walk.offsets.len() {
            2 + 2 * count
        } else {
            1 + 2 * count
        }),
        count == walk.offsets.len() ==> walk.chain(count).last() == walk.last(),
    decreases count,
{
    if count > 0 {
        lemma_chain(walk, count - 1);
    }
}

/// The addresses that belong together: the live one, the static one, and how far
/// both lie behind their base.
#[derive(Debug, Clone, Copy, PartialEq, Eq, Structural)]
pub struct Correlated {
    pub live: Address,
    pub static_address: Address,
    pub rva: u64,
}

/// The distance of an address from a base; none where it lies before the base.
pub open spec fn distance(address: u64, base: u64) -> u64 {
    if address < base {
        0
    } else {
        (address - base) as u64
    }
}

/// The addresses that belong together: a live address is taken before a static one.
pub open spec fn correlated(request: CorrelateAddrRequest, module_base: u64) -> Option<Correlated> {
    match request.live_addr {
        Some(live) => {
            let rva = distance(live.0, module_base);
            Some(
                Correlated {
                    live,
                    static_address: request.ghidra_image_base.plus(rva as int),
                    rva,
                },
            )
        },
        None => match request.static_addr {
            Some(static_address) => {
                let rva = distance(static_address.0, request.ghidra_image_base.0);
                Some(
                    Correlated { live: Address(module_base).plus(rva as int), static_address, rva },
                )
            },
            None => None,
        },
    }
}

/// The addresses that belong together.
pub fn correlate(request: CorrelateAddrRequest, module_base: u64) -> (found: Option<Correlated>)
    ensures
        found == correlated(request, module_base),
{
    match request.live_addr {
        Some(live) => {
            let rva: u64 = live.0.saturating_sub(module_base);
            Some(Correlated { live, static_address: request.ghidra_image_base.offset(rva), rva })
        },
        None => match request.static_addr {
            Some(static_address) => {
                let rva: u64 = static_address.0.saturating_sub(request.ghidra_image_base.0);
                Some(
                    Correlated { live: Address(module_base).offset(rva), static_address, rva },
                )
            },
            None => None,
        },
    }
}

/// What a live address is translated to is translated back to it.
pub proof fn law_correlate_round_trip(request: CorrelateAddrRequest, module_base: u64)
    requires
        request.live_addr matches Some(live) && live.0 >= module_base
            && request.ghidra_image_base.0 + (live.0 - module_base) <= u64::MAX,
    ensures
        correlated(
            CorrelateAddrRequest {
                live_addr: None,
                static_addr: Some(correlated(request, module_base)->0.static_address),
                ..request
            },
            module_base,
        ) == correlated(request, module_base),
{
}

/// The report of a translation, or why there is none: no module, or no address.
pub open spec fn correlate_report_of(
    request: CorrelateAddrRequest,
    modules: Seq<ModuleInfoView>,
) -> Result<JsonView, Seq<char>> {
    if modules.len() == 0 {
        Err("target has no visible modules"@)
    } else {
        match correlated(request, modules[0].base.0) {
            Some(found) => Ok(
                JsonView::Object(
                    json::record()
                        .push(
                            ("ghidra_image_base"@, shapes::address_json(request.ghidra_image_base)),
                        )
                        .push(("live_addr"@, shapes::address_json(found.live)))
                        .push(("module"@, shapes::module_json(modules[0])))
                        .push(("rva"@, JsonView::Unsigned(found.rva)))
                        .push(("static_addr"@, shapes::address_json(found.static_address)))
                        .push(("tool"@, JsonView::Text("correlate_addr"@))),
                ),
            ),
            None => Err("correlate_addr requires live_addr or static_addr"@),
        }
    }
}

pub fn correlate_addr_report(request: CorrelateAddrRequest, modules: &Vec<ModuleInfo>) -> (result:
    Result<Json, String>)
    ensures
        crate::requests::asked(result) == correlate_report_of(request, modules.deep_view()),
{
    if modules.len() == 0 {
        return Err("target has no visible modules".to_string());
    }
    let main = &modules[0];
    proof {
        assert(modules.deep_view()[0] == main.deep_view());
    }
    match correlate(request, main.base.0) {
        Some(found) => Ok(
            Fields::new()
                .with("ghidra_image_base", shapes::address_to_json(request.ghidra_image_base))
                .with("live_addr", shapes::address_to_json(found.live))
                .with("module", shapes::module_to_json(main))
                .with("rva", Json::Unsigned(found.rva))
                .with("static_addr", shapes::address_to_json(found.static_address))
                .with("tool", Json::text("correlate_addr"))
                .object(),
        ),
        None => Err("correlate_addr requires live_addr or static_addr".to_string()),
    }
}

/// A pointer is read from its bytes, the least significant one first, where there are
/// enough of them for this machine; where there are too few, the error names the address.
pub proof fn law_pointer_in(address: Address, data: Seq<u8>)
    ensures
        match pointer_in(address, data) {
            Ok(pointer) => 8 * data.len() >= usize::BITS && bytes::le_bytes(
                pointer.0 as int,
                (usize::BITS / 8) as nat,
            ).is_prefix_of(data),
            Err(message) => 8 * data.len() < usize::BITS && message == "short pointer read at "@
                + text::prefixed_hex(address.0 as nat),
        },
{
    let width = (usize::BITS / 8) as int;
    assert(width == 4 || width == 8);
    if data.len() >= width {
        let front = data.take(width);
        assert(bytes::le_limit(4) == 0x1_0000_0000 && bytes::le_limit(8)
            == 0x1_0000_0000_0000_0000) by {
            reveal_with_fuel(bytes::le_limit, 9);
        }
        bytes::law_le_write_read(front);
        assert(front =~= data.subrange(0, width));
    }
}

/// A walk first reads the pointer at its base. Behind the pointer that was read last it
/// goes on by the offset of the same number, no further than to the last address, and
/// reads the pointer there. It reads one pointer for each offset, and one without any.
pub proof fn law_walk_goes_on(walk: WalkView)
    requires
        walk.valid(),
    ensures
        ({
            let n = walk.pointers.len() as int;
            match walk.next() {
                Some(next) => {
                    &&& n == 0 || n < walk.offsets.len()
                    &&& n == 0 ==> next == walk.base
                    &&& n > 0 ==> next.0 == if walk.pointers[n - 1].0 + walk.offsets[n - 1]
                        > u64::MAX {
                        u64::MAX as int
                    } else {
                        walk.pointers[n - 1].0 + walk.offsets[n - 1]
                    }
                },
                None => n == 1 && walk.offsets.len() == 0 || n == walk.offsets.len() && n > 0,
            }
        }),
{
}

/// The chain of a complete walk names the base and the pointer there, and then for each
/// offset where it leads and, but for the last, the pointer there.
pub proof fn law_chain_names_each_step(walk: WalkView, i: int)
    requires
        walk.is_complete(),
        0 <= i < walk.offsets.len(),
    ensures
        ({
            let chain = walk.chain(walk.offsets.len() as int);
            let reached = if walk.pointers[i].0 + walk.offsets[i] > u64::MAX {
                u64::MAX as int
            } else {
                walk.pointers[i].0 + walk.offsets[i]
            };
            &&& chain.len() == 2 * walk.offsets.len() + 1
            &&& chain[0] == walk.base
            &&& chain[1] == walk.pointers[0]
            &&& chain[2 * i + 2].0 == reached
            &&& i + 1 < walk.offsets.len() ==> chain[2 * i + 3] == walk.pointers[i + 1]
            &&& i + 1 == walk.offsets.len() ==> walk.last().0 == reached
        }),
{
    lemma_chain_to(walk, walk.offsets.len() as int);
}

proof fn lemma_chain_to(walk: WalkView, n: int)
    requires
        walk.is_complete(),
        0 <= n <= walk.offsets.len(),
    ensures
        ({
            let chain = walk.chain(n);
            &&& chain.len() == if n == 0 || n < walk.offsets.len() {
                2 * n + 2
            } else {
                2 * n + 1
            }
            &&& chain[0] == walk.base
            &&& chain[1] == walk.pointers[0]
            &&& forall|i: int|
                #![trigger walk.pointers[i]]
                0 <= i < n ==> chain[2 * i + 2] == walk.place(i) && (i + 1 < walk.offsets.len()
                    ==> chain[2 * i + 3] == walk.pointers[i + 1])
        }),
    decreases n,
{
    if n > 0 {
        lemma_chain_to(walk, n - 1);
        let before = walk.chain(n - 1);
        let chain = walk.chain(n);
        assert(chain == before + walk.links()(n - 1));
        assert(before.len() == 2 * n);
        assert forall|i: int|
            #![trigger walk.pointers[i]]
            0 <= i < n implies chain[2 * i + 2] == walk.place(i) && (i + 1 < walk.offsets.len()
            ==> chain[2 * i + 3] == walk.pointers[i + 1]) by {
            if i < n - 1 {
                assert(chain[2 * i + 2] == before[2 * i + 2]);
                assert(chain[2 * i + 3] == before[2 * i + 3]);
            }
        }
    }
}

/// Addresses that belong together lie equally far behind their bases. One that lies before
/// its base counts as lying at the base. A live address is taken before a static one, and
/// without either nothing is translated.
pub proof fn law_correlated(request: CorrelateAddrRequest, module_base: u64)
    ensures
        match correlated(request, module_base) {
            Some(found) => {
                let given = if request.live_addr is Some {
                    found.live.0 - module_base
                } else {
                    found.static_address.0 - request.ghidra_image_base.0
                };
                let space = 0x1_0000_0000_0000_0000int;
                &&& found.rva == if given < 0 {
                    0
                } else {
                    given
                }
                &&& match request.live_addr {
                    Some(live) => found.live == live && found.static_address.0 == (
                    request.ghidra_image_base.0 + found.rva) % space,
                    None => request.static_addr == Some(found.static_address) && found.live.0 == (
                    module_base + found.rva) % space,
                }
            },
            None => request.live_addr is None && request.static_addr is None,
        },
{
}

} // verus!
