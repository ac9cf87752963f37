//! Structures in memory: their words, and their fields as a static description
//! lists them.

use vstd::prelude::*;

use crate::arguments;
use crate::bytes;
use crate::evidence::Address;
use crate::json;
use crate::json::{Fields, Json, JsonView};
use crate::pointers;
use crate::requests;
use crate::seqs;
use crate::shapes;
use crate::snapshot::MemoryRegionInfo;
use crate::text;

verus! {

/// A word of memory.
#[derive(Debug, Clone, Copy, PartialEq, Eq, Structural)]
pub struct StructWord {
    pub index: usize,
    pub address: Address,
    pub value: u32,
}

/// How many whole words some bytes hold, up to a limit.
pub open spec fn word_count(len: int, count: int) -> int {
    if len / 4 < count {
        len / 4
    } else {
        count
    }
}

/// The words that some bytes hold, up to a limit.
pub open spec fn words_of(address: Address, data: Seq<u8>, count: int) -> Seq<StructWord> {
    Seq::new(
        word_count(data.len() as int, count) as nat,
        |i: int|
            StructWord {
                index: i as usize,
                address: address.plus(4 * i),
                value: bytes::le_value(data.subrange(4 * i, 4 * i + 4)) as u32,
            },
    )
}

/// The words that some bytes hold, up to a limit.
pub fn struct_words(address: Address, data: &[u8], count: usize) -> (words: Vec<StructWord>)
    ensures
        words@ == words_of(address, data@, count as int),
{
    let len: usize = data.len();
    let most: usize = if len / 4 < count {
        len / 4
    } else {
        count
    };
    let mut words: Vec<StructWord> = Vec::new();
    let mut i: usize = 0;
    while i < most
        invariant
            i <= most,
            most <= len / 4,
            len == data.len(),
            most == word_count(len as int, count as int),
            words@ =~= words_of(address, data@, count as int).take(i as int),
        decreases most - i,
    {
        let at: usize = 4 * i;
        words.push(
            StructWord {
                index: i,
                address: address.offset(at as u64),
                value: bytes::read_u32(data, at),
            },
        );
        i += 1;
    }
    proof {
        assert(words@ =~= words_of(address, data@, count as int));
    }
    words
}

/// The bytes that the values of some words write, four for each word.
pub open spec fn bytes_of_words(words: Seq<StructWord>) -> Seq<u8>
    decreases words.len(),
{
    if words.len() == 0 {
        Seq::empty()
    } else {
        bytes_of_words(words.drop_last()) + bytes::le_bytes(words.last().value as int, 4)
    }
}

/// Written one after the other, the words give back the bytes that they were read from:
/// word `i` has the number `i`, stands `4 * i` bytes further on, and holds the four bytes
/// there and no others. There are as many as whole words were read, up to the limit.
pub proof fn law_words_write_back(address: Address, data: Seq<u8>, count: usize)
    ensures
        ({
            let words = words_of(address, data, count as int);
            &&& words.len() <= count
            &&& 4 * words.len() <= data.len()
            &&& words.len() < count ==> data.len() < 4 * words.len() + 4
            &&& bytes_of_words(words) == data.take(4 * words.len() as int)
            &&& forall|i: int|
                0 <= i < words.len() ==> {
                    &&& (#[trigger] words[i]).index == i
                    &&& words[i].address.0 == (address.0 + 4 * i) % 0x1_0000_0000_0000_0000
                    &&& words[i].value == data[4 * i] + 0x100 * data[4 * i + 1] + 0x1_0000 * data[4
                        * i + 2] + 0x100_0000 * data[4 * i + 3]
                }
        }),
{
    let words = words_of(address, data, count as int);
    assert forall|i: int| 0 <= i < words.len() implies {
        &&& (#[trigger] words[i]).index == i
        &&& words[i].address.0 == (address.0 + 4 * i) % 0x1_0000_0000_0000_0000
        &&& words[i].value == data[4 * i] + 0x100 * data[4 * i + 1] + 0x1_0000 * data[4 * i + 2]
            + 0x100_0000 * data[4 * i + 3]
    } by {
        bytes::lemma_le_value_4(data.subrange(4 * i, 4 * i + 4));
    }
    lemma_words_written(address, data, count, words.len() as int);
    assert(words.take(words.len() as int) =~= words);
}

proof fn lemma_words_written(address: Address, data: Seq<u8>, count: usize, n: int)
    requires
        0 <= n <= words_of(address, data, count as int).len(),
    ensures
        bytes_of_words(words_of(address, data, count as int).take(n)) == data.take(4 * n),
    decreases n,
{
    let front = words_of(address, data, count as int).take(n);
    if n > 0 {
        lemma_words_written(address, data, count, n - 1);
        assert(front.drop_last() =~= words_of(address, data, count as int).take(n - 1));
        let written = data.subrange(4 * (n - 1), 4 * (n - 1) + 4);
        bytes::law_le_write_read(written);
        bytes::lemma_le_value_4(written);
        assert(data.take(4 * n) =~= data.take(4 * (n - 1)) + written);
    } else {
        assert(data.take(0) =~= Seq::<u8>::empty());
    }
}

/// How many bytes are read for a number of words.
pub open spec fn words_size(count: usize) -> usize {
    if count * 4 > usize::MAX {
        usize::MAX
    } else {
        (count * 4) as usize
    }
}

pub fn struct_size(count: usize) -> (size: usize)
    ensures
        size == words_size(count),
{
    match count.checked_mul(4) {
        Some(size) => size,
        None => usize::MAX,
    }
}

/// A number in hexadecimal with eight digits.
pub open spec fn eight_digits(value: u32) -> Seq<char> {
    "0x"@ + text::byte_hex((value / 0x100_0000) as u8) + text::byte_hex(
        (value / 0x1_0000 % 256) as u8,
    ) + text::byte_hex((value / 256 % 256) as u8) + text::byte_hex((value % 256) as u8)
}

pub fn word_hex(value: u32) -> (shown: String)
    ensures
        shown@ == eight_digits(value),
{
    let mut shown = "0x".to_string();
    text::push_byte_hex(&mut shown, (value / 0x100_0000) as u8);
    text::push_byte_hex(&mut shown, (value / 0x1_0000 % 256) as u8);
    text::push_byte_hex(&mut shown, (value / 256 % 256) as u8);
    text::push_byte_hex(&mut shown, (value % 256) as u8);
    shown
}

/// What a value points to, where it points into a region.
pub open spec fn pointer_target(value: u32, region: Option<MemoryRegionInfo>) -> JsonView {
    match region {
        Some(region) => JsonView::Object(
            json::record()
                .push(("address"@, JsonView::Unsigned(value as u64)))
                .push(("region"@, shapes::region_json(region))),
        ),
        None => JsonView::Null,
    }
}

fn pointer_target_to_json(value: u32, region: Option<MemoryRegionInfo>) -> (json: Json)
    ensures
        json.deep_view() == pointer_target(value, region),
{
    match region {
        Some(region) => Fields::new()
            .with("address", Json::Unsigned(value as u64))
            .with("region", shapes::region_to_json(region))
            .object(),
        None => Json::Null,
    }
}

/// A word, and what it points to.
pub open spec fn word_json(word: StructWord, region: Option<MemoryRegionInfo>) -> JsonView {
    JsonView::Object(
        json::record()
            .push(("address"@, shapes::address_json(word.address)))
            .push(("index"@, JsonView::Unsigned(word.index as u64)))
            .push(("pointer_target"@, pointer_target(word.value, region)))
            .push(("value_hex"@, JsonView::Text(eight_digits(word.value))))
            .push(("value_u32"@, JsonView::Unsigned(word.value as u64))),
    )
}

fn word_to_json(word: StructWord, region: Option<MemoryRegionInfo>) -> (json: Json)
    ensures
        json.deep_view() == word_json(word, region),
{
    Fields::new()
        .with("address", shapes::address_to_json(word.address))
        .with("index", Json::Unsigned(word.index as u64))
        .with("pointer_target", pointer_target_to_json(word.value, region))
        .with("value_hex", Json::text(&word_hex(word.value)))
        .with("value_u32", Json::Unsigned(word.value as u64))
        .object()
}

/// The regions that words point into, one for each word.
pub open spec fn word_rows(words: Seq<StructWord>, regions: Seq<Option<MemoryRegionInfo>>) -> Seq<
    JsonView,
> {
    Seq::new(
        words.len(),
        |i: int|
            word_json(
                words[i],
                if i < regions.len() {
                    regions[i]
                } else {
                    None
                },
            ),
    )
}

/// The report of the words of a structure.
pub open spec fn read_struct_report_of(
    address: Address,
    words: Seq<StructWord>,
    regions: Seq<Option<MemoryRegionInfo>>,
) -> JsonView {
    JsonView::Object(
        json::record()
            .push(("address"@, shapes::address_json(address)))
            .push(("tool"@, JsonView::Text("read_struct"@)))
            .push(("word_count"@, JsonView::Unsigned(words.len() as u64)))
            .push(("words"@, JsonView::Array(word_rows(words, regions)))),
    )
}

/// The report of the words of a structure, with the region that each points into.
pub fn read_struct_report(
    address: Address,
    words: &Vec<StructWord>,
    regions: &Vec<Option<MemoryRegionInfo>>,
) -> (report: Json)
    ensures
        report.deep_view() == read_struct_report_of(address, words@, regions@),
{
    let ghost all = word_rows(words@, regions@);
    let mut rows: Vec<Json> = Vec::new();
    let mut i: usize = 0;
    proof {
        assert(rows.deep_view() =~= all.take(0));
    }
    while i < words.len()
        invariant
            i <= words.len(),
            all == word_rows(words@, regions@),
            rows.deep_view() == all.take(i as int),
        decreases words.len() - i,
    {
        let ghost before = rows.deep_view();
        let region = if i < regions.len() {
            regions[i]
        } else {
            None
        };
        rows.push(word_to_json(words[i], region));
        i += 1;
        proof {
            assert(rows.deep_view() =~= before.push(all[i - 1]));
            assert(all.take(i as int) =~= before.push(all[i - 1]));
        }
    }
    proof {
        assert(all.take(all.len() as int) =~= all);
    }
    Fields::new()
        .with("address", shapes::address_to_json(address))
        .with("tool", Json::text("read_struct"))
        .with("word_count", Json::Unsigned(words.len() as u64))
        .with("words", Json::array(rows))
        .object()
}

/// A field as a static description lists it.
#[derive(Debug, PartialEq, Eq)]
pub struct StaticStructField {
    pub offset: u64,
    pub name: String,
    pub kind: String,
    pub length: usize,
}

#[verifier::ext_equal]
pub struct StaticStructFieldView {
    pub offset: u64,
    pub name: Seq<char>,
    pub kind: Seq<char>,
    pub length: usize,
}

impl DeepView for StaticStructField {
    type V = StaticStructFieldView;

    open spec fn deep_view(&self) -> StaticStructFieldView {
        StaticStructFieldView {
            offset: self.offset,
            name: self.name@,
            kind: self.kind@,
            length: self.length,
        }
    }
}

/// The kind of a field, under the first of its names that is there.
pub open spec fn kind_of_field(value: JsonView) -> JsonView {
    match value.get("type"@) {
        Some(found) => found,
        None => match value.get("type_name"@) {
            Some(found) => found,
            None => value.field("dataType"@),
        },
    }
}

/// A text, or a question mark.
pub open spec fn text_or_unknown(value: JsonView) -> Seq<char> {
    match value.text() {
        Some(found) => found,
        None => "?"@,
    }
}

/// The length of a field: four bytes where it is not told, and never none.
pub open spec fn field_length(value: JsonView) -> usize {
    let told = match arguments::loose_number(value.get("length"@)) {
        Some(n) => n,
        None => match arguments::loose_number(value.get("size"@)) {
            Some(n) => n,
            None => 4,
        },
    };
    if bytes::size_value(told) < 1 {
        1
    } else {
        bytes::size_value(told)
    }
}

/// A field as a description lists it.
pub open spec fn static_field(value: JsonView) -> StaticStructFieldView {
    StaticStructFieldView {
        offset: match arguments::loose_number(value.get("offset"@)) {
            Some(n) => n,
            None => 0,
        },
        name: text_or_unknown(value.field("name"@)),
        kind: text_or_unknown(kind_of_field(value)),
        length: field_length(value),
    }
}

fn text_or_mark(value: &Json) -> (text: String)
    ensures
        text@ == text_or_unknown(value.deep_view()),
{
    match value.as_str() {
        Some(found) => found.to_string(),
        None => "?".to_string(),
    }
}

/// A field as a description lists it.
pub fn parse_static_struct_field(value: &Json) -> (field: StaticStructField)
    ensures
        field.deep_view() == static_field(value.deep_view()),
{
    let offset: u64 = match arguments::value_u64(value.get("offset")) {
        Some(n) => n,
        None => 0,
    };
    let told: u64 = match arguments::value_u64(value.get("length")) {
        Some(n) => n,
        None => match arguments::value_u64(value.get("size")) {
            Some(n) => n,
            None => 4,
        },
    };
    let length: usize = bytes::as_size(told);
    let kind = match value.get("type") {
        Some(found) => found,
        None => match value.get("type_name") {
            Some(found) => found,
            None => value.field("dataType"),
        },
    };
    StaticStructField {
        offset,
        name: text_or_mark(value.field("name")),
        kind: text_or_mark(kind),
        length: if length < 1 {
            1
        } else {
            length
        },
    }
}

/// A field put behind those with no higher offset.
pub open spec fn inserted(s: Seq<StaticStructFieldView>, x: StaticStructFieldView) -> Seq<
    StaticStructFieldView,
>
    decreases s.len(),
{
    if s.len() == 0 || s.last().offset <= x.offset {
        s.push(x)
    } else {
        inserted(s.drop_last(), x).push(s.last())
    }
}

/// Fields in the order of their offsets; those with one offset stay in their order.
pub open spec fn by_offset(s: Seq<StaticStructFieldView>) -> Seq<StaticStructFieldView>
    decreases s.len(),
{
    if s.len() == 0 {
        s
    } else {
        inserted(by_offset(s.drop_last()), s.last())
    }
}

/// Whether offsets ascend.
pub open spec fn ascending(s: Seq<StaticStructFieldView>) -> bool {
    forall|i: int, j: int| 0 <= i <= j < s.len() ==> s[i].offset <= s[j].offset
}

/// Whether a field has an offset.
pub open spec fn has_offset(offset: u64) -> spec_fn(StaticStructFieldView) -> bool {
    |field: StaticStructFieldView| field.offset == offset
}

proof fn lemma_filter_push<T>(s: Seq<T>, x: T, f: spec_fn(T) -> bool)
    ensures
        s.push(x).filter(f) == (if f(x) {
            s.filter(f).push(x)
        } else {
            s.filter(f)
        }),
{
    reveal(Seq::filter);
    assert(s.push(x).drop_last() =~= s);
}

proof fn lemma_inserted(s: Seq<StaticStructFieldView>, x: StaticStructFieldView, offset: u64)
    requires
        ascending(s),
    ensures
        ascending(inserted(s, x)),
        inserted(s, x).to_multiset() == s.to_multiset().insert(x),
        inserted(s, x).filter(has_offset(offset)) == s.push(x).filter(has_offset(offset)),
        inserted(s, x).len() == s.len() + 1,
        forall|i: int|
            0 <= i < inserted(s, x).len() ==> (#[trigger] inserted(s, x)[i]).offset <= (if s.len()
                == 0 || s.last().offset <= x.offset {
                x.offset
            } else {
                s.last().offset
            }),
    decreases s.len(),
{
    broadcast use vstd::seq_lib::group_to_multiset_ensures;

    if s.len() == 0 || s.last().offset <= x.offset {
    } else {
        let front = s.drop_last();
        let last = s.last();
        lemma_inserted(front, x, offset);
        assert(s =~= front.push(last));
        assert(inserted(s, x).to_multiset() =~= s.to_multiset().insert(x));
        let f = has_offset(offset);
        lemma_filter_push(inserted(front, x), last, f);
        lemma_filter_push(front, x, f);
        lemma_filter_push(s, x, f);
        lemma_filter_push(front, last, f);
    }
}

/// Sorting keeps every field, puts them in ascending order, and leaves those with
/// the same offset in their order.
pub proof fn law_by_offset(s: Seq<StaticStructFieldView>, offset: u64)
    ensures
        ascending(by_offset(s)),
        by_offset(s).to_multiset() == s.to_multiset(),
        by_offset(s).filter(has_offset(offset)) == s.filter(has_offset(offset)),
    decreases s.len(),
{
    broadcast use vstd::seq_lib::group_to_multiset_ensures;

    if s.len() > 0 {
        law_by_offset(s.drop_last(), offset);
        lemma_inserted(by_offset(s.drop_last()), s.last(), offset);
        assert(s =~= s.drop_last().push(s.last()));
        lemma_filter_push(by_offset(s.drop_last()), s.last(), has_offset(offset));
        lemma_filter_push(s.drop_last(), s.last(), has_offset(offset));
    }
}

/// Puts a field behind those with no higher offset.
fn insert_field(fields: &mut Vec<StaticStructField>, field: StaticStructField)
    ensures
        final(fields).deep_view() == inserted(old(fields).deep_view(), field.deep_view()),
{
    let ghost start = fields.deep_view();
    let ghost x = field.deep_view();
    let mut i: usize = fields.len();
    proof {
        assert(start.len() == fields@.len());
        assert(start.take(start.len() as int) =~= start);
        assert(start.skip(start.len() as int) =~= Seq::empty());
        assert(inserted(start, x) =~= inserted(start.take(i as int), x) + start.skip(i as int));
    }
    while i > 0 && fields[i - 1].offset > field.offset
        invariant
            i <= fields.len(),
            start == fields.deep_view(),
            start.len() == fields@.len(),
            x == field.deep_view(),
            inserted(start, x) == inserted(start.take(i as int), x) + start.skip(i as int),
        decreases i,
    {
        proof {
            let front = start.take(i as int);
            assert(front.last() == fields@[i - 1].deep_view());
            assert(front.drop_last() =~= start.take(i - 1));
            assert(start.skip(i - 1) =~= seq![front.last()] + start.skip(i as int));
            assert(inserted(front, x) == inserted(start.take(i - 1), x).push(front.last()));
            assert(inserted(front, x) + start.skip(i as int) =~= inserted(start.take(i - 1), x)
                + start.skip(i - 1));
        }
        i -= 1;
    }
    proof {
        let front = start.take(i as int);
        if i > 0 {
            assert(front.last() == fields@[i - 1].deep_view());
        }
        assert(inserted(front, x) == front.push(x));
    }
    fields.insert(i, field);
    proof {
        assert(fields.deep_view() =~= start.take(i as int).push(x) + start.skip(i as int));
    }
}

/// The list of fields in a description: the description itself, or what it holds as
/// a result or as fields.
pub open spec fn field_list(source: JsonView) -> Option<Seq<JsonView>> {
    match source.items() {
        Some(items) => Some(items),
        None => match source.field("result"@).get_items("fields"@) {
            Some(items) => Some(items),
            None => source.get_items("fields"@),
        },
    }
}

/// The fields of a description as they are listed.
pub open spec fn listed_fields(items: Seq<JsonView>) -> Seq<StaticStructFieldView> {
    items.map_values(|item: JsonView| static_field(item))
}

/// The fields of a structure in the order of their offsets, up to a limit; a
/// description without fields is refused.
pub open spec fn static_fields(struct_name: Seq<char>, source: JsonView, max_fields: int) -> Result<
    Seq<StaticStructFieldView>,
    Seq<char>,
> {
    match field_list(source) {
        Some(items) => Ok(seqs::capped(by_offset(listed_fields(items)), max_fields)),
        None => Err("struct '"@ + struct_name + "' has no fields"@),
    }
}

/// The fields of a structure in the order of their offsets, up to a limit.
pub fn load_static_struct_fields(struct_name: &str, source: &Json, max_fields: usize) -> (result:
    Result<Vec<StaticStructField>, String>)
    ensures
        requests::asked(result) == static_fields(
            struct_name@,
            source.deep_view(),
            max_fields as int,
        ),
{
    let items = match source.as_array() {
        Some(items) => items,
        None => match source.field("result").get_array("fields") {
            Some(items) => items,
            None => match source.get_array("fields") {
                Some(items) => items,
                None => {
                    let mut message = "struct '".to_string();
                    message.append(struct_name);
                    message.append("' has no fields");
                    return Err(message);
                },
            },
        },
    };
    let ghost all = items.deep_view();
    let ghost read = listed_fields(all);
    let mut fields: Vec<StaticStructField> = Vec::new();
    let mut i: usize = 0;
    proof {
        assert(all.len() == items@.len());
        assert(fields.deep_view() =~= by_offset(read.take(0)));
    }
    while i < items.len()
        invariant
            i <= items.len(),
            all == items.deep_view(),
            all.len() == items@.len(),
            read == listed_fields(all),
            fields.deep_view() == by_offset(read.take(i as int)),
        decreases items.len() - i,
    {
        proof {
            assert(read.take(i + 1).drop_last() =~= read.take(i as int));
            assert(read.take(i + 1).last() == static_field(items@[i as int].deep_view()));
        }
        let field = parse_static_struct_field(&items[i]);
        insert_field(&mut fields, field);
        i += 1;
    }
    let ghost sorted = by_offset(read);
    proof {
        assert(read.take(i as int) =~= read);
        assert(sorted.len() == fields@.len());
    }
    if fields.len() > max_fields {
        fields.truncate(max_fields);
        proof {
            assert(fields.deep_view() =~= sorted.take(max_fields as int));
        }
    }
    proof {
        assert(field_list(source.deep_view()) == Some(all));
        assert(fields.deep_view() =~= seqs::capped(sorted, max_fields as int));
    }
    Ok(fields)
}

/// How many bytes of a field are read: at most sixteen.
pub open spec fn field_read_len(length: usize) -> usize {
    if length < 1 {
        1
    } else if length > 16 {
        16
    } else {
        length
    }
}

/// Where a field lies, and how many bytes of it are read.
pub fn field_read(live_address: Address, field: &StaticStructField) -> (read: (Address, usize))
    ensures
        read.0 == pointers::moved(live_address, field.offset),
        read.1 == field_read_len(field.length),
{
    let len: usize = if field.length < 1 {
        1
    } else if field.length > 16 {
        16
    } else {
        field.length
    };
    (pointers::move_on(live_address, field.offset), len)
}

/// The pointer that a field of four bytes holds.
pub open spec fn field_pointer(length: usize, raw: Seq<u8>) -> Option<u32> {
    if length == 4 && raw.len() == 4 {
        Some(bytes::le_value(raw) as u32)
    } else {
        None
    }
}

/// The pointer that a field of four bytes holds.
pub fn pointer_of_field(field: &StaticStructField, raw: &[u8]) -> (pointer: Option<u32>)
    ensures
        pointer == field_pointer(field.length, raw@),
{
    if field.length == 4 && raw.len() == 4 {
        proof {
            assert(raw@.subrange(0, 4) =~= raw@);
        }
        Some(bytes::read_u32(raw, 0))
    } else {
        None
    }
}

/// What came of reading a field: its bytes and the region that its pointer lies in,
/// or why it could not be read.
#[derive(Debug, PartialEq, Eq)]
pub enum FieldOutcome {
    Read { raw: Vec<u8>, region: Option<MemoryRegionInfo> },
    Failed { error: String },
}

#[verifier::ext_equal]
pub enum FieldOutcomeView {
    Read { raw: Seq<u8>, region: Option<MemoryRegionInfo> },
    Failed { error: Seq<char> },
}

impl DeepView for FieldOutcome {
    type V = FieldOutcomeView;

    open spec fn deep_view(&self) -> FieldOutcomeView {
        match *self {
            FieldOutcome::Read { raw, region } => FieldOutcomeView::Read { raw: raw@, region },
            FieldOutcome::Failed { error } => FieldOutcomeView::Failed { error: error@ },
        }
    }
}

/// Whether a field points into a region.
pub open spec fn points(length: usize, outcome: FieldOutcomeView) -> bool {
    outcome matches FieldOutcomeView::Read { raw, region } && field_pointer(length, raw) is Some
        && region is Some
}

/// A field, and what came of reading it.
pub open spec fn field_row(
    live_address: Address,
    field: StaticStructFieldView,
    outcome: FieldOutcomeView,
) -> JsonView {
    let address = shapes::address_json(pointers::moved(live_address, field.offset));
    match outcome {
        FieldOutcomeView::Read { raw, region } => JsonView::Object(
            json::record()
                .push(("address"@, address))
                .push(("bytes"@, json::byte_list(raw)))
                .push(("length"@, JsonView::Unsigned(field.length as u64)))
                .push(("name"@, JsonView::Text(field.name)))
                .push(("offset"@, JsonView::Unsigned(field.offset)))
                .push(
                    (
                        "pointer_target"@,
                        match field_pointer(field.length, raw) {
                            Some(value) => pointer_target(value, region),
                            None => JsonView::Null,
                        },
                    ),
                )
                .push(
                    (
                        "pointer_value"@,
                        match field_pointer(field.length, raw) {
                            Some(value) => JsonView::Unsigned(value as u64),
                            None => JsonView::Null,
                        },
                    ),
                )
                .push(("raw_hex"@, JsonView::Text(arguments::hex_run(raw))))
                .push(("type"@, JsonView::Text(field.kind))),
        ),
        FieldOutcomeView::Failed { error } => JsonView::Object(
            json::record()
                .push(("address"@, address))
                .push(("error"@, JsonView::Text(error)))
                .push(("length"@, JsonView::Unsigned(field.length as u64)))
                .push(("name"@, JsonView::Text(field.name)))
                .push(("offset"@, JsonView::Unsigned(field.offset)))
                .push(("type"@, JsonView::Text(field.kind))),
        ),
    }
}

fn field_row_to_json(live_address: Address, field: &StaticStructField, outcome: &FieldOutcome) -> (
    row: Json)
    ensures
        row.deep_view() == field_row(live_address, field.deep_view(), outcome.deep_view()),
{
    let address = pointers::move_on(live_address, field.offset);
    match outcome {
        FieldOutcome::Read { raw, region } => {
            let (value, target) = match pointer_of_field(field, raw) {
                Some(value) => (
                    Json::Unsigned(value as u64),
                    pointer_target_to_json(value, *region),
                ),
                None => (Json::Null, Json::Null),
            };
            Fields::new()
                .with("address", shapes::address_to_json(address))
                .with("bytes", Json::bytes(raw))
                .with("length", Json::Unsigned(field.length as u64))
                .with("name", Json::text(&field.name))
                .with("offset", Json::Unsigned(field.offset))
                .with("pointer_target", target)
                .with("pointer_value", value)
                .with("raw_hex", Json::text(&arguments::hex_bytes(raw)))
                .with("type", Json::text(&field.kind))
                .object()
        },
        FieldOutcome::Failed { error } => Fields::new()
            .with("address", shapes::address_to_json(address))
            .with("error", Json::text(error))
            .with("length", Json::Unsigned(field.length as u64))
            .with("name", Json::text(&field.name))
            .with("offset", Json::Unsigned(field.offset))
            .with("type", Json::text(&field.kind))
            .object(),
    }
}

/// The rows of fields, each with what came of reading it.
pub open spec fn field_rows(
    live_address: Address,
    fields: Seq<StaticStructFieldView>,
    outcomes: Seq<FieldOutcomeView>,
) -> Seq<JsonView> {
    Seq::new(fields.len(), |i: int| field_row(live_address, fields[i], outcomes[i]))
}

/// How many of the first fields point into a region.
pub open spec fn pointing_fields(
    fields: Seq<StaticStructFieldView>,
    outcomes: Seq<FieldOutcomeView>,
) -> nat {
    seqs::count_below(fields.len() as int, |i: int| points(fields[i].length, outcomes[i]))
}

/// The report of a structure in memory.
pub open spec fn diff_struct_report_of(
    struct_name: Seq<char>,
    live_address: Address,
    fields: Seq<StaticStructFieldView>,
    outcomes: Seq<FieldOutcomeView>,
) -> JsonView {
    JsonView::Object(
        json::record()
            .push(("field_count"@, JsonView::Unsigned(fields.len() as u64)))
            .push(("fields"@, JsonView::Array(field_rows(live_address, fields, outcomes))))
            .push(("live_address"@, shapes::address_json(live_address)))
            .push(
                ("ptr_field_count"@, JsonView::Unsigned(pointing_fields(fields, outcomes) as u64)),
            )
            .push(("struct_name"@, JsonView::Text(struct_name)))
            .push(("tool"@, JsonView::Text("diff_struct"@))),
    )
}

fn does_point(field: &StaticStructField, outcome: &FieldOutcome) -> (does: bool)
    ensures
        does == points(field.length, outcome.deep_view()),
{
    match outcome {
        FieldOutcome::Read { raw, region } => pointer_of_field(field, raw).is_some()
            && region.is_some(),
        FieldOutcome::Failed { error: _ } => false,
    }
}

/// The report of a structure in memory, from what came of reading each field.
pub fn diff_struct_report(
    struct_name: &str,
    live_address: Address,
    fields: &Vec<StaticStructField>,
    outcomes: &Vec<FieldOutcome>,
) -> (report: Json)
    requires
        fields@.len() == outcomes@.len(),
    ensures
        report.deep_view() == diff_struct_report_of(
            struct_name@,
            live_address,
            fields.deep_view(),
            outcomes.deep_view(),
        ),
{
    let ghost listed = fields.deep_view();
    let ghost read = outcomes.deep_view();
    let ghost all = field_rows(live_address, listed, read);
    let ghost pointing = |i: int| points(listed[i].length, read[i]);
    let mut rows: Vec<Json> = Vec::new();
    let mut count: usize = 0;
    let mut i: usize = 0;
    proof {
        assert(rows.deep_view() =~= all.take(0));
    }
    while i < fields.len()
        invariant
            i <= fields.len(),
            fields.len() == outcomes.len(),
            listed == fields.deep_view(),
            read == outcomes.deep_view(),
            listed.len() == fields@.len(),
            all == field_rows(live_address, listed, read),
            pointing == (|k: int| points(listed[k].length, read[k])),
            rows.deep_view() == all.take(i as int),
            count == seqs::count_below(i as int, pointing),
            count <= i,
        decreases fields.len() - i,
    {
        let ghost before = rows.deep_view();
        proof {
            assert(listed[i as int] == fields@[i as int].deep_view());
            assert(read[i as int] == outcomes@[i as int].deep_view());
            assert(pointing(i as int) == points(listed[i as int].length, read[i as int]));
        }
        rows.push(field_row_to_json(live_address, &fields[i], &outcomes[i]));
        if does_point(&fields[i], &outcomes[i]) {
            count += 1;
        }
        i += 1;
        proof {
            assert(rows.deep_view() =~= before.push(all[i - 1]));
            assert(all.take(i as int) =~= before.push(all[i - 1]));
        }
    }
    proof {
        assert(all.take(all.len() as int) =~= all);
        assert(pointing_fields(listed, read) == seqs::count_below(i as int, pointing));
    }
    Fields::new()
        .with("field_count", Json::Unsigned(fields.len() as u64))
        .with("fields", Json::array(rows))
        .with("live_address", shapes::address_to_json(live_address))
        .with("ptr_field_count", Json::Unsigned(count as u64))
        .with("struct_name", Json::text(struct_name))
        .with("tool", Json::text("diff_struct"))
        .object()
}

/// The words are reported in their order, each with its number, its address and its value,
/// and with what it points to where it points into a region.
pub proof fn law_words_reported(
    address: Address,
    words: Seq<StructWord>,
    regions: Seq<Option<MemoryRegionInfo>>,
)
    requires
        words.len() == regions.len(),
    ensures
        ({
            let report = read_struct_report_of(address, words, regions);
            let rows = word_rows(words, regions);
            &&& json::holds(report, "address"@, JsonView::Unsigned(address.0))
            &&& json::holds(report, "word_count"@, JsonView::Unsigned(words.len() as u64))
            &&& json::holds(report, "words"@, JsonView::Array(rows))
            &&& rows.len() == words.len()
            &&& forall|i: int|
                0 <= i < words.len() ==> {
                    &&& json::holds(
                        #[trigger] rows[i],
                        "index"@,
                        JsonView::Unsigned(words[i].index as u64),
                    )
                    &&& json::holds(rows[i], "address"@, JsonView::Unsigned(words[i].address.0))
                    &&& json::holds(
                        rows[i],
                        "value_u32"@,
                        JsonView::Unsigned(words[i].value as u64),
                    )
                    &&& json::holds(
                        rows[i],
                        "value_hex"@,
                        JsonView::Text(eight_digits(words[i].value)),
                    )
                    &&& json::holds(
                        rows[i],
                        "pointer_target"@,
                        pointer_target(words[i].value, regions[i]),
                    )
                }
        }),
{
    let report = read_struct_report_of(address, words, regions)->Object_0;
    let rows = word_rows(words, regions);
    assert(report[0] == ("address"@, JsonView::Unsigned(address.0)));
    assert(report[2] == ("word_count"@, JsonView::Unsigned(words.len() as u64)));
    assert(report[3] == ("words"@, JsonView::Array(rows)));
    assert forall|i: int| 0 <= i < words.len() implies {
        &&& json::holds(
            #[trigger] rows[i],
            "index"@,
            JsonView::Unsigned(words[i].index as u64),
        )
        &&& json::holds(rows[i], "address"@, JsonView::Unsigned(words[i].address.0))
        &&& json::holds(rows[i], "value_u32"@, JsonView::Unsigned(words[i].value as u64))
        &&& json::holds(rows[i], "value_hex"@, JsonView::Text(eight_digits(words[i].value)))
        &&& json::holds(rows[i], "pointer_target"@, pointer_target(words[i].value, regions[i]))
    } by {
        let row = rows[i]->Object_0;
        assert(row[0] == ("address"@, JsonView::Unsigned(words[i].address.0)));
        assert(row[1] == ("index"@, JsonView::Unsigned(words[i].index as u64)));
        assert(row[2] == ("pointer_target"@, pointer_target(words[i].value, regions[i])));
        assert(row[3] == ("value_hex"@, JsonView::Text(eight_digits(words[i].value))));
        assert(row[4] == ("value_u32"@, JsonView::Unsigned(words[i].value as u64)));
    }
}

/// A word in hexadecimal reads back as the word: it is shown as `0x` and eight digits.
pub proof fn law_eight_digits(value: u32)
    ensures
        ({
            let shown = eight_digits(value);
            &&& shown.len() == 10
            &&& shown.take(2) == "0x"@
            &&& text::digits_number(shown.skip(2), 16, u32::MAX as int) == Ok::<
                int,
                text::NumberError,
            >(value as int)
        }),
{
    reveal_strlit("0x");
    let d = (value / 0x100_0000) as u8;
    let c = (value / 0x1_0000 % 256) as u8;
    let b = (value / 256 % 256) as u8;
    let a = (value % 256) as u8;
    let none = Seq::<char>::empty();
    let one = none + text::byte_hex(d);
    let two = one + text::byte_hex(c);
    let three = two + text::byte_hex(b);
    let four = three + text::byte_hex(a);
    lemma_byte_hex_reads(none, d, 0);
    lemma_byte_hex_reads(one, c, d as int);
    lemma_byte_hex_reads(two, b, 256 * d + c);
    lemma_byte_hex_reads(three, a, 256 * (256 * d + c) + b);
    let shown = eight_digits(value);
    assert(shown.skip(2) =~= four);
    assert(shown.take(2) =~= "0x"@);
}

proof fn lemma_byte_hex_reads(s: Seq<char>, byte: u8, n: int)
    requires
        text::digits_number(s, 16, u32::MAX as int) == Ok::<int, text::NumberError>(n),
        0 <= n,
        256 * n + byte <= u32::MAX,
    ensures
        text::digits_number(s + text::byte_hex(byte), 16, u32::MAX as int) == Ok::<
            int,
            text::NumberError,
        >(256 * n + byte),
{
    let high = text::hex_digit(byte as int / 16);
    let low = text::hex_digit(byte as int % 16);
    let t = s.push(high);
    let u = t.push(low);
    assert(s + text::byte_hex(byte) =~= u);
    assert(t.drop_last() =~= s);
    assert(u.drop_last() =~= t);
    assert(text::digit_value(high, 16) == Some(byte as int / 16));
    assert(text::digit_value(low, 16) == Some(byte as int % 16));
    assert(text::digits_number(t, 16, u32::MAX as int) == Ok::<int, text::NumberError>(
        n * 16 + byte as int / 16,
    ));
}

/// A field is read where it lies behind the start of the structure, as many of its bytes as
/// it has, but at least one and at most sixteen. One of four bytes holds a pointer.
pub proof fn law_field_reads(live_address: Address, offset: u64, length: usize, raw: Seq<u8>)
    ensures
        live_address.0 + offset <= u64::MAX ==> pointers::moved(live_address, offset).0
            == live_address.0 + offset,
        1 <= field_read_len(length) <= 16,
        1 <= length <= 16 ==> field_read_len(length) == length,
        length > 16 ==> field_read_len(length) == 16,
        match field_pointer(length, raw) {
            Some(pointer) => length == 4 && raw == bytes::le_bytes(pointer as int, 4),
            None => length != 4 || raw.len() != 4,
        },
{
    if raw.len() == 4 {
        bytes::law_le_write_read(raw);
        bytes::lemma_le_value_4(raw);
    }
}

/// The fields are reported in their order, each at its place behind the start of the
/// structure under its own name, kind, offset and length, with the bytes that were read
/// there or with the reason why none were. Those that point into a region are counted.
pub proof fn law_fields_reported(
    struct_name: Seq<char>,
    live_address: Address,
    fields: Seq<StaticStructFieldView>,
    outcomes: Seq<FieldOutcomeView>,
)
    requires
        fields.len() == outcomes.len(),
    ensures
        ({
            let report = diff_struct_report_of(struct_name, live_address, fields, outcomes);
            let rows = field_rows(live_address, fields, outcomes);
            let pointing = Set::new(
                |i: int|
                    0 <= i < fields.len() && (outcomes[i] matches FieldOutcomeView::Read {
                        raw,
                        region,
                    } && region is Some && fields[i].length == 4 && raw.len() == 4),
            );
            &&& json::holds(report, "struct_name"@, JsonView::Text(struct_name))
            &&& json::holds(report, "live_address"@, JsonView::Unsigned(live_address.0))
            &&& json::holds(report, "field_count"@, JsonView::Unsigned(fields.len() as u64))
            &&& json::holds(report, "fields"@, JsonView::Array(rows))
            &&& json::holds(
                report,
                "ptr_field_count"@,
                JsonView::Unsigned(pointing.len() as u64),
            )
            &&& rows.len() == fields.len()
            &&& forall|i: int|
                0 <= i < fields.len() ==> {
                    let at = pointers::moved(live_address, fields[i].offset);
                    &&& json::holds(#[trigger] rows[i], "name"@, JsonView::Text(fields[i].name))
                    &&& json::holds(rows[i], "type"@, JsonView::Text(fields[i].kind))
                    &&& json::holds(rows[i], "offset"@, JsonView::Unsigned(fields[i].offset))
                    &&& json::holds(
                        rows[i],
                        "length"@,
                        JsonView::Unsigned(fields[i].length as u64),
                    )
                    &&& json::holds(rows[i], "address"@, JsonView::Unsigned(at.0))
                    &&& match outcomes[i] {
                        FieldOutcomeView::Read { raw, region } => {
                            &&& json::holds(
                                rows[i],
                                "raw_hex"@,
                                JsonView::Text(arguments::hex_run(raw)),
                            )
                            &&& json::holds(rows[i], "bytes"@, json::byte_list(raw))
                            &&& field_pointer(fields[i].length, raw) matches Some(value)
                                ==> json::holds(
                                rows[i],
                                "pointer_value"@,
                                JsonView::Unsigned(value as u64),
                            ) && json::holds(
                                rows[i],
                                "pointer_target"@,
                                pointer_target(value, region),
                            )
                        },
                        FieldOutcomeView::Failed { error } => json::holds(
                            rows[i],
                            "error"@,
                            JsonView::Text(error),
                        ),
                    }
                }
        }),
{
    let report = diff_struct_report_of(struct_name, live_address, fields, outcomes)->Object_0;
    let rows = field_rows(live_address, fields, outcomes);
    let wanted = |i: int| points(fields[i].length, outcomes[i]);
    let pointing = Set::new(
        |i: int|
            0 <= i < fields.len() && (outcomes[i] matches FieldOutcomeView::Read { raw, region }
                && region is Some && fields[i].length == 4 && raw.len() == 4),
    );
    seqs::law_count_below(fields.len() as int, wanted);
    assert(Set::new(|i: int| 0 <= i < fields.len() && wanted(i)) =~= pointing);
    assert(pointing_fields(fields, outcomes) == pointing.len());
    assert(report[0] == ("field_count"@, JsonView::Unsigned(fields.len() as u64)));
    assert(report[1] == ("fields"@, JsonView::Array(rows)));
    assert(report[2] == ("live_address"@, JsonView::Unsigned(live_address.0)));
    assert(report[3] == ("ptr_field_count"@, JsonView::Unsigned(pointing.len() as u64)));
    assert(report[4] == ("struct_name"@, JsonView::Text(struct_name)));
    assert forall|i: int| 0 <= i < fields.len() implies {
        let at = pointers::moved(live_address, fields[i].offset);
        &&& json::holds(#[trigger] rows[i], "name"@, JsonView::Text(fields[i].name))
        &&& json::holds(rows[i], "type"@, JsonView::Text(fields[i].kind))
        &&& json::holds(rows[i], "offset"@, JsonView::Unsigned(fields[i].offset))
        &&& json::holds(rows[i], "length"@, JsonView::Unsigned(fields[i].length as u64))
        &&& json::holds(rows[i], "address"@, JsonView::Unsigned(at.0))
        &&& match outcomes[i] {
            FieldOutcomeView::Read { raw, region } => {
                &&& json::holds(rows[i], "raw_hex"@, JsonView::Text(arguments::hex_run(raw)))
                &&& json::holds(rows[i], "bytes"@, json::byte_list(raw))
                &&& field_pointer(fields[i].length, raw) matches Some(value) ==> json::holds(
                    rows[i],
                    "pointer_value"@,
                    JsonView::Unsigned(value as u64),
                ) && json::holds(rows[i], "pointer_target"@, pointer_target(value, region))
            },
            FieldOutcomeView::Failed { error } => json::holds(
                rows[i],
                "error"@,
                JsonView::Text(error),
            ),
        }
    } by {
        let at = pointers::moved(live_address, fields[i].offset);
        let row = rows[i]->Object_0;
        assert(row[0] == ("address"@, JsonView::Unsigned(at.0)));
        assert(row[2] == ("length"@, JsonView::Unsigned(fields[i].length as u64)));
        assert(row[3] == ("name"@, JsonView::Text(fields[i].name)));
        assert(row[4] == ("offset"@, JsonView::Unsigned(fields[i].offset)));
        match outcomes[i] {
            FieldOutcomeView::Read { raw, region } => {
                assert(row[1] == ("bytes"@, json::byte_list(raw)));
                assert(row[7] == ("raw_hex"@, JsonView::Text(arguments::hex_run(raw))));
                assert(row[8] == ("type"@, JsonView::Text(fields[i].kind)));
                if let Some(value) = field_pointer(fields[i].length, raw) {
                    assert(row[5] == ("pointer_target"@, pointer_target(value, region)));
                    assert(row[6] == ("pointer_value"@, JsonView::Unsigned(value as u64)));
                }
            },
            FieldOutcomeView::Failed { error } => {
                assert(row[1] == ("error"@, JsonView::Text(error)));
                assert(row[5] == ("type"@, JsonView::Text(fields[i].kind)));
            },
        }
    }
}

/// The fields of a description are the first ones by offset of those that it lists, as many
/// as are asked for: all of them are listed, and none that is left out has a lower offset.
pub proof fn law_static_fields(struct_name: Seq<char>, source: JsonView, max_fields: int)
    requires
        0 <= max_fields,
    ensures
        match static_fields(struct_name, source, max_fields) {
            Ok(fields) => field_list(source) matches Some(items) && {
                let listed = items.map_values(|item: JsonView| static_field(item));
                &&& ascending(fields)
                &&& fields.len() == if listed.len() < max_fields {
                    listed.len() as int
                } else {
                    max_fields
                }
                &&& exists|rest: Seq<StaticStructFieldView>| #[trigger]
                    (fields + rest).to_multiset() == listed.to_multiset() && ascending(
                        fields + rest,
                    )
            },
            Err(message) => field_list(source) is None && message == "struct '"@ + struct_name
                + "' has no fields"@,
        },
{
    if let Some(items) = field_list(source) {
        let listed = items.map_values(|item: JsonView| static_field(item));
        assert(listed =~= listed_fields(items));
        law_by_offset(listed, 0);
        let sorted = by_offset(listed);
        let fields = seqs::capped(sorted, max_fields);
        let rest = sorted.skip(fields.len() as int);
        assert(fields + rest =~= sorted);
        sorted.to_multiset_ensures();
        listed.to_multiset_ensures();
        assert((fields + rest).to_multiset() == listed.to_multiset());
    }
}

} // verus!
