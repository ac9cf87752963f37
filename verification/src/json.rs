//! JSON values: requests come in as values, and reports are built as values
//! before they are rendered as text.

use vstd::prelude::*;

use crate::seqs;
use crate::text;

verus! {

/// A JSON value. The fields of an object are kept in ascending order of their
/// names; a number that is no integer is kept as it is written.
#[derive(Debug, PartialEq, Eq)]
pub enum Json {
    Null,
    Bool(bool),
    Unsigned(u64),
    Negative(i64),
    Float(String),
    Text(String),
    Array(Vec<Json>),
    Object(Vec<(String, Json)>),
}

#[verifier::ext_equal]
pub enum JsonView {
    Null,
    Bool(bool),
    Unsigned(u64),
    Negative(i64),
    Float(Seq<char>),
    Text(Seq<char>),
    Array(Seq<JsonView>),
    Object(Seq<(Seq<char>, JsonView)>),
}

impl DeepView for Json {
    type V = JsonView;

    open spec fn deep_view(&self) -> JsonView {
        self.model()
    }
}

/// Whether an object field has a name.
pub open spec fn field_named(key: Seq<char>) -> spec_fn((Seq<char>, JsonView)) -> bool {
    |field: (Seq<char>, JsonView)| field.0 == key
}

impl JsonView {
    /// The field of an object with a name; nothing else has fields.
    pub open spec fn get(self, key: Seq<char>) -> Option<JsonView> {
        match self {
            JsonView::Object(fields) => match seqs::first_from(fields, 0, field_named(key)) {
                Some(i) => Some(fields[i].1),
                None => None,
            },
            _ => None,
        }
    }

    /// The field of an object with a name, or null.
    pub open spec fn field(self, key: Seq<char>) -> JsonView {
        match self.get(key) {
            Some(value) => value,
            None => JsonView::Null,
        }
    }

    /// The value as an unsigned integer.
    pub open spec fn unsigned(self) -> Option<u64> {
        match self {
            JsonView::Unsigned(n) => Some(n),
            _ => None,
        }
    }

    /// The value as a truth value.
    pub open spec fn truth(self) -> Option<bool> {
        match self {
            JsonView::Bool(b) => Some(b),
            _ => None,
        }
    }

    /// The value as a text.
    pub open spec fn text(self) -> Option<Seq<char>> {
        match self {
            JsonView::Text(t) => Some(t),
            _ => None,
        }
    }

    /// The value as a list.
    pub open spec fn items(self) -> Option<Seq<JsonView>> {
        match self {
            JsonView::Array(items) => Some(items),
            _ => None,
        }
    }

    /// The unsigned integer in a field.
    pub open spec fn get_unsigned(self, key: Seq<char>) -> Option<u64> {
        self.field(key).unsigned()
    }

    /// The truth value in a field.
    pub open spec fn get_truth(self, key: Seq<char>) -> Option<bool> {
        self.field(key).truth()
    }

    /// The text in a field.
    pub open spec fn get_text(self, key: Seq<char>) -> Option<Seq<char>> {
        self.field(key).text()
    }

    /// The list in a field.
    pub open spec fn get_items(self, key: Seq<char>) -> Option<Seq<JsonView>> {
        self.field(key).items()
    }
}

impl Json {
    /// The value with its texts and lists as sequences.
    pub open spec fn model(self) -> JsonView
        decreases self,
    {
        match self {
            Json::Null => JsonView::Null,
            Json::Bool(b) => JsonView::Bool(b),
            Json::Unsigned(n) => JsonView::Unsigned(n),
            Json::Negative(n) => JsonView::Negative(n),
            Json::Float(t) => JsonView::Float(t@),
            Json::Text(t) => JsonView::Text(t@),
            Json::Array(items) => JsonView::Array(
                Seq::new(
                    items@.len(),
                    |i: int|
                        if 0 <= i < items@.len() {
                            items@[i].model()
                        } else {
                            JsonView::Null
                        },
                ),
            ),
            Json::Object(fields) => JsonView::Object(
                Seq::new(
                    fields@.len(),
                    |i: int|
                        if 0 <= i < fields@.len() {
                            (fields@[i].0@, fields@[i].1.model())
                        } else {
                            (Seq::empty(), JsonView::Null)
                        },
                ),
            ),
        }
    }

    /// What a list holds.
    pub proof fn lemma_array(items: Vec<Json>)
        ensures
            Json::Array(items).deep_view() == JsonView::Array(items.deep_view()),
    {
        let listed = Json::Array(items).model()->Array_0;
        assert forall|i: int| 0 <= i < listed.len() implies listed[i] == items.deep_view()[i] by {
            assert(items.deep_view()[i] == items@[i].deep_view());
        }
        assert(listed =~= items.deep_view());
    }

    /// What an object holds.
    pub proof fn lemma_object(fields: Vec<(String, Json)>)
        ensures
            Json::Object(fields).deep_view() == JsonView::Object(fields.deep_view()),
    {
        let listed = Json::Object(fields).model()->Object_0;
        assert forall|i: int| 0 <= i < listed.len() implies listed[i] == fields.deep_view()[i] by {
            assert(fields.deep_view()[i] == (fields@[i].0@, fields@[i].1.deep_view()));
        }
        assert(listed =~= fields.deep_view());
    }

    /// A list of values.
    pub fn array(items: Vec<Json>) -> (value: Json)
        ensures
            value.deep_view() == JsonView::Array(items.deep_view()),
    {
        proof {
            Json::lemma_array(items);
        }
        Json::Array(items)
    }

    /// An object with the given fields.
    pub fn object(fields: Vec<(String, Json)>) -> (value: Json)
        ensures
            value.deep_view() == JsonView::Object(fields.deep_view()),
    {
        proof {
            Json::lemma_object(fields);
        }
        Json::Object(fields)
    }

    /// A text.
    pub fn text(value: &str) -> (json: Json)
        ensures
            json.deep_view() == JsonView::Text(value@),
    {
        Json::Text(value.to_string())
    }

    /// The field of an object with a name.
    pub fn get(&self, key: &str) -> (found: Option<&Json>)
        ensures
            match found {
                Some(value) => self.deep_view().get(key@) == Some(value.deep_view()),
                None => self.deep_view().get(key@) is None,
            },
    {
        match self {
            Json::Object(fields) => {
                proof {
                    Json::lemma_object(*fields);
                }
                let ghost all = fields.deep_view();
                let ghost wanted = field_named(key@);
                let mut i: usize = 0;
                while i < fields.len()
                    invariant
                        i <= fields.len(),
                        all == fields.deep_view(),
                        wanted == field_named(key@),
                        self.deep_view() == JsonView::Object(all),
                        seqs::first_from(all, 0, wanted) == seqs::first_from(all, i as int, wanted),
                    decreases fields.len() - i,
                {
                    proof {
                        assert(all[i as int].0 == fields@[i as int].0@);
                        assert(all[i as int].1 == fields@[i as int].1.deep_view());
                    }
                    if text::same_text(&fields[i].0, key) {
                        return Some(&fields[i].1);
                    }
                    i += 1;
                }
                None
            },
            _ => None,
        }
    }

    /// The field of an object with a name, or null.
    pub fn field(&self, key: &str) -> (value: &Json)
        ensures
            value.deep_view() == self.deep_view().field(key@),
    {
        match self.get(key) {
            Some(value) => value,
            None => &Json::Null,
        }
    }

    /// The value as an unsigned integer.
    pub fn as_u64(&self) -> (value: Option<u64>)
        ensures
            value == self.deep_view().unsigned(),
    {
        match self {
            Json::Unsigned(n) => Some(*n),
            _ => None,
        }
    }

    /// The value as a truth value.
    pub fn as_bool(&self) -> (value: Option<bool>)
        ensures
            value == self.deep_view().truth(),
    {
        match self {
            Json::Bool(b) => Some(*b),
            _ => None,
        }
    }

    /// The value as a text.
    pub fn as_str(&self) -> (value: Option<&str>)
        ensures
            value.deep_view() == self.deep_view().text(),
    {
        match self {
            Json::Text(t) => Some(t.as_str()),
            _ => None,
        }
    }

    /// The value as a list.
    pub fn as_array(&self) -> (value: Option<&Vec<Json>>)
        ensures
            value.deep_view() == self.deep_view().items(),
    {
        match self {
            Json::Array(items) => {
                proof {
                    Json::lemma_array(*items);
                }
                Some(items)
            },
            _ => None,
        }
    }

    pub fn is_null(&self) -> (null: bool)
        ensures
            null == (self.deep_view() == JsonView::Null),
    {
        match self {
            Json::Null => true,
            _ => false,
        }
    }

    /// The unsigned integer in a field.
    pub fn get_u64(&self, key: &str) -> (value: Option<u64>)
        ensures
            value == self.deep_view().get_unsigned(key@),
    {
        match self.get(key) {
            Some(value) => value.as_u64(),
            None => None,
        }
    }

    /// The truth value in a field.
    pub fn get_bool(&self, key: &str) -> (value: Option<bool>)
        ensures
            value == self.deep_view().get_truth(key@),
    {
        match self.get(key) {
            Some(value) => value.as_bool(),
            None => None,
        }
    }

    /// The text in a field.
    pub fn get_str(&self, key: &str) -> (value: Option<&str>)
        ensures
            value.deep_view() == self.deep_view().get_text(key@),
    {
        match self.get(key) {
            Some(value) => value.as_str(),
            None => None,
        }
    }

    /// The list in a field.
    pub fn get_array(&self, key: &str) -> (value: Option<&Vec<Json>>)
        ensures
            value.deep_view() == self.deep_view().get_items(key@),
    {
        match self.get(key) {
            Some(value) => value.as_array(),
            None => None,
        }
    }

    /// A copy of the value.
    pub fn copy(&self) -> (copy: Json)
        ensures
            copy.deep_view() == self.deep_view(),
        decreases self,
    {
        match self {
            Json::Null => Json::Null,
            Json::Bool(b) => Json::Bool(*b),
            Json::Unsigned(n) => Json::Unsigned(*n),
            Json::Negative(n) => Json::Negative(*n),
            Json::Float(t) => Json::Float(t.clone()),
            Json::Text(t) => Json::Text(t.clone()),
            Json::Array(items) => {
                let mut copies: Vec<Json> = Vec::new();
                let mut i: usize = 0;
                while i < items.len()
                    invariant
                        i <= items.len(),
                        self == Json::Array(*items),
                        copies.deep_view() == items.deep_view().take(i as int),
                    decreases items.len() - i,
                {
                    let ghost before = copies.deep_view();
                    proof {
                        assert(decreases_to!(self => self->Array_0));
                        assert(decreases_to!(self->Array_0 => self->Array_0@));
                        assert(decreases_to!(items@ => items@[i as int]));
                    }
                    copies.push(items[i].copy());
                    i += 1;
                    proof {
                        assert(copies.deep_view() =~= before.push(items@[i - 1].deep_view()));
                        assert(items.deep_view().take(i as int) =~= before.push(
                            items@[i - 1].deep_view(),
                        ));
                    }
                }
                proof {
                    Json::lemma_array(*items);
                    assert(items.deep_view().take(items@.len() as int) =~= items.deep_view());
                }
                Json::array(copies)
            },
            Json::Object(fields) => {
                let mut copies: Vec<(String, Json)> = Vec::new();
                let mut i: usize = 0;
                while i < fields.len()
                    invariant
                        i <= fields.len(),
                        self == Json::Object(*fields),
                        copies.deep_view() == fields.deep_view().take(i as int),
                    decreases fields.len() - i,
                {
                    let ghost before = copies.deep_view();
                    proof {
                        assert(decreases_to!(self => self->Object_0));
                        assert(decreases_to!(self->Object_0 => self->Object_0@));
                        assert(decreases_to!(fields@ => fields@[i as int]));
                        assert(decreases_to!(fields@[i as int] => fields@[i as int].1));
                    }
                    copies.push((fields[i].0.clone(), fields[i].1.copy()));
                    i += 1;
                    proof {
                        assert(copies.deep_view() =~= before.push(fields@[i - 1].deep_view()));
                        assert(fields.deep_view().take(i as int) =~= before.push(
                            fields@[i - 1].deep_view(),
                        ));
                    }
                }
                proof {
                    Json::lemma_object(*fields);
                    assert(fields.deep_view().take(fields@.len() as int) =~= fields.deep_view());
                }
                Json::object(copies)
            },
        }
    }
}

/// No fields.
pub open spec fn record() -> Seq<(Seq<char>, JsonView)> {
    Seq::empty()
}

/// A value, or null where there is none.
pub open spec fn optional(value: Option<JsonView>) -> JsonView {
    match value {
        Some(value) => value,
        None => JsonView::Null,
    }
}

/// A text, or null where there is none.
pub open spec fn optional_text(value: Option<Seq<char>>) -> JsonView {
    match value {
        Some(value) => JsonView::Text(value),
        None => JsonView::Null,
    }
}

/// A number, or null where there is none.
pub open spec fn optional_number(value: Option<u64>) -> JsonView {
    match value {
        Some(value) => JsonView::Unsigned(value),
        None => JsonView::Null,
    }
}

/// Bytes as a list of numbers.
pub open spec fn byte_list(bytes: Seq<u8>) -> JsonView {
    JsonView::Array(bytes.map_values(|byte: u8| JsonView::Unsigned(byte as u64)))
}

impl Json {
    /// A value, or null where there is none.
    pub fn optional(value: Option<Json>) -> (json: Json)
        ensures
            json.deep_view() == optional(value.deep_view()),
    {
        match value {
            Some(value) => value,
            None => Json::Null,
        }
    }

    /// A text, or null where there is none.
    pub fn optional_text(value: &Option<String>) -> (json: Json)
        ensures
            json.deep_view() == optional_text(value.deep_view()),
    {
        match value {
            Some(value) => Json::Text(value.clone()),
            None => Json::Null,
        }
    }

    /// A number, or null where there is none.
    pub fn optional_number(value: Option<u64>) -> (json: Json)
        ensures
            json.deep_view() == optional_number(value),
    {
        match value {
            Some(value) => Json::Unsigned(value),
            None => Json::Null,
        }
    }

    /// Bytes as a list of numbers.
    pub fn bytes(bytes: &[u8]) -> (json: Json)
        ensures
            json.deep_view() == byte_list(bytes@),
    {
        let mut items: Vec<Json> = Vec::new();
        let ghost f = |byte: u8| JsonView::Unsigned(byte as u64);
        let mut i: usize = 0;
        proof {
            assert(items.deep_view() =~= bytes@.take(0).map_values(f));
        }
        while i < bytes.len()
            invariant
                i <= bytes.len(),
                f == (|byte: u8| JsonView::Unsigned(byte as u64)),
                items.deep_view() == bytes@.take(i as int).map_values(f),
            decreases bytes.len() - i,
        {
            let ghost before = items.deep_view();
            items.push(Json::Unsigned(bytes[i] as u64));
            i += 1;
            proof {
                assert(items.deep_view() =~= before.push(f(bytes@[i - 1])));
                assert(bytes@.take(i as int).map_values(f) =~= before.push(f(bytes@[i - 1])));
            }
        }
        proof {
            assert(bytes@.take(bytes@.len() as int) =~= bytes@);
        }
        Json::array(items)
    }

    /// A list of what each item is turned into.
    pub(crate) fn list_of<T: DeepView, F: Fn(&T) -> Json>(
        items: &Vec<T>,
        f: F,
        Ghost(shape): Ghost<spec_fn(T::V) -> JsonView>,
    ) -> (json: Json)
        requires
            forall|item: &T| call_requires(f, (item,)),
            forall|item: &T, result: Json|
                call_ensures(f, (item,), result) ==> result.deep_view() == shape(item.deep_view()),
        ensures
            json.deep_view() == JsonView::Array(items.deep_view().map_values(shape)),
    {
        let ghost all = items.deep_view();
        let mut values: Vec<Json> = Vec::new();
        let mut i: usize = 0;
        proof {
            assert(values.deep_view() =~= all.take(0).map_values(shape));
        }
        while i < items.len()
            invariant
                i <= items.len(),
                all == items.deep_view(),
                forall|item: &T| call_requires(f, (item,)),
                forall|item: &T, result: Json|
                    call_ensures(f, (item,), result) ==> result.deep_view() == shape(
                        item.deep_view(),
                    ),
                values.deep_view() == all.take(i as int).map_values(shape),
            decreases items.len() - i,
        {
            let ghost before = values.deep_view();
            let made = f(&items[i]);
            values.push(made);
            i += 1;
            proof {
                assert(values.deep_view() =~= before.push(shape(all[i - 1])));
                assert(all.take(i as int).map_values(shape) =~= before.push(shape(all[i - 1])));
            }
        }
        proof {
            assert(all.len() == items@.len());
            assert(all.take(all.len() as int) =~= all);
        }
        Json::array(values)
    }

    /// A list of what each plain item is turned into.
    pub(crate) fn plain_list<T: Copy, F: Fn(T) -> Json>(
        items: &Vec<T>,
        f: F,
        Ghost(shape): Ghost<spec_fn(T) -> JsonView>,
    ) -> (json: Json)
        requires
            forall|item: T| call_requires(f, (item,)),
            forall|item: T, result: Json|
                call_ensures(f, (item,), result) ==> result.deep_view() == shape(item),
        ensures
            json.deep_view() == JsonView::Array(items@.map_values(shape)),
    {
        let mut values: Vec<Json> = Vec::new();
        let mut i: usize = 0;
        proof {
            assert(values.deep_view() =~= items@.take(0).map_values(shape));
        }
        while i < items.len()
            invariant
                i <= items.len(),
                forall|item: T| call_requires(f, (item,)),
                forall|item: T, result: Json|
                    call_ensures(f, (item,), result) ==> result.deep_view() == shape(item),
                values.deep_view() == items@.take(i as int).map_values(shape),
            decreases items.len() - i,
        {
            let ghost before = values.deep_view();
            let made = f(items[i]);
            values.push(made);
            i += 1;
            proof {
                assert(values.deep_view() =~= before.push(shape(items@[i - 1])));
                assert(items@.take(i as int).map_values(shape) =~= before.push(
                    shape(items@[i - 1]),
                ));
            }
        }
        proof {
            assert(items@.take(items@.len() as int) =~= items@);
        }
        Json::array(values)
    }
}

/// The fields of an object that is being built.
pub struct Fields {
    list: Vec<(String, Json)>,
}

impl DeepView for Fields {
    type V = Seq<(Seq<char>, JsonView)>;

    closed spec fn deep_view(&self) -> Seq<(Seq<char>, JsonView)> {
        self.list.deep_view()
    }
}

impl Fields {
    /// No fields.
    pub fn new() -> (fields: Self)
        ensures
            fields.deep_view() == record(),
    {
        let fields = Fields { list: Vec::new() };
        proof {
            assert(fields.list.deep_view() =~= Seq::<(Seq<char>, JsonView)>::empty());
        }
        fields
    }

    /// The fields with one more behind them.
    pub fn with(self, name: &str, value: Json) -> (fields: Self)
        ensures
            fields.deep_view() == self.deep_view().push((name@, value.deep_view())),
    {
        let mut fields = self;
        let ghost before = fields.list.deep_view();
        fields.list.push((name.to_string(), value));
        proof {
            assert(fields.list.deep_view() =~= before.push((name@, value.deep_view())));
        }
        fields
    }

    /// The object.
    pub fn object(self) -> (json: Json)
        ensures
            json.deep_view() == JsonView::Object(self.deep_view()),
    {
        Json::object(self.list)
    }
}

impl Clone for Json {
    fn clone(&self) -> (copy: Self)
        ensures
            copy.deep_view() == self.deep_view(),
    {
        self.copy()
    }
}

/// Whether an object holds a part under a name.
pub open spec fn holds(value: JsonView, key: Seq<char>, part: JsonView) -> bool {
    value matches JsonView::Object(fields) && fields.contains((key, part))
}

/// The value of a field is that of the first field with its name; where no field has the
/// name, and where the value is no object, there is none.
pub proof fn law_get(value: JsonView, key: Seq<char>)
    ensures
        match value.get(key) {
            Some(part) => value matches JsonView::Object(fields) && exists|i: int|
                0 <= i < fields.len() && (#[trigger] fields[i]) == (key, part) && forall|j: int|
                    0 <= j < i ==> (#[trigger] fields[j]).0 != key,
            None => value matches JsonView::Object(fields) ==> forall|j: int|
                0 <= j < fields.len() ==> (#[trigger] fields[j]).0 != key,
        },
        value.field(key) == match value.get(key) {
            Some(part) => part,
            None => JsonView::Null,
        },
{
    if let JsonView::Object(fields) = value {
        let wanted = field_named(key);
        seqs::lemma_first_from(fields, 0, wanted);
        assert forall|j: int| 0 <= j < fields.len() implies wanted(#[trigger] fields[j]) == (
        fields[j].0 == key) by {}
        if let Some(i) = seqs::first_from(fields, 0, wanted) {
            assert(fields[i] == (key, fields[i].1));
        }
    }
}

/// The field at an index is the field with its name, where no field before it has the name.
pub proof fn lemma_field_at(value: JsonView, i: int)
    requires
        value is Object,
        0 <= i < value->Object_0.len(),
        forall|j: int| 0 <= j < i ==> (#[trigger] value->Object_0[j]).0 != value->Object_0[i].0,
    ensures
        value.get(value->Object_0[i].0) == Some(value->Object_0[i].1),
        value.field(value->Object_0[i].0) == value->Object_0[i].1,
{
    law_get(value, value->Object_0[i].0);
}

} // verus!
