use vstd::prelude::*;

verus! {

/// A JSON value without parts, as the contracts see it.
pub enum PrimitiveModel {
    Bool(bool),
    Integer(i64),
    /// A finite double, by its IEEE 754 bits.
    Double(u64),
    String(Seq<char>),
}

/// A JSON value, as the contracts see it.
pub enum JsonModel {
    Bool(bool),
    Integer(i64),
    /// A finite double, by its IEEE 754 bits.
    Double(u64),
    String(Seq<char>),
    Array(Seq<PrimitiveModel>),
    Object(Seq<(Seq<char>, PrimitiveModel)>),
}

/// A JSON value without parts: a boolean, a number or a string.
#[derive(Debug, Clone, PartialEq, Eq)]
pub enum JsonPrimitive {
    Bool(bool),
    Integer(i64),
    /// A finite double, by its IEEE 754 bits.
    Double(u64),
    String(String),
}

/// A JSON value as the conversions of this module make them: a value
/// without parts, an array of such values, or an object whose members are
/// such values.
#[derive(Debug, Clone, PartialEq, Eq)]
pub enum JsonValue {
    Bool(bool),
    Integer(i64),
    /// A finite double, by its IEEE 754 bits.
    Double(u64),
    String(String),
    Array(Vec<JsonPrimitive>),
    Object(Vec<(String, JsonPrimitive)>),
}

impl View for JsonPrimitive {
    type V = PrimitiveModel;

    open spec fn view(&self) -> PrimitiveModel {
        match self {
            JsonPrimitive::Bool(value) => PrimitiveModel::Bool(*value),
            JsonPrimitive::Integer(value) => PrimitiveModel::Integer(*value),
            JsonPrimitive::Double(bits) => PrimitiveModel::Double(*bits),
            JsonPrimitive::String(value) => PrimitiveModel::String(value@),
        }
    }
}

impl View for JsonValue {
    type V = JsonModel;

    open spec fn view(&self) -> JsonModel {
        match self {
            JsonValue::Bool(value) => JsonModel::Bool(*value),
            JsonValue::Integer(value) => JsonModel::Integer(*value),
            JsonValue::Double(bits) => JsonModel::Double(*bits),
            JsonValue::String(value) => JsonModel::String(value@),
            JsonValue::Array(items) => JsonModel::Array(
                items@.map_values(|item: JsonPrimitive| item@),
            ),
            JsonValue::Object(members) => JsonModel::Object(
                members@.map_values(|member: (String, JsonPrimitive)| (member.0@, member.1@)),
            ),
        }
    }
}

/// The value of an attribute or of a log record body.
#[derive(Debug, PartialEq, Eq)]
pub enum OtlpValue {
    StringValue(String),
    BoolValue(bool),
    IntValue(i64),
    /// A double, by its IEEE 754 bits.
    DoubleValue(u64),
    ArrayValue(Vec<OtlpAnyValue>),
    KvlistValue(Vec<OtlpKeyValue>),
    BytesValue(Vec<u8>),
}

/// A value that may be missing.
#[derive(Debug, PartialEq, Eq)]
pub struct OtlpAnyValue {
    pub value: Option<OtlpValue>,
}

/// An attribute: a key and its value.
#[derive(Debug, PartialEq, Eq)]
pub struct OtlpKeyValue {
    pub key: String,
    pub value: Option<OtlpAnyValue>,
}

/// The bits are those of a finite double: neither an infinity nor a NaN.
pub open spec fn is_finite_bits(bits: u64) -> bool {
    (bits >> 52) & 0x7ff != 0x7ff
}

/// The JSON value without parts that a value stands for: booleans,
/// integers, finite doubles and strings stand for themselves, and nothing
/// else stands for any.
pub open spec fn primitive_of(value: Option<OtlpValue>) -> Option<PrimitiveModel> {
    match value {
        Some(OtlpValue::BoolValue(value)) => Some(PrimitiveModel::Bool(value)),
        Some(OtlpValue::DoubleValue(bits)) => if is_finite_bits(bits) {
            Some(PrimitiveModel::Double(bits))
        } else {
            None
        },
        Some(OtlpValue::IntValue(value)) => Some(PrimitiveModel::Integer(value)),
        Some(OtlpValue::StringValue(value)) => Some(PrimitiveModel::String(value@)),
        _ => None,
    }
}

/// The JSON value that a value stands for. An array stands for the array
/// of those of its items that stand for a JSON value without parts, in
/// their order. Bytes and lists of attributes stand for nothing.
pub open spec fn json_of(value: OtlpValue) -> Option<JsonModel> {
    match value {
        OtlpValue::ArrayValue(values) => Some(
            JsonModel::Array(values@.filter_map(|item: OtlpAnyValue| primitive_of(item.value))),
        ),
        OtlpValue::BoolValue(value) => Some(JsonModel::Bool(value)),
        OtlpValue::DoubleValue(bits) => if is_finite_bits(bits) {
            Some(JsonModel::Double(bits))
        } else {
            None
        },
        OtlpValue::IntValue(value) => Some(JsonModel::Integer(value)),
        OtlpValue::StringValue(value) => Some(JsonModel::String(value@)),
        OtlpValue::BytesValue(_) | OtlpValue::KvlistValue(_) => None,
    }
}

/// The JSON value of a value that may be missing.
pub open spec fn json_of_any(value: Option<OtlpAnyValue>) -> Option<JsonModel> {
    match value {
        Some(any_value) => match any_value.value {
            Some(value) => json_of(value),
            None => None,
        },
        None => None,
    }
}

/// The JSON value under which an attribute is kept, if it is kept: its key
/// must not be empty, and its value must stand for a JSON value.
pub open spec fn attribute_json(attribute: OtlpKeyValue) -> Option<JsonModel> {
    if attribute.key@.len() == 0 {
        None
    } else {
        json_of_any(attribute.value)
    }
}

/// The attributes that are kept of a list of attributes, by their keys.
/// Where a key comes more than once, its last value that is kept stands.
pub open spec fn extracted(attributes: Seq<OtlpKeyValue>) -> Map<Seq<char>, JsonModel>
    decreases attributes.len(),
{
    if attributes.len() == 0 {
        Map::empty()
    } else {
        let rest = extracted(attributes.drop_last());
        match attribute_json(attributes.last()) {
            Some(json) => rest.insert(attributes.last().key@, json),
            None => rest,
        }
    }
}

/// The body of a log record as JSON: a string is wrapped into an object
/// with the one member `message`, every other value stands as it is.
pub open spec fn log_record_body(body: OtlpAnyValue) -> Option<JsonModel> {
    match json_of_any(Some(body)) {
        Some(JsonModel::String(text)) => Some(
            JsonModel::Object(seq![("message"@, PrimitiveModel::String(text))]),
        ),
        Some(json) => Some(json),
        None => None,
    }
}

fn finite(bits: u64) -> (finite: bool)
    ensures
        finite == is_finite_bits(bits),
{
    (bits >> 52) & 0x7ff != 0x7ff
}

/// Converts an item of an array to JSON: see `primitive_of`.
pub fn to_json_value_from_primitive_any_value(any_value: OtlpAnyValue) -> (json: Option<
    JsonPrimitive,
>)
    ensures
        match json {
            Some(primitive) => primitive_of(any_value.value) == Some(primitive@),
            None => primitive_of(any_value.value) is None,
        },
{
    match any_value.value {
        Some(OtlpValue::BoolValue(value)) => Some(JsonPrimitive::Bool(value)),
        Some(OtlpValue::DoubleValue(bits)) => if finite(bits) {
            Some(JsonPrimitive::Double(bits))
        } else {
            None
        },
        Some(OtlpValue::IntValue(value)) => Some(JsonPrimitive::Integer(value)),
        Some(OtlpValue::StringValue(value)) => Some(JsonPrimitive::String(value)),
        _ => None,
    }
}

/// Converts a value to JSON: see `json_of`.
pub fn to_json_value(value: OtlpValue) -> (json: Option<JsonValue>)
    ensures
        match json {
            Some(converted) => json_of(value) == Some(converted@),
            None => json_of(value) is None,
        },
{
    match value {
        OtlpValue::ArrayValue(values) => {
            let mut values = values;
            let ghost given = values@;
            let ghost convert = |item: OtlpAnyValue| primitive_of(item.value);
            let mut items: Vec<JsonPrimitive> = Vec::new();
            let mut i: usize = 0;
            proof {
                assert(given.take(0) =~= Seq::empty());
                assert(items@.map_values(|item: JsonPrimitive| item@) =~= Seq::empty());
            }
            while i < values.len()
                invariant
                    i <= values@.len(),
                    values@.len() == given.len(),
                    convert == |item: OtlpAnyValue| primitive_of(item.value),
                    forall|j: int| i <= j < given.len() ==> values@[j] == given[j],
                    items@.map_values(|item: JsonPrimitive| item@) == given.take(
                        i as int,
                    ).filter_map(convert),
                decreases values@.len() - i,
            {
                let item = OtlpAnyValue { value: values[i].value.take() };
                assert(item == given[i as int]);
                let ghost earlier = items@;
                proof {
                    given.lemma_filter_map_take_succ(convert, i as int);
                }
                match to_json_value_from_primitive_any_value(item) {
                    Some(primitive) => {
                        items.push(primitive);
                        assert(items@.map_values(|item: JsonPrimitive| item@)
                            =~= earlier.map_values(|item: JsonPrimitive| item@) + seq![
                            primitive@,
                        ]);
                    },
                    None => {
                        assert(given.take(i + 1).filter_map(convert) =~= given.take(
                            i as int,
                        ).filter_map(convert));
                    },
                }
                i += 1;
            }
            proof {
                assert(given.take(i as int) =~= given);
            }
            Some(JsonValue::Array(items))
        },
        OtlpValue::BoolValue(value) => Some(JsonValue::Bool(value)),
        OtlpValue::DoubleValue(bits) => if finite(bits) {
            Some(JsonValue::Double(bits))
        } else {
            None
        },
        OtlpValue::IntValue(value) => Some(JsonValue::Integer(value)),
        OtlpValue::StringValue(value) => Some(JsonValue::String(value)),
        OtlpValue::BytesValue(_) | OtlpValue::KvlistValue(_) => None,
    }
}

/// Converts the body of a log record to JSON: see `log_record_body`.
pub fn parse_log_record_body(body: OtlpAnyValue) -> (json: Option<JsonValue>)
    ensures
        match json {
            Some(converted) => log_record_body(body) == Some(converted@),
            None => log_record_body(body) is None,
        },
{
    let value = match body.value {
        Some(value) => value,
        None => {
            return None;
        },
    };
    match to_json_value(value) {
        Some(JsonValue::String(text)) => {
            let mut members: Vec<(String, JsonPrimitive)> = Vec::new();
            members.push(("message".to_owned(), JsonPrimitive::String(text)));
            assert(members@.map_values(|member: (String, JsonPrimitive)| (member.0@, member.1@))
                =~= seq![("message"@, PrimitiveModel::String(text@))]);
            Some(JsonValue::Object(members))
        },
        Some(json) => Some(json),
        None => None,
    }
}

/// The views of the entries of a list of attributes.
pub open spec fn entry_views(entries: Seq<(String, JsonValue)>) -> Seq<(Seq<char>, JsonModel)> {
    entries.map_values(|entry: (String, JsonValue)| (entry.0@, entry.1@))
}

/// The map that a list of entries stands for: a later entry goes before an
/// earlier one with the same key.
pub open spec fn map_of(entries: Seq<(Seq<char>, JsonModel)>) -> Map<Seq<char>, JsonModel>
    decreases entries.len(),
{
    if entries.len() == 0 {
        Map::empty()
    } else {
        map_of(entries.drop_last()).insert(entries.last().0, entries.last().1)
    }
}

/// No key comes twice in the list.
pub open spec fn keys_are_distinct(entries: Seq<(Seq<char>, JsonModel)>) -> bool {
    forall|i: int, j: int|
        0 <= i < j < entries.len() ==> (#[trigger] entries[i]).0 != (#[trigger] entries[j]).0
}

/// In a list without a key that comes twice, the map holds each entry
/// under its key, and nothing under a key that the list does not hold.
pub proof fn lemma_map_of(entries: Seq<(Seq<char>, JsonModel)>)
    requires
        keys_are_distinct(entries),
    ensures
        forall|i: int|
            0 <= i < entries.len() ==> map_of(entries).contains_key((#[trigger] entries[i]).0)
                && map_of(entries)[entries[i].0] == entries[i].1,
        forall|key: Seq<char>| #[trigger]
            map_of(entries).contains_key(key) ==> exists|i: int|
                0 <= i < entries.len() && (#[trigger] entries[i]).0 == key,
    decreases entries.len(),
{
    if entries.len() > 0 {
        let rest = entries.drop_last();
        lemma_map_of(rest);
        assert forall|i: int| 0 <= i < entries.len() implies map_of(entries).contains_key(
            (#[trigger] entries[i]).0,
        ) && map_of(entries)[entries[i].0] == entries[i].1 by {
            if i < entries.len() - 1 {
                assert(rest[i] == entries[i]);
                assert(entries[i].0 != entries[entries.len() - 1].0);
            }
        }
        assert forall|key: Seq<char>| #[trigger]
            map_of(entries).contains_key(key) implies exists|i: int|
            0 <= i < entries.len() && (#[trigger] entries[i]).0 == key by {
            if key == entries.last().0 {
                assert(entries[entries.len() - 1].0 == key);
            } else {
                assert(map_of(rest).contains_key(key));
                let i = choose|i: int| 0 <= i < rest.len() && (#[trigger] rest[i]).0 == key;
                assert(entries[i].0 == key);
            }
        }
    }
}

/// In a list without a key that comes twice, the map has as many keys as
/// the list has entries.
pub proof fn lemma_map_of_len(entries: Seq<(Seq<char>, JsonModel)>)
    requires
        keys_are_distinct(entries),
    ensures
        map_of(entries).dom().finite(),
        map_of(entries).dom().len() == entries.len(),
    decreases entries.len(),
{
    if entries.len() > 0 {
        let rest = entries.drop_last();
        lemma_map_of_len(rest);
        lemma_map_of(rest);
        if map_of(rest).contains_key(entries.last().0) {
            let i = choose|i: int| 0 <= i < rest.len() && (#[trigger] rest[i]).0 == entries.last().0;
            assert(entries[i].0 == entries[entries.len() - 1].0);
        }
        assert(map_of(entries).dom() =~= map_of(rest).dom().insert(entries.last().0));
    }
}

/// To put a new value in the place of an entry is to insert the value
/// under the entry's key.
pub proof fn lemma_map_of_update(
    entries: Seq<(Seq<char>, JsonModel)>,
    place: int,
    value: JsonModel,
)
    requires
        keys_are_distinct(entries),
        0 <= place < entries.len(),
    ensures
        map_of(entries.update(place, (entries[place].0, value))) == map_of(entries).insert(
            entries[place].0,
            value,
        ),
        keys_are_distinct(entries.update(place, (entries[place].0, value))),
    decreases entries.len(),
{
    let key = entries[place].0;
    let updated = entries.update(place, (key, value));
    let rest = entries.drop_last();
    if place == entries.len() - 1 {
        assert(updated.drop_last() =~= rest);
        assert(map_of(updated) =~= map_of(entries).insert(key, value));
    } else {
        lemma_map_of_update(rest, place, value);
        assert(updated.drop_last() =~= rest.update(place, (key, value)));
        assert(updated.last() == entries.last());
        assert(entries[place].0 != entries[entries.len() - 1].0);
        assert(map_of(updated) =~= map_of(entries).insert(key, value));
    }
}

/// The attributes that were kept: a map from keys to JSON values.
#[derive(Debug)]
pub struct Attributes {
    entries: Vec<(String, JsonValue)>,
}

impl View for Attributes {
    type V = Map<Seq<char>, JsonModel>;

    closed spec fn view(&self) -> Map<Seq<char>, JsonModel> {
        map_of(entry_views(self.entries@))
    }
}

impl Attributes {
    /// No key comes twice.
    #[verifier::type_invariant]
    spec fn well_formed(self) -> bool {
        keys_are_distinct(entry_views(self.entries@))
    }

    /// No attributes.
    pub fn new() -> (attributes: Self)
        ensures
            attributes@ == Map::<Seq<char>, JsonModel>::empty(),
    {
        let attributes = Attributes { entries: Vec::new() };
        assert(entry_views(attributes.entries@) =~= Seq::empty());
        attributes
    }

    /// Whether there is no attribute.
    pub fn is_empty(&self) -> (empty: bool)
        ensures
            empty == (self@ == Map::<Seq<char>, JsonModel>::empty()),
    {
        proof {
            use_type_invariant(self);
            let views = entry_views(self.entries@);
            lemma_map_of(views);
            if views.len() > 0 {
                assert(map_of(views).contains_key(views[0].0));
            } else {
                assert(map_of(views) =~= Map::empty());
            }
        }
        self.entries.len() == 0
    }

    /// The number of attributes.
    pub fn len(&self) -> (len: usize)
        ensures
            self@.dom().finite(),
            len == self@.dom().len(),
    {
        proof {
            use_type_invariant(self);
            lemma_map_of_len(entry_views(self.entries@));
        }
        self.entries.len()
    }

    /// The place of the entry with the given key, or the number of entries.
    fn find(&self, key: &str) -> (place: usize)
        ensures
            place <= self.entries@.len(),
            place < self.entries@.len() ==> self.entries@[place as int].0@ == key@,
            place == self.entries@.len() ==> forall|i: int|
                0 <= i < self.entries@.len() ==> (#[trigger] self.entries@[i]).0@ != key@,
    {
        let wanted = key.to_owned();
        let mut place: usize = 0;
        while place < self.entries.len()
            invariant
                place <= self.entries@.len(),
                wanted@ == key@,
                forall|i: int| 0 <= i < place ==> (#[trigger] self.entries@[i]).0@ != key@,
            decreases self.entries@.len() - place,
        {
            if self.entries[place].0 == wanted {
                return place;
            }
            place += 1;
        }
        place
    }

    /// The value under a key, if there is one.
    pub fn get(&self, key: &str) -> (value: Option<&JsonValue>)
        ensures
            match value {
                Some(found) => self@.contains_key(key@) && self@[key@] == found@,
                None => !self@.contains_key(key@),
            },
    {
        let place = self.find(key);
        proof {
            use_type_invariant(self);
            let views = entry_views(self.entries@);
            lemma_map_of(views);
            if place < self.entries@.len() {
                assert(views[place as int].0 == key@);
            } else if map_of(views).contains_key(key@) {
                let i = choose|i: int| 0 <= i < views.len() && (#[trigger] views[i]).0 == key@;
                assert(self.entries@[i].0@ == key@);
            }
        }
        if place < self.entries.len() {
            Some(&self.entries[place].1)
        } else {
            None
        }
    }

    /// Puts a value under a key, in the place of the value that was there,
    /// if one was.
    pub fn insert(&mut self, key: String, value: JsonValue)
        ensures
            final(self)@ == old(self)@.insert(key@, value@),
    {
        proof {
            use_type_invariant(&*self);
        }
        let place = self.find(key.as_str());
        let ghost before = entry_views(self.entries@);
        let mut entries: Vec<(String, JsonValue)> = Vec::new();
        std::mem::swap(&mut self.entries, &mut entries);
        if place < entries.len() {
            let ghost old_key = entries@[place as int].0;
            entries[place].1 = value;
            proof {
                assert(entry_views(entries@) =~= before.update(
                    place as int,
                    (before[place as int].0, value@),
                ));
                lemma_map_of_update(before, place as int, value@);
            }
        } else {
            entries.push((key, value));
            proof {
                assert(entry_views(entries@) =~= before.push((key@, value@)));
                assert(before.push((key@, value@)).drop_last() =~= before);
            }
        }
        self.entries = entries;
    }
}

/// Keeps of a list of attributes those that JSON can hold: an attribute
/// with an empty key is dropped, and so is one whose value is missing or
/// stands for no JSON value. See `extracted`.
pub fn extract_attributes(attributes: Vec<OtlpKeyValue>) -> (attrs: Attributes)
    ensures
        attrs@ == extracted(attributes@),
{
    let mut attributes = attributes;
    let ghost given = attributes@;
    let mut attrs = Attributes::new();
    let mut i: usize = 0;
    proof {
        assert(given.take(0) =~= Seq::empty());
    }
    while i < attributes.len()
        invariant
            i <= attributes@.len(),
            attributes@.len() == given.len(),
            forall|j: int| i <= j < given.len() ==> attributes@[j] == given[j],
            attrs@ == extracted(given.take(i as int)),
        decreases attributes@.len() - i,
    {
        proof {
            assert(given.take(i + 1).drop_last() =~= given.take(i as int));
            assert(given.take(i + 1).last() == given[i as int]);
        }
        let mut key = String::new();
        std::mem::swap(&mut attributes[i].key, &mut key);
        let value = attributes[i].value.take();
        if !key.as_str().is_empty() {
            let converted = match value {
                Some(any_value) => match any_value.value {
                    Some(value) => to_json_value(value),
                    None => None,
                },
                None => None,
            };
            match converted {
                Some(json) => {
                    attrs.insert(key, json);
                },
                None => {},
            }
        }
        i += 1;
    }
    proof {
        assert(given.take(i as int) =~= given);
    }
    attrs
}

} // verus!
