//! Resolution of embedded schemas and name-addressed access to the fields of
//! a payload, without a compile-time message type.

use vstd::prelude::*;
use vstd::string::*;
use vstd::utf8::{decode_utf8, valid_utf8};
use crate::declarations::{
    declarations, in_files, locate, schema_declarations, FieldDecl, FieldModel, MessageDecl,
    MessageModel, LABEL_REPEATED,
};
use crate::error::TranscodeError;
use crate::message::Timestamp;
use crate::payload::{
    of_number, payload_parses, payload_values, value_models, wire_values, Wire, WireContent,
    WireValue,
};

verus! {

/// Type code of a string field.
pub const CODE_STRING: i32 = 9;

/// Type code of a field that holds a message.
pub const CODE_MESSAGE: i32 = 11;

/// Type code of a byte-blob field.
pub const CODE_BYTES: i32 = 12;

/// What a field holds, as far as this library reads fields.
pub enum FieldContent {
    Text(Seq<char>),
    Bytes(Seq<u8>),
    Message(Seq<u8>),
    Other,
}

/// The value of a field: a string, a byte blob, a nested message in
/// serialized form, or a value that is not read here (numbers,
/// enumerations, repeated and map fields).
#[derive(Debug)]
pub enum FieldValue {
    Text(String),
    Bytes(Vec<u8>),
    Message(Vec<u8>),
    Other,
}

impl View for FieldValue {
    type V = FieldContent;

    open spec fn view(&self) -> FieldContent {
        match self {
            FieldValue::Text(s) => FieldContent::Text(s@),
            FieldValue::Bytes(b) => FieldContent::Bytes(b@),
            FieldValue::Message(b) => FieldContent::Message(b@),
            FieldValue::Other => FieldContent::Other,
        }
    }
}

/// A declared field with the value it has in one message.
#[derive(Debug)]
pub struct Field {
    pub name: String,
    pub value: FieldValue,
}

impl View for Field {
    type V = (Seq<char>, FieldContent);

    open spec fn view(&self) -> (Seq<char>, FieldContent) {
        (self.name@, self.value@)
    }
}

/// Seconds and nanoseconds of a serialized timestamp message, or nothing
/// where the bytes do not parse as one.
pub uninterp spec fn timestamp_of(bytes: Seq<u8>) -> Option<(i64, i32)>;

/// Calls `Timestamp::parse_from_bytes` of the well-known types and hands out
/// the two fields of the result.
#[verifier::external_body]
fn parse_timestamp(bytes: &[u8]) -> (r: Option<Timestamp>)
    ensures
        match r {
            Some(t) => timestamp_of(bytes@) == Some((t.seconds, t.nanos)),
            None => timestamp_of(bytes@) is None,
        },
{
    let t = <protobuf::well_known_types::timestamp::Timestamp as protobuf::Message>::parse_from_bytes(
        bytes,
    ).ok()?;
    Some(Timestamp { seconds: t.seconds, nanos: t.nanos })
}

/// Calls `String::from_utf8` of the standard library on a copy of the
/// bytes: the text that the bytes encode, or nothing where they are not
/// valid UTF-8.
#[verifier::external_body]
fn decode_text(bytes: &[u8]) -> (r: Option<String>)
    ensures
        match r {
            Some(text) => valid_utf8(bytes@) && text@ == decode_utf8(bytes@),
            None => !valid_utf8(bytes@),
        },
{
    String::from_utf8(bytes.to_vec()).ok()
}

/// Seconds and nanoseconds of a serialized timestamp message.
pub fn read_timestamp(bytes: &[u8]) -> (r: Option<Timestamp>)
    ensures
        match r {
            Some(t) => timestamp_of(bytes@) == Some((t.seconds, t.nanos)),
            None => timestamp_of(bytes@) is None,
        },
{
    parse_timestamp(bytes)
}

/// How values of a type stand on the wire.
pub enum WireClass {
    Varint,
    Fixed32,
    Fixed64,
    Length,
    Any,
}

/// The wire class of a type code: strings, byte blobs and messages are
/// length-delimited; the fixed-width numbers take 32 or 64 bits; the other
/// numbers, booleans and enumerations are varints; a group, or a code that
/// names no type, is not held to a class.
pub open spec fn class_of(code: i32) -> WireClass {
    if code == 9 || code == 11 || code == 12 {
        WireClass::Length
    } else if code == 2 || code == 7 || code == 15 {
        WireClass::Fixed32
    } else if code == 1 || code == 6 || code == 16 {
        WireClass::Fixed64
    } else if code == 3 || code == 4 || code == 5 || code == 8 || code == 13 || code == 14 || code
        == 17 || code == 18 {
        WireClass::Varint
    } else {
        WireClass::Any
    }
}

/// Whether a value on the wire fits a declared field: it stands as the
/// field's type stands on the wire, where a repeated number may also come
/// packed in a length-delimited value, and the value of a string is valid
/// UTF-8.
pub open spec fn fits(f: FieldModel, v: WireContent) -> bool {
    &&& match class_of(f.code) {
        WireClass::Any => true,
        WireClass::Length => v is Blob,
        WireClass::Varint => v is Varint || (v is Blob && f.label == LABEL_REPEATED),
        WireClass::Fixed32 => v is Fixed32 || (v is Blob && f.label == LABEL_REPEATED),
        WireClass::Fixed64 => v is Fixed64 || (v is Blob && f.label == LABEL_REPEATED),
    }
    &&& f.code == CODE_STRING && v is Blob ==> valid_utf8(v->Blob_0)
}

/// Whether every value fits the field.
pub open spec fn all_fit(f: FieldModel, values: Seq<WireContent>) -> bool {
    forall|i: int| 0 <= i < values.len() ==> fits(f, #[trigger] values[i])
}

/// The last length-delimited value among `values`.
pub open spec fn last_blob(values: Seq<WireContent>) -> Option<Seq<u8>>
    decreases values.len(),
{
    if values.len() == 0 {
        None
    } else {
        match values.last() {
            WireContent::Blob(b) => Some(b),
            _ => last_blob(values.drop_last()),
        }
    }
}

/// The length-delimited values among `values`, joined in order.
pub open spec fn joined(values: Seq<WireContent>) -> Seq<u8>
    decreases values.len(),
{
    if values.len() == 0 {
        Seq::empty()
    } else {
        match values.last() {
            WireContent::Blob(b) => joined(values.drop_last()) + b,
            _ => joined(values.drop_last()),
        }
    }
}

/// The value of a declared field that is given `values`. A singular string
/// or byte blob has its last value, or its default where there is none: the
/// declared default text of a string, else the empty value. A singular
/// message has all its values joined, which is how messages merge. Every
/// other field, and a byte blob that is left to a declared default, stands
/// as `Other`.
pub open spec fn value_of(f: FieldModel, values: Seq<WireContent>) -> FieldContent {
    if f.label == LABEL_REPEATED {
        FieldContent::Other
    } else if f.code == CODE_STRING {
        match last_blob(values) {
            Some(b) => FieldContent::Text(decode_utf8(b)),
            None => FieldContent::Text(
                match f.default {
                    Some(text) => text,
                    None => Seq::empty(),
                },
            ),
        }
    } else if f.code == CODE_BYTES {
        match last_blob(values) {
            Some(b) => FieldContent::Bytes(b),
            None => if f.default is Some {
                FieldContent::Other
            } else {
                FieldContent::Bytes(Seq::empty())
            },
        }
    } else if f.code == CODE_MESSAGE {
        FieldContent::Message(joined(values))
    } else {
        FieldContent::Other
    }
}

/// The values that a payload gives to a declared field; none where the
/// field's number is not positive.
pub open spec fn values_for(payload: Seq<u8>, f: FieldModel) -> Seq<WireContent> {
    if f.number > 0 {
        payload_values(payload, f.number as u32)
    } else {
        Seq::empty()
    }
}

/// The declared fields of a message type with the values that a payload
/// gives them, or nothing where the payload does not parse or gives a
/// declared field a value that does not fit.
pub open spec fn viewed(fields: Seq<FieldModel>, payload: Seq<u8>) -> Option<
    Seq<(Seq<char>, FieldContent)>,
> {
    if !payload_parses(payload) || exists|i: int|
        0 <= i < fields.len() && !all_fit(#[trigger] fields[i], values_for(payload, fields[i])) {
        None
    } else {
        Some(
            Seq::new(
                fields.len(),
                |i: int| (fields[i].name, value_of(fields[i], values_for(payload, fields[i]))),
            ),
        )
    }
}

/// The first top-level message type of the descriptor set `blob` with the
/// full name `message_type`, or nothing where the blob is no descriptor set
/// or declares no such type.
pub open spec fn located(blob: Seq<u8>, message_type: Seq<char>) -> Option<MessageModel> {
    match schema_declarations(blob) {
        Some(files) => in_files(files, message_type, 0),
        None => None,
    }
}

/// Whether the descriptor set `blob` declares the message type
/// `message_type` at the top level of one of its files.
pub open spec fn declares(blob: Seq<u8>, message_type: Seq<char>) -> bool {
    located(blob, message_type) is Some
}

/// A resolved message type, from which views of payloads are made.
#[derive(Debug)]
pub struct MessageViewFactory {
    pub message: MessageDecl,
}

impl View for MessageViewFactory {
    type V = MessageModel;

    open spec fn view(&self) -> MessageModel {
        self.message@
    }
}

/// Resolves the message type `message_type` in an embedded descriptor set:
/// the first top-level type of that name in the order of the set. Fails
/// where the blob is no descriptor set or does not declare the type.
pub fn resolve(blob: &[u8], message_type: &str) -> (r: Result<MessageViewFactory, TranscodeError>)
    ensures
        match r {
            Ok(f) => located(blob@, message_type@) == Some(f@),
            Err(e) => e == TranscodeError::SchemaResolution && !declares(blob@, message_type@),
        },
{
    let files = match declarations(blob) {
        Some(files) => files,
        None => {
            return Err(TranscodeError::SchemaResolution);
        },
    };
    match locate(files, message_type) {
        Some(message) => Ok(MessageViewFactory { message }),
        None => Err(TranscodeError::SchemaResolution),
    }
}

/// The values of `values` that are given to a declared field.
pub open spec fn given(values: Seq<WireValue>, f: FieldModel) -> Seq<WireContent> {
    if f.number > 0 {
        of_number(value_models(values), f.number as u32)
    } else {
        Seq::empty()
    }
}

/// Whether one value fits a declared field.
fn value_fits(f: &FieldDecl, value: &Wire) -> (b: bool)
    ensures
        b == fits(f@, value@),
{
    let code = f.code;
    let packed = f.label == LABEL_REPEATED;
    match value {
        Wire::Blob(bytes) => {
            if code == CODE_STRING {
                decode_text(bytes.as_slice()).is_some()
            } else if code == 9 || code == 11 || code == 12 {
                true
            } else if code == 2 || code == 7 || code == 15 || code == 1 || code == 6 || code == 16
                || code == 3 || code == 4 || code == 5 || code == 8 || code == 13 || code == 14
                || code == 17 || code == 18 {
                packed
            } else {
                true
            }
        },
        Wire::Varint(_) => !(code == 9 || code == 11 || code == 12 || code == 2 || code == 7
            || code == 15 || code == 1 || code == 6 || code == 16),
        Wire::Fixed32(_) => !(code == 9 || code == 11 || code == 12 || code == 1 || code == 6
            || code == 16 || code == 3 || code == 4 || code == 5 || code == 8 || code == 13
            || code == 14 || code == 17 || code == 18),
        Wire::Fixed64(_) => !(code == 9 || code == 11 || code == 12 || code == 2 || code == 7
            || code == 15 || code == 3 || code == 4 || code == 5 || code == 8 || code == 13
            || code == 14 || code == 17 || code == 18),
    }
}

/// Reads the value of one declared field from the values of a payload, or
/// nothing where a value that is given to the field does not fit it.
pub fn read_field(values: &Vec<WireValue>, f: &FieldDecl) -> (r: Option<FieldValue>)
    ensures
        match r {
            Some(v) => all_fit(f@, given(values@, f@)) && v@ == value_of(f@, given(values@, f@)),
            None => !all_fit(f@, given(values@, f@)),
        },
{
    let mut last: Option<usize> = None;
    let mut whole: Vec<u8> = Vec::new();
    if f.number > 0 {
        let number: u32 = f.number as u32;
        let ghost all = value_models(values@);
        let mut i: usize = 0;
        proof {
            assert(all.take(0) =~= Seq::empty());
        }
        while i < values.len()
            invariant
                i <= values@.len(),
                all == value_models(values@),
                number == f.number,
                f.number > 0,
                all_fit(f@, of_number(all.take(i as int), number)),
                f.code == CODE_MESSAGE ==> joined(of_number(all.take(i as int), number))
                    == whole@,
                match last {
                    Some(k) => k < i && values@[k as int].value is Blob && last_blob(
                        of_number(all.take(i as int), number),
                    ) == Some(values@[k as int].value->Blob_0@),
                    None => last_blob(of_number(all.take(i as int), number)) is None,
                },
            decreases values@.len() - i,
        {
            let ghost before = of_number(all.take(i as int), number);
            proof {
                assert(all.take(i as int + 1).drop_last() =~= all.take(i as int));
                assert(all.take(i as int + 1).last() == values@[i as int]@);
            }
            if values[i].number == number {
                if !value_fits(f, &values[i].value) {
                    proof {
                        let now = of_number(all.take(i as int + 1), number);
                        assert(now == before.push(values@[i as int].value@));
                        assert(!fits(f@, now[now.len() - 1]));
                        assert(!all_fit(f@, now));
                        lemma_given_grows(all, i as int + 1, number, f@);
                        assert(given(values@, f@) == of_number(all, number));
                        assert(!all_fit(f@, given(values@, f@)));
                    }
                    return None;
                }
                proof {
                    let now = of_number(all.take(i as int + 1), number);
                    assert(now == before.push(values@[i as int].value@));
                    assert(now.drop_last() =~= before);
                }
                match &values[i].value {
                    Wire::Blob(bytes) => {
                        last = Some(i);
                        if f.code == CODE_MESSAGE {
                            crate::wire::put_bytes(&mut whole, bytes.as_slice());
                        }
                    },
                    _ => {},
                }
            }
            i = i + 1;
        }
        proof {
            assert(all.take(values@.len() as int) =~= all);
        }
    }
    if f.label == LABEL_REPEATED {
        return Some(FieldValue::Other);
    }
    if f.code == CODE_STRING {
        match last {
            Some(k) => match &values[k].value {
                Wire::Blob(bytes) => match decode_text(bytes.as_slice()) {
                    Some(text) => Some(FieldValue::Text(text)),
                    None => None,
                },
                _ => None,
            },
            None => match &f.default {
                Some(text) => Some(FieldValue::Text(text.clone())),
                None => Some(FieldValue::Text(String::new())),
            },
        }
    } else if f.code == CODE_BYTES {
        match last {
            Some(k) => match &values[k].value {
                Wire::Blob(bytes) => Some(FieldValue::Bytes(bytes.clone())),
                _ => None,
            },
            None => if f.default.is_some() {
                Some(FieldValue::Other)
            } else {
                Some(FieldValue::Bytes(Vec::new()))
            },
        }
    } else if f.code == CODE_MESSAGE {
        Some(FieldValue::Message(whole))
    } else {
        Some(FieldValue::Other)
    }
}

/// A payload seen through a resolved message type: every declared field
/// with its value, addressable by name.
#[derive(Debug)]
pub struct DynamicMessageView {
    pub fields: Vec<Field>,
}

impl View for DynamicMessageView {
    type V = Seq<(Seq<char>, FieldContent)>;

    open spec fn view(&self) -> Seq<(Seq<char>, FieldContent)> {
        self.fields@.map_values(|f: Field| f@)
    }
}

/// Value of the first field called `name`, if any field is called so.
pub open spec fn lookup(fields: Seq<(Seq<char>, FieldContent)>, name: Seq<char>) -> Option<
    FieldContent,
>
    decreases fields.len(),
{
    if fields.len() == 0 {
        None
    } else if fields[0].0 == name {
        Some(fields[0].1)
    } else {
        lookup(fields.drop_first(), name)
    }
}

/// Parses a payload against a resolved message type: every declared field
/// gets the value that the payload gives it. Fails where the payload does
/// not parse or gives a declared field a value that does not fit.
pub fn view(factory: &MessageViewFactory, payload: &[u8]) -> (r: Result<
    DynamicMessageView,
    TranscodeError,
>)
    ensures
        match r {
            Ok(v) => viewed(factory@.fields, payload@) == Some(v@),
            Err(e) => e == TranscodeError::MalformedPayload && viewed(factory@.fields, payload@)
                is None,
        },
{
    let values = match wire_values(payload) {
        Some(v) => v,
        None => {
            return Err(TranscodeError::MalformedPayload);
        },
    };
    let ghost declared = factory@.fields;
    let mut fields: Vec<Field> = Vec::new();
    let mut i: usize = 0;
    while i < factory.message.fields.len()
        invariant
            i <= factory.message.fields@.len(),
            declared == factory@.fields,
            payload_parses(payload@),
            forall|n: u32|
                of_number(value_models(values@), n) == #[trigger] payload_values(payload@, n),
            fields@.len() == i,
            forall|k: int|
                0 <= k < i ==> all_fit(#[trigger] declared[k], values_for(payload@, declared[k])),
            forall|k: int|
                0 <= k < i ==> (#[trigger] fields@[k])@ == (
                    declared[k].name,
                    value_of(declared[k], values_for(payload@, declared[k])),
                ),
        decreases factory.message.fields@.len() - i,
    {
        let f = &factory.message.fields[i];
        proof {
            assert(declared[i as int] == f@);
            assert(given(values@, f@) == values_for(payload@, f@));
        }
        match read_field(&values, f) {
            Some(value) => {
                fields.push(Field { name: f.name.clone(), value });
            },
            None => {
                return Err(TranscodeError::MalformedPayload);
            },
        }
        i = i + 1;
    }
    let message = DynamicMessageView { fields };
    proof {
        assert(message@ =~= viewed(declared, payload@)->0);
    }
    Ok(message)
}

/// Values that do not fit stay among the values that the field is given.
proof fn lemma_given_grows(all: Seq<(u32, WireContent)>, i: int, number: u32, f: FieldModel)
    requires
        0 <= i <= all.len(),
        !all_fit(f, of_number(all.take(i), number)),
    ensures
        !all_fit(f, of_number(all, number)),
    decreases all.len() - i,
{
    if i < all.len() {
        let now = of_number(all.take(i), number);
        let next = of_number(all.take(i + 1), number);
        assert(all.take(i + 1).drop_last() =~= all.take(i));
        let k = choose|k: int| 0 <= k < now.len() && !fits(f, #[trigger] now[k]);
        assert(next[k] == now[k]);
        lemma_given_grows(all, i + 1, number, f);
    } else {
        assert(all.take(i) =~= all);
    }
}

impl DynamicMessageView {
    /// The value of the field called `name`. Fails where the message type
    /// declares no such field; a field that the payload leaves out has its
    /// default value.
    pub fn field(&self, name: &str) -> (r: Result<&FieldValue, TranscodeError>)
        ensures
            match r {
                Ok(v) => lookup(self@, name@) == Some(v@),
                Err(e) => e == TranscodeError::MissingField && lookup(self@, name@) is None,
            },
    {
        let wanted = String::from_str(name);
        let mut i: usize = 0;
        proof {
            assert(self@.subrange(0, self@.len() as int) =~= self@);
        }
        while i < self.fields.len()
            invariant
                i <= self.fields@.len(),
                wanted@ == name@,
                lookup(self@, name@) == lookup(self@.subrange(i as int, self@.len() as int), name@),
            decreases self.fields@.len() - i,
        {
            let ghost rest = self@.subrange(i as int, self@.len() as int);
            proof {
                assert(rest[0] == self@[i as int]);
                assert(rest.drop_first() =~= self@.subrange(i as int + 1, self@.len() as int));
            }
            if self.fields[i].name == wanted {
                return Ok(&self.fields[i].value);
            }
            i = i + 1;
        }
        Err(TranscodeError::MissingField)
    }
}

} // verus!
