//! The values that a payload gives to field numbers, read without a
//! message type.

use vstd::prelude::*;

verus! {

/// A value as it stands on the wire.
#[derive(Debug)]
pub enum Wire {
    Varint(u64),
    Fixed32(u32),
    Fixed64(u64),
    Blob(Vec<u8>),
}

/// A value on the wire as a mathematical value.
pub enum WireContent {
    Varint(u64),
    Fixed32(u32),
    Fixed64(u64),
    Blob(Seq<u8>),
}

impl View for Wire {
    type V = WireContent;

    open spec fn view(&self) -> WireContent {
        match self {
            Wire::Varint(v) => WireContent::Varint(*v),
            Wire::Fixed32(v) => WireContent::Fixed32(*v),
            Wire::Fixed64(v) => WireContent::Fixed64(*v),
            Wire::Blob(b) => WireContent::Blob(b@),
        }
    }
}

/// A value with the number of the field it is given to.
#[derive(Debug)]
pub struct WireValue {
    pub number: u32,
    pub value: Wire,
}

impl View for WireValue {
    type V = (u32, WireContent);

    open spec fn view(&self) -> (u32, WireContent) {
        (self.number, self.value@)
    }
}

/// Values as mathematical values.
pub open spec fn value_models(values: Seq<WireValue>) -> Seq<(u32, WireContent)> {
    values.map_values(|v: WireValue| v@)
}

/// The values of `values` that are given to field `number`, in order.
pub open spec fn of_number(values: Seq<(u32, WireContent)>, number: u32) -> Seq<WireContent>
    decreases values.len(),
{
    if values.len() == 0 {
        Seq::empty()
    } else {
        let before = of_number(values.drop_last(), number);
        if values.last().0 == number {
            before.push(values.last().1)
        } else {
            before
        }
    }
}

/// Whether the payload parses as a sequence of fields.
pub uninterp spec fn payload_parses(payload: Seq<u8>) -> bool;

/// The values that a payload gives to field `number`: first its 32-bit
/// values, then its 64-bit values, its varints and its length-delimited
/// values, each in the order of the payload.
pub uninterp spec fn payload_values(payload: Seq<u8>, number: u32) -> Seq<WireContent>;

/// Parses the payload as the empty message of the well-known types, which
/// keeps every field as an unknown field, and walks the unknown fields
/// (`UnknownFields::iter`). The walk takes the field numbers in no stated
/// order, and the values of one number as `payload_values` names them.
#[verifier::external_body]
fn read_values(payload: &[u8]) -> (r: Option<Vec<WireValue>>)
    ensures
        match r {
            Some(v) => payload_parses(payload@) && forall|n: u32|
                of_number(value_models(v@), n) == #[trigger] payload_values(payload@, n),
            None => !payload_parses(payload@),
        },
{
    let message = <protobuf::well_known_types::empty::Empty as protobuf::Message>::parse_from_bytes(
        payload,
    ).ok()?;
    Some(protobuf::Message::special_fields(&message).unknown_fields().iter().map(|(number, v)| WireValue {
        number,
        value: match v {
            protobuf::UnknownValueRef::Fixed32(x) => Wire::Fixed32(x),
            protobuf::UnknownValueRef::Fixed64(x) => Wire::Fixed64(x),
            protobuf::UnknownValueRef::Varint(x) => Wire::Varint(x),
            protobuf::UnknownValueRef::LengthDelimited(b) => Wire::Blob(b.to_vec()),
        },
    }).collect())
}

/// Reads the values of a payload, field by field.
pub fn wire_values(payload: &[u8]) -> (r: Option<Vec<WireValue>>)
    ensures
        match r {
            Some(v) => payload_parses(payload@) && forall|n: u32|
                of_number(value_models(v@), n) == #[trigger] payload_values(payload@, n),
            None => !payload_parses(payload@),
        },
{
    read_values(payload)
}

} // verus!
