//! The still-image frame that a record carries: its timestamp, its frame
//! identifier and its compressed image.

use vstd::prelude::*;
use vstd::string::*;
use crate::error::TranscodeError;
use crate::message::Timestamp;
use crate::record::image_schema_name;
use crate::schema::{
    located, lookup, read_timestamp, resolve, timestamp_of, view, viewed, DynamicMessageView,
    FieldContent, FieldValue,
};

verus! {

/// A frame as a mathematical value.
pub struct FrameModel {
    pub timestamp: Timestamp,
    pub frame_id: Seq<char>,
    pub data: Seq<u8>,
}

/// The frame of one payload.
#[derive(Debug)]
pub struct Frame {
    pub timestamp: Timestamp,
    pub frame_id: String,
    pub data: Vec<u8>,
}

impl View for Frame {
    type V = FrameModel;

    open spec fn view(&self) -> FrameModel {
        FrameModel { timestamp: self.timestamp, frame_id: self.frame_id@, data: self.data@ }
    }
}

/// The frame that a message with these fields carries. The three fields
/// `timestamp` (a message), `frame_id` (a string) and `data` (a byte blob)
/// must be declared as such, and the timestamp must parse.
pub open spec fn frame_of(fields: Seq<(Seq<char>, FieldContent)>) -> Result<
    FrameModel,
    TranscodeError,
> {
    match (lookup(fields, "timestamp"@), lookup(fields, "frame_id"@), lookup(fields, "data"@)) {
        (
            Some(FieldContent::Message(stamp)),
            Some(FieldContent::Text(id)),
            Some(FieldContent::Bytes(data)),
        ) => {
            match timestamp_of(stamp) {
                Some((seconds, nanos)) => Ok(
                    FrameModel { timestamp: Timestamp { seconds, nanos }, frame_id: id, data },
                ),
                None => Err(TranscodeError::MalformedPayload),
            }
        },
        _ => Err(TranscodeError::MissingField),
    }
}

/// The frame that `payload` carries under the descriptor set `blob`.
pub open spec fn frame_in(blob: Seq<u8>, payload: Seq<u8>) -> Result<FrameModel, TranscodeError> {
    match located(blob, image_schema_name()) {
        None => Err(TranscodeError::SchemaResolution),
        Some(message) => match viewed(message.fields, payload) {
            Some(fields) => frame_of(fields),
            None => Err(TranscodeError::MalformedPayload),
        },
    }
}

/// Whether `r` is the executable form of the outcome `model`.
pub open spec fn frame_matches(
    r: Result<Frame, TranscodeError>,
    model: Result<FrameModel, TranscodeError>,
) -> bool {
    match (r, model) {
        (Ok(f), Ok(m)) => f@ == m,
        (Err(e), Err(m)) => e == m,
        _ => false,
    }
}

/// Reads the three fields of a frame by name.
pub fn extract_frame(message: &DynamicMessageView) -> (r: Result<Frame, TranscodeError>)
    ensures
        frame_matches(r, frame_of(message@)),
{
    let stamp = match message.field("timestamp") {
        Ok(v) => v,
        Err(e) => {
            return Err(e);
        },
    };
    let id = match message.field("frame_id") {
        Ok(v) => v,
        Err(e) => {
            return Err(e);
        },
    };
    let data = match message.field("data") {
        Ok(v) => v,
        Err(e) => {
            return Err(e);
        },
    };
    match (stamp, id, data) {
        (FieldValue::Message(stamp), FieldValue::Text(id), FieldValue::Bytes(data)) => {
            match read_timestamp(stamp.as_slice()) {
                Some(timestamp) => Ok(
                    Frame { timestamp, frame_id: id.clone(), data: data.clone() },
                ),
                None => Err(TranscodeError::MalformedPayload),
            }
        },
        _ => Err(TranscodeError::MissingField),
    }
}

/// Resolves the image type in the record's embedded schema and reads the
/// frame from the payload.
pub fn read_frame(blob: &[u8], payload: &[u8]) -> (r: Result<Frame, TranscodeError>)
    ensures
        frame_matches(r, frame_in(blob@, payload@)),
{
    let factory = match resolve(blob, "foxglove.CompressedImage") {
        Ok(f) => f,
        Err(e) => {
            return Err(e);
        },
    };
    let message = match view(&factory, payload) {
        Ok(m) => m,
        Err(e) => {
            return Err(e);
        },
    };
    extract_frame(&message)
}

} // verus!
