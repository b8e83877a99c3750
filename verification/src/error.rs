//! The ways in which a run can fail. Every failure ends the run.

use vstd::prelude::*;
use vstd::string::*;

verus! {

#[derive(Clone, Copy, Debug, PartialEq, Eq, Structural)]
pub enum TranscodeError {
    /// The input log could not be read as a sequence of records.
    Container,
    /// The embedded schema is not a descriptor set, or the expected message
    /// type is absent from it.
    SchemaResolution,
    /// The payload does not parse against the resolved message type.
    MalformedPayload,
    /// A field that is read by name is not declared with the expected type.
    MissingField,
    /// The image bytes are in no recognized format or cannot be decoded.
    UnsupportedImageFormat,
    /// The frame has an odd width or height and cannot be chroma-subsampled.
    OddDimensions,
    /// A later frame of a topic differs in size from the topic's first frame.
    ResolutionChanged,
    /// The video encoder could not be constructed for a topic.
    EncoderInit,
    /// The video encoder rejected a frame.
    EncodeFailed,
    /// An output channel could not be registered.
    ChannelRegistration,
    /// The output container could not be opened, appended to or finished.
    Io,
}

/// The one-line description of an error.
pub open spec fn description(e: TranscodeError) -> Seq<char> {
    match e {
        TranscodeError::Container => "input log cannot be read"@,
        TranscodeError::SchemaResolution => "embedded schema does not describe the image type"@,
        TranscodeError::MalformedPayload => "payload does not match its schema"@,
        TranscodeError::MissingField => "image message lacks an expected field"@,
        TranscodeError::UnsupportedImageFormat => "image cannot be decoded"@,
        TranscodeError::OddDimensions => "image width and height must be even"@,
        TranscodeError::ResolutionChanged => "image size changed within a topic"@,
        TranscodeError::EncoderInit => "video encoder cannot be constructed"@,
        TranscodeError::EncodeFailed => "video encoder rejected a frame"@,
        TranscodeError::ChannelRegistration => "output channel cannot be registered"@,
        TranscodeError::Io => "output cannot be written"@,
    }
}

impl TranscodeError {
    /// A one-line description for the user.
    pub fn describe(&self) -> (text: String)
        ensures
            text@ == description(*self),
    {
        let text = match self {
            TranscodeError::Container => "input log cannot be read",
            TranscodeError::SchemaResolution => "embedded schema does not describe the image type",
            TranscodeError::MalformedPayload => "payload does not match its schema",
            TranscodeError::MissingField => "image message lacks an expected field",
            TranscodeError::UnsupportedImageFormat => "image cannot be decoded",
            TranscodeError::OddDimensions => "image width and height must be even",
            TranscodeError::ResolutionChanged => "image size changed within a topic",
            TranscodeError::EncoderInit => "video encoder cannot be constructed",
            TranscodeError::EncodeFailed => "video encoder rejected a frame",
            TranscodeError::ChannelRegistration => "output channel cannot be registered",
            TranscodeError::Io => "output cannot be written",
        };
        String::from_str(text)
    }
}

} // verus!
