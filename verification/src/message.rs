//! The video message that is published for every encoded chunk, and its
//! serialized form.

use vstd::prelude::*;
use vstd::string::*;
use vstd::utf8::encode_utf8;
use crate::wire::{len_field, put_len_field, put_varint_field, to_unsigned, unsigned_of, varint_field};

verus! {

/// Tag that names the codec of every published chunk.
pub open spec fn codec_tag() -> Seq<char> {
    "h264"@
}

/// A point in time as whole seconds and nanoseconds.
#[derive(Clone, Copy, Debug, PartialEq, Eq, Structural)]
pub struct Timestamp {
    pub seconds: i64,
    pub nanos: i32,
}

/// One encoded access unit with the identity of the frame it was made from.
#[derive(Debug)]
pub struct VideoMessage {
    pub timestamp: Timestamp,
    pub frame_id: String,
    pub format: String,
    pub data: Vec<u8>,
}

/// A length-delimited field that is left out when its body is empty.
pub open spec fn optional_len_field(number: nat, body: Seq<u8>) -> Seq<u8> {
    if body.len() == 0 {
        Seq::empty()
    } else {
        len_field(number, body)
    }
}

/// A signed scalar field that is left out when it is zero.
pub open spec fn optional_int_field(number: nat, value: int) -> Seq<u8> {
    if value == 0 {
        Seq::empty()
    } else {
        varint_field(number, unsigned_of(value))
    }
}

impl Timestamp {
    /// Serialized form: seconds as field 1, nanoseconds as field 2.
    pub open spec fn wire(&self) -> Seq<u8> {
        optional_int_field(1, self.seconds as int) + optional_int_field(2, self.nanos as int)
    }

    pub fn encode(&self) -> (out: Vec<u8>)
        ensures
            out@ == self.wire(),
    {
        let mut out: Vec<u8> = Vec::new();
        if self.seconds != 0 {
            put_varint_field(&mut out, 1, to_unsigned(self.seconds));
        }
        if self.nanos != 0 {
            put_varint_field(&mut out, 2, to_unsigned(self.nanos as i64));
        }
        proof {
            assert(out@ =~= self.wire());
        }
        out
    }
}

/// Serialized form of a video message: the timestamp as field 1, then the
/// frame identifier, the chunk and the codec tag as fields 2 to 4, each left
/// out when empty.
pub open spec fn video_wire(
    timestamp: Timestamp,
    frame_id: Seq<char>,
    format: Seq<char>,
    data: Seq<u8>,
) -> Seq<u8> {
    len_field(1, timestamp.wire()) + optional_len_field(2, encode_utf8(frame_id))
        + optional_len_field(3, data) + optional_len_field(4, encode_utf8(format))
}

impl VideoMessage {
    /// Serialized form of this message.
    pub open spec fn wire(&self) -> Seq<u8> {
        video_wire(self.timestamp, self.frame_id@, self.format@, self.data@)
    }

    pub fn encode(&self) -> (out: Vec<u8>)
        ensures
            out@ == self.wire(),
    {
        let mut out: Vec<u8> = Vec::new();
        let stamp = self.timestamp.encode();
        put_len_field(&mut out, 1, stamp.as_slice());
        put_optional(&mut out, 2, self.frame_id.as_str().as_bytes());
        put_optional(&mut out, 3, self.data.as_slice());
        put_optional(&mut out, 4, self.format.as_str().as_bytes());
        proof {
            assert(out@ =~= self.wire());
        }
        out
    }
}

/// Appends a length-delimited field unless its body is empty.
pub fn put_optional(out: &mut Vec<u8>, number: u32, body: &[u8])
    ensures
        final(out)@ == old(out)@ + optional_len_field(number as nat, body@),
{
    if body.len() > 0 {
        put_len_field(out, number, body);
    } else {
        proof {
            assert(old(out)@ + Seq::<u8>::empty() =~= old(out)@);
        }
    }
}

/// Builds the message published for `chunk`, carrying the frame's timestamp
/// and identifier and the fixed codec tag.
pub fn video_message(timestamp: Timestamp, frame_id: &str, chunk: Vec<u8>) -> (m: VideoMessage)
    ensures
        m.timestamp == timestamp,
        m.frame_id@ == frame_id@,
        m.format@ == codec_tag(),
        m.data@ == chunk@,
{
    VideoMessage {
        timestamp,
        frame_id: String::from_str(frame_id),
        format: String::from_str("h264"),
        data: chunk,
    }
}

} // verus!
