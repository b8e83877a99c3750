//! The schema that every output channel shares: a self-contained descriptor
//! set that declares the video message type and the timestamp type it
//! refers to.

use vstd::prelude::*;
use vstd::string::*;
use vstd::utf8::encode_utf8;
use crate::message::{optional_len_field, put_optional};
use crate::record::{protobuf_encoding, Schema, SchemaModel};
use crate::wire::{len_field, put_len_field, put_varint_field, varint_field};

verus! {

/// Name of the schema of the video messages.
pub open spec fn video_schema_name() -> Seq<char> {
    "foxglove.CompressedVideo"@
}

/// Descriptor code of a signed 64-bit field.
pub const CODE_INT64: u64 = 3;

/// Descriptor code of a signed 32-bit field.
pub const CODE_INT32: u64 = 5;

/// Descriptor code of a string field.
pub const CODE_STRING: u64 = 9;

/// Descriptor code of a field that holds a message.
pub const CODE_MESSAGE: u64 = 11;

/// Descriptor code of a byte-blob field.
pub const CODE_BYTES: u64 = 12;

/// Declaration of a singular field: its name, number, label, type code and, for
/// a message field, the full name of its type.
pub open spec fn field_decl(name: Seq<char>, number: nat, code: nat, of: Seq<char>) -> Seq<u8> {
    len_field(1, encode_utf8(name)) + varint_field(3, number) + varint_field(4, 1) + varint_field(
        5,
        code,
    ) + optional_len_field(6, encode_utf8(of))
}

/// A field declaration as it stands inside a message declaration.
pub open spec fn member(name: Seq<char>, number: nat, code: nat, of: Seq<char>) -> Seq<u8> {
    len_field(2, field_decl(name, number, code, of))
}

/// Declaration of the timestamp type: seconds and nanoseconds.
pub open spec fn timestamp_decl() -> Seq<u8> {
    len_field(1, encode_utf8("Timestamp"@)) + member("seconds"@, 1, 3, Seq::empty()) + member(
        "nanos"@,
        2,
        5,
        Seq::empty(),
    )
}

/// Declaration of the video message type: timestamp, frame identifier,
/// encoded chunk and codec tag.
pub open spec fn video_decl() -> Seq<u8> {
    len_field(1, encode_utf8("CompressedVideo"@)) + member(
        "timestamp"@,
        1,
        11,
        ".google.protobuf.Timestamp"@,
    ) + member("frame_id"@, 2, 9, Seq::empty()) + member("data"@, 3, 12, Seq::empty()) + member(
        "format"@,
        4,
        9,
        Seq::empty(),
    )
}

/// The file that declares the timestamp type.
pub open spec fn timestamp_file() -> Seq<u8> {
    len_field(1, encode_utf8("google/protobuf/timestamp.proto"@)) + len_field(
        2,
        encode_utf8("google.protobuf"@),
    ) + len_field(4, timestamp_decl()) + len_field(12, encode_utf8("proto3"@))
}

/// The file that declares the video message type.
pub open spec fn video_file() -> Seq<u8> {
    len_field(1, encode_utf8("foxglove/CompressedVideo.proto"@)) + len_field(
        2,
        encode_utf8("foxglove"@),
    ) + len_field(3, encode_utf8("google/protobuf/timestamp.proto"@)) + len_field(
        4,
        video_decl(),
    ) + len_field(12, encode_utf8("proto3"@))
}

/// The descriptor set of the output schema: the video file, then the file
/// it depends on.
pub open spec fn video_schema_data() -> Seq<u8> {
    len_field(1, video_file()) + len_field(1, timestamp_file())
}

/// Appends a string as a length-delimited field.
fn put_text(out: &mut Vec<u8>, number: u32, text: &str)
    ensures
        final(out)@ == old(out)@ + len_field(number as nat, encode_utf8(text@)),
{
    put_len_field(out, number, text.as_bytes());
}

/// Appends the declaration of a singular field to a message declaration.
fn put_member(out: &mut Vec<u8>, name: &str, number: u64, code: u64, of: &str)
    ensures
        final(out)@ == old(out)@ + member(name@, number as nat, code as nat, of@),
{
    let mut decl: Vec<u8> = Vec::new();
    put_text(&mut decl, 1, name);
    put_varint_field(&mut decl, 3, number);
    put_varint_field(&mut decl, 4, 1);
    put_varint_field(&mut decl, 5, code);
    put_optional(&mut decl, 6, of.as_bytes());
    proof {
        assert(decl@ =~= field_decl(name@, number as nat, code as nat, of@));
    }
    put_len_field(out, 2, decl.as_slice());
}

/// Serializes the file that declares the timestamp type.
fn encode_timestamp_file() -> (out: Vec<u8>)
    ensures
        out@ == timestamp_file(),
{
    let mut decl: Vec<u8> = Vec::new();
    put_text(&mut decl, 1, "Timestamp");
    put_member(&mut decl, "seconds", 1, CODE_INT64, "");
    put_member(&mut decl, "nanos", 2, CODE_INT32, "");
    proof {
        reveal_strlit("");
        assert(""@ =~= Seq::<char>::empty());
        assert(decl@ =~= timestamp_decl());
    }
    let mut out: Vec<u8> = Vec::new();
    put_text(&mut out, 1, "google/protobuf/timestamp.proto");
    put_text(&mut out, 2, "google.protobuf");
    put_len_field(&mut out, 4, decl.as_slice());
    put_text(&mut out, 12, "proto3");
    proof {
        assert(out@ =~= timestamp_file());
    }
    out
}

/// Serializes the file that declares the video message type.
fn encode_video_file() -> (out: Vec<u8>)
    ensures
        out@ == video_file(),
{
    let mut decl: Vec<u8> = Vec::new();
    put_text(&mut decl, 1, "CompressedVideo");
    put_member(&mut decl, "timestamp", 1, CODE_MESSAGE, ".google.protobuf.Timestamp");
    put_member(&mut decl, "frame_id", 2, CODE_STRING, "");
    put_member(&mut decl, "data", 3, CODE_BYTES, "");
    put_member(&mut decl, "format", 4, CODE_STRING, "");
    proof {
        reveal_strlit("");
        assert(""@ =~= Seq::<char>::empty());
        assert(decl@ =~= video_decl());
    }
    let mut out: Vec<u8> = Vec::new();
    put_text(&mut out, 1, "foxglove/CompressedVideo.proto");
    put_text(&mut out, 2, "foxglove");
    put_text(&mut out, 3, "google/protobuf/timestamp.proto");
    put_len_field(&mut out, 4, decl.as_slice());
    put_text(&mut out, 12, "proto3");
    proof {
        assert(out@ =~= video_file());
    }
    out
}

/// The output schema as a mathematical value.
pub open spec fn video_schema_model() -> SchemaModel {
    SchemaModel {
        name: video_schema_name(),
        encoding: protobuf_encoding(),
        data: video_schema_data(),
    }
}

/// The schema of the video messages, shared by every output channel.
pub fn video_schema() -> (schema: Schema)
    ensures
        schema@ == video_schema_model(),
{
    let video = encode_video_file();
    let stamp = encode_timestamp_file();
    let mut data: Vec<u8> = Vec::new();
    put_len_field(&mut data, 1, video.as_slice());
    put_len_field(&mut data, 1, stamp.as_slice());
    proof {
        assert(data@ =~= video_schema_data());
    }
    Schema {
        name: String::from_str("foxglove.CompressedVideo"),
        encoding: String::from_str("protobuf"),
        data,
    }
}

} // verus!
