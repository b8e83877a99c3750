use mcap_video::declarations::{declarations, full_name, locate, FieldDecl};
use mcap_video::payload::{wire_values, Wire, WireValue};
use mcap_video::descriptor::video_schema;
use mcap_video::error::TranscodeError;
use mcap_video::frame::{extract_frame, read_frame};
use mcap_video::message::{video_message, Timestamp, VideoMessage};
use mcap_video::planar::to_planar;
use mcap_video::raster::{decode, RasterImage};
use mcap_video::record::{video_topic, Record, Schema};
use mcap_video::schema::{read_field, read_timestamp, resolve, view, DynamicMessageView, Field, FieldValue};
use mcap_video::wire::{put_bytes, put_key, put_len_field, put_varint, put_varint_field, to_unsigned};
use protobuf::descriptor::field_descriptor_proto::{Label, Type};
use protobuf::descriptor::{DescriptorProto, FieldDescriptorProto, FileDescriptorProto, FileDescriptorSet};
use protobuf::reflect::FileDescriptor;
use protobuf::Message;

fn field(name: &str, number: i32, ty: Type, of: Option<&str>) -> FieldDescriptorProto {
    let mut f = FieldDescriptorProto::new();
    f.set_name(name.to_string());
    f.set_number(number);
    f.set_type(ty);
    f.set_label(Label::LABEL_OPTIONAL);
    if let Some(t) = of {
        f.set_type_name(t.to_string());
    }
    f
}

fn blob_with(message: &str, fields: Vec<FieldDescriptorProto>) -> Vec<u8> {
    let mut msg = DescriptorProto::new();
    msg.set_name(message.to_string());
    for f in fields {
        msg.field.push(f);
    }
    let mut file = FileDescriptorProto::new();
    file.set_name("foxglove/CompressedImage.proto".to_string());
    file.set_package("foxglove".to_string());
    file.dependency.push("google/protobuf/timestamp.proto".to_string());
    file.message_type.push(msg);
    file.set_syntax("proto3".to_string());
    let mut set = FileDescriptorSet::new();
    set.file.push(protobuf::well_known_types::timestamp::file_descriptor().proto().clone());
    set.file.push(file);
    set.write_to_bytes().unwrap()
}

fn image_fields() -> Vec<FieldDescriptorProto> {
    vec![
        field("timestamp", 1, Type::TYPE_MESSAGE, Some(".google.protobuf.Timestamp")),
        field("frame_id", 4, Type::TYPE_STRING, None),
        field("data", 2, Type::TYPE_BYTES, None),
        field("format", 3, Type::TYPE_STRING, None),
    ]
}

fn image_blob() -> Vec<u8> {
    blob_with("CompressedImage", image_fields())
}

fn png(width: u32, height: u32, color: [u8; 3]) -> Vec<u8> {
    let img = image::RgbImage::from_pixel(width, height, image::Rgb(color));
    let mut out = std::io::Cursor::new(Vec::new());
    image::DynamicImage::ImageRgb8(img).write_to(&mut out, image::ImageOutputFormat::Png).unwrap();
    out.into_inner()
}

fn payload(seconds: u64, nanos: u64, frame_id: &str, image: &[u8]) -> Vec<u8> {
    let mut stamp = Vec::new();
    put_varint_field(&mut stamp, 1, seconds);
    put_varint_field(&mut stamp, 2, nanos);
    let mut out = Vec::new();
    put_len_field(&mut out, 1, &stamp);
    put_len_field(&mut out, 2, image);
    put_len_field(&mut out, 3, b"png");
    put_len_field(&mut out, 4, frame_id.as_bytes());
    out
}

fn varint_of(n: u64) -> Vec<u8> {
    let mut out = Vec::new();
    put_varint(&mut out, n);
    out
}

#[test]
fn varints_are_little_endian_groups_of_seven_bits() {
    assert_eq!(varint_of(0), vec![0x00]);
    assert_eq!(varint_of(1), vec![0x01]);
    assert_eq!(varint_of(127), vec![0x7F]);
    assert_eq!(varint_of(128), vec![0x80, 0x01]);
    assert_eq!(varint_of(300), vec![0xAC, 0x02]);
    assert_eq!(varint_of(u64::MAX), vec![0xFF, 0xFF, 0xFF, 0xFF, 0xFF, 0xFF, 0xFF, 0xFF, 0xFF, 0x01]);
}

#[test]
fn varint_is_appended_to_what_is_there() {
    let mut out = vec![9, 9];
    put_varint(&mut out, 300);
    assert_eq!(out, vec![9, 9, 0xAC, 0x02]);
}

#[test]
fn signed_numbers_go_by_twos_complement() {
    assert_eq!(to_unsigned(0), 0);
    assert_eq!(to_unsigned(5), 5);
    assert_eq!(to_unsigned(i64::MAX), i64::MAX as u64);
    assert_eq!(to_unsigned(-1), u64::MAX);
    assert_eq!(to_unsigned(i64::MIN), 1u64 << 63);
}

#[test]
fn keys_and_fields_are_framed() {
    let mut out = Vec::new();
    put_key(&mut out, 1, 2);
    assert_eq!(out, vec![0x0A]);
    let mut out = Vec::new();
    put_key(&mut out, 16, 0);
    assert_eq!(out, vec![0x80, 0x01]);
    let mut out = Vec::new();
    put_varint_field(&mut out, 2, 150);
    assert_eq!(out, vec![0x10, 0x96, 0x01]);
    let mut out = Vec::new();
    put_len_field(&mut out, 2, b"abc");
    assert_eq!(out, vec![0x12, 0x03, b'a', b'b', b'c']);
    let mut out = Vec::new();
    put_len_field(&mut out, 3, b"");
    assert_eq!(out, vec![0x1A, 0x00]);
    let mut out = vec![1];
    put_bytes(&mut out, &[2, 3]);
    assert_eq!(out, vec![1, 2, 3]);
}

#[test]
fn timestamp_leaves_out_zero_fields() {
    assert_eq!(Timestamp { seconds: 0, nanos: 0 }.encode(), Vec::<u8>::new());
    assert_eq!(Timestamp { seconds: 1, nanos: 0 }.encode(), vec![0x08, 0x01]);
    assert_eq!(Timestamp { seconds: 0, nanos: 2 }.encode(), vec![0x10, 0x02]);
    assert_eq!(Timestamp { seconds: 1, nanos: 2 }.encode(), vec![0x08, 0x01, 0x10, 0x02]);
    assert_eq!(
        Timestamp { seconds: -1, nanos: 0 }.encode(),
        vec![0x08, 0xFF, 0xFF, 0xFF, 0xFF, 0xFF, 0xFF, 0xFF, 0xFF, 0xFF, 0x01]
    );
}

#[test]
fn video_message_has_exact_bytes() {
    let m = video_message(Timestamp { seconds: 1, nanos: 2 }, "a", vec![7]);
    assert_eq!(m.format, "h264");
    assert_eq!(m.frame_id, "a");
    assert_eq!(m.data, vec![7]);
    assert_eq!(
        m.encode(),
        vec![
            0x0A, 0x04, 0x08, 0x01, 0x10, 0x02, 0x12, 0x01, b'a', 0x1A, 0x01, 0x07, 0x22, 0x04, b'h', b'2',
            b'6', b'4'
        ]
    );
    let empty = VideoMessage {
        timestamp: Timestamp { seconds: 0, nanos: 0 },
        frame_id: String::new(),
        format: String::new(),
        data: Vec::new(),
    };
    assert_eq!(empty.encode(), vec![0x0A, 0x00]);
}

#[test]
fn video_message_parses_against_the_output_schema() {
    let schema = video_schema();
    assert_eq!(schema.name, "foxglove.CompressedVideo");
    assert_eq!(schema.encoding, "protobuf");
    let set = FileDescriptorSet::parse_from_bytes(&schema.data).unwrap();
    assert_eq!(set.file.len(), 2);
    let files = FileDescriptor::new_dynamic_fds(set.file, &[]).unwrap();
    let desc = files
        .iter()
        .flat_map(|f| f.messages())
        .find(|m| m.full_name() == "foxglove.CompressedVideo")
        .unwrap();
    let names: Vec<String> = desc.fields().map(|f| f.name().to_string()).collect();
    assert_eq!(names, vec!["timestamp", "frame_id", "data", "format"]);
    let bytes = video_message(Timestamp { seconds: -5, nanos: 999_999_999 }, "front camera", vec![0, 1, 2, 255]).encode();
    let parsed = desc.parse_from_bytes(&bytes).unwrap();
    let get = |n: &str| desc.field_by_name(n).unwrap().get_singular_field_or_default(&*parsed);
    assert_eq!(get("frame_id").to_str().unwrap(), "front camera");
    assert_eq!(get("format").to_str().unwrap(), "h264");
    assert_eq!(get("data").to_bytes().unwrap(), &[0u8, 1, 2, 255][..]);
    let stamp = get("timestamp").to_message().unwrap();
    let stamp_bytes = stamp.write_to_bytes_dyn().unwrap();
    let t = protobuf::well_known_types::timestamp::Timestamp::parse_from_bytes(&stamp_bytes).unwrap();
    assert_eq!(t.seconds, -5);
    assert_eq!(t.nanos, 999_999_999);
}

#[test]
fn topic_gets_the_video_suffix() {
    assert_eq!(video_topic("/cam0"), "/cam0_video");
    assert_eq!(video_topic(""), "_video");
}

#[test]
fn only_image_schemas_in_protobuf_encoding_are_selected() {
    let make = |name: &str, encoding: &str| Record {
        topic: "/t".to_string(),
        schema: Some(Schema { name: name.to_string(), encoding: encoding.to_string(), data: Vec::new() }),
        payload: Vec::new(),
        log_time: 0,
        publish_time: 0,
        sequence: 0,
    };
    assert!(make("foxglove.CompressedImage", "protobuf").is_image());
    assert!(!make("foxglove.CompressedImage", "jsonschema").is_image());
    assert!(!make("foxglove.CompressedVideo", "protobuf").is_image());
    let mut bare = make("foxglove.CompressedImage", "protobuf");
    bare.schema = None;
    assert!(!bare.is_image());
}

#[test]
fn resolve_finds_the_type_in_any_file_of_the_set() {
    assert!(resolve(&image_blob(), "foxglove.CompressedImage").is_ok());
    assert!(resolve(&image_blob(), "google.protobuf.Timestamp").is_ok());
}

#[test]
fn resolve_fails_where_the_type_is_absent() {
    let blob = blob_with("SomethingElse", image_fields());
    assert_eq!(resolve(&blob, "foxglove.CompressedImage").err(), Some(TranscodeError::SchemaResolution));
    assert_eq!(resolve(&[0xFF, 0xFF, 0xFF], "foxglove.CompressedImage").err(), Some(TranscodeError::SchemaResolution));
    assert_eq!(resolve(&[], "foxglove.CompressedImage").err(), Some(TranscodeError::SchemaResolution));
}

#[test]
fn view_gives_every_declared_field() {
    let factory = resolve(&image_blob(), "foxglove.CompressedImage").unwrap();
    let message = view(&factory, &payload(12, 34, "cam", &[1, 2, 3])).unwrap();
    assert_eq!(message.fields.len(), 4);
    match message.field("frame_id").unwrap() {
        FieldValue::Text(s) => assert_eq!(s, "cam"),
        other => panic!("unexpected {:?}", other),
    }
    match message.field("data").unwrap() {
        FieldValue::Bytes(b) => assert_eq!(b, &vec![1, 2, 3]),
        other => panic!("unexpected {:?}", other),
    }
    match message.field("timestamp").unwrap() {
        FieldValue::Message(b) => assert_eq!(read_timestamp(b), Some(Timestamp { seconds: 12, nanos: 34 })),
        other => panic!("unexpected {:?}", other),
    }
    assert_eq!(message.field("nothing").err(), Some(TranscodeError::MissingField));
}

#[test]
fn a_field_left_out_has_its_default() {
    let factory = resolve(&image_blob(), "foxglove.CompressedImage").unwrap();
    let message = view(&factory, &[]).unwrap();
    match message.field("frame_id").unwrap() {
        FieldValue::Text(s) => assert_eq!(s, ""),
        other => panic!("unexpected {:?}", other),
    }
    let frame = extract_frame(&message).unwrap();
    assert_eq!(frame.timestamp, Timestamp { seconds: 0, nanos: 0 });
    assert_eq!(frame.frame_id, "");
    assert!(frame.data.is_empty());
}

#[test]
fn a_payload_that_does_not_parse_is_malformed() {
    let factory = resolve(&image_blob(), "foxglove.CompressedImage").unwrap();
    assert_eq!(view(&factory, &[0x0A, 0x7F, 0x01]).err(), Some(TranscodeError::MalformedPayload));
    assert_eq!(
        read_frame(&image_blob(), &[0x0A, 0x7F, 0x01]).err(),
        Some(TranscodeError::MalformedPayload)
    );
}

#[test]
fn timestamps_are_read_from_their_serialized_form() {
    assert_eq!(read_timestamp(&[]), Some(Timestamp { seconds: 0, nanos: 0 }));
    assert_eq!(read_timestamp(&[0x08, 0x96, 0x01, 0x10, 0x07]), Some(Timestamp { seconds: 150, nanos: 7 }));
    assert_eq!(read_timestamp(&[0x08]), None);
}

#[test]
fn frame_is_read_by_field_names() {
    let frame = read_frame(&image_blob(), &payload(1700000000, 5, "left", &[9, 8, 7])).unwrap();
    assert_eq!(frame.timestamp, Timestamp { seconds: 1700000000, nanos: 5 });
    assert_eq!(frame.frame_id, "left");
    assert_eq!(frame.data, vec![9, 8, 7]);
}

#[test]
fn frame_needs_the_three_fields_with_their_kinds() {
    let no_data = blob_with(
        "CompressedImage",
        vec![
            field("timestamp", 1, Type::TYPE_MESSAGE, Some(".google.protobuf.Timestamp")),
            field("frame_id", 4, Type::TYPE_STRING, None),
        ],
    );
    assert_eq!(read_frame(&no_data, &[]).err(), Some(TranscodeError::MissingField));
    let text_data = blob_with(
        "CompressedImage",
        vec![
            field("timestamp", 1, Type::TYPE_MESSAGE, Some(".google.protobuf.Timestamp")),
            field("frame_id", 4, Type::TYPE_STRING, None),
            field("data", 2, Type::TYPE_STRING, None),
        ],
    );
    assert_eq!(read_frame(&text_data, &[]).err(), Some(TranscodeError::MissingField));
    let absent = blob_with("Other", image_fields());
    assert_eq!(read_frame(&absent, &[]).err(), Some(TranscodeError::SchemaResolution));
}

#[test]
fn frame_of_hand_made_fields() {
    let message = DynamicMessageView {
        fields: vec![
            Field { name: "data".to_string(), value: FieldValue::Bytes(vec![1]) },
            Field { name: "frame_id".to_string(), value: FieldValue::Text("x".to_string()) },
            Field { name: "timestamp".to_string(), value: FieldValue::Message(vec![0x08, 0x02]) },
            Field { name: "data".to_string(), value: FieldValue::Bytes(vec![2]) },
        ],
    };
    let frame = extract_frame(&message).unwrap();
    assert_eq!(frame.data, vec![1]);
    assert_eq!(frame.frame_id, "x");
    assert_eq!(frame.timestamp, Timestamp { seconds: 2, nanos: 0 });
    let broken = DynamicMessageView {
        fields: vec![
            Field { name: "data".to_string(), value: FieldValue::Bytes(vec![1]) },
            Field { name: "frame_id".to_string(), value: FieldValue::Text("x".to_string()) },
            Field { name: "timestamp".to_string(), value: FieldValue::Message(vec![0x08]) },
        ],
    };
    assert_eq!(extract_frame(&broken).err(), Some(TranscodeError::MalformedPayload));
    let other = DynamicMessageView {
        fields: vec![
            Field { name: "data".to_string(), value: FieldValue::Other },
            Field { name: "frame_id".to_string(), value: FieldValue::Text("x".to_string()) },
            Field { name: "timestamp".to_string(), value: FieldValue::Message(vec![]) },
        ],
    };
    assert_eq!(extract_frame(&other).err(), Some(TranscodeError::MissingField));
}

#[test]
fn images_decode_to_rgb_rasters() {
    let raster = decode(&png(4, 2, [10, 20, 30])).unwrap();
    assert_eq!(raster.width, 4);
    assert_eq!(raster.height, 2);
    assert_eq!(raster.pixels.len(), 24);
    assert_eq!(&raster.pixels[0..6], &[10, 20, 30, 10, 20, 30]);
    let gray = image::GrayImage::from_pixel(2, 2, image::Luma([77]));
    let mut out = std::io::Cursor::new(Vec::new());
    image::DynamicImage::ImageLuma8(gray).write_to(&mut out, image::ImageOutputFormat::Png).unwrap();
    let raster = decode(&out.into_inner()).unwrap();
    assert_eq!(raster.pixels, vec![77; 12]);
}

#[test]
fn bytes_that_are_no_image_are_refused() {
    assert_eq!(decode(&[1, 2, 3, 4]).err(), Some(TranscodeError::UnsupportedImageFormat));
    assert_eq!(decode(&[]).err(), Some(TranscodeError::UnsupportedImageFormat));
    let mut cut = png(4, 4, [1, 2, 3]);
    cut.truncate(20);
    assert_eq!(decode(&cut).err(), Some(TranscodeError::UnsupportedImageFormat));
}

#[test]
fn raster_needs_three_bytes_per_pixel() {
    assert!(RasterImage::new(2, 2, vec![0; 12]).is_some());
    assert!(RasterImage::new(2, 2, vec![0; 11]).is_none());
    assert!(RasterImage::new(0, 5, Vec::new()).is_some());
    assert!(RasterImage::new(u32::MAX, u32::MAX, vec![0; 3]).is_none());
}

#[test]
fn odd_sizes_cannot_be_subsampled() {
    let odd = RasterImage::new(3, 2, vec![0; 18]).unwrap();
    assert_eq!(to_planar(&odd).err(), Some(TranscodeError::OddDimensions));
    let odd = RasterImage::new(2, 3, vec![0; 18]).unwrap();
    assert_eq!(to_planar(&odd).err(), Some(TranscodeError::OddDimensions));
    let even = RasterImage::new(4, 2, vec![128; 24]).unwrap();
    let planar = to_planar(&even).unwrap();
    assert_eq!(planar.width(), 4);
    assert_eq!(planar.height(), 2);
}

#[test]
fn every_error_has_a_description() {
    let all = [
        TranscodeError::Container,
        TranscodeError::SchemaResolution,
        TranscodeError::MalformedPayload,
        TranscodeError::MissingField,
        TranscodeError::UnsupportedImageFormat,
        TranscodeError::OddDimensions,
        TranscodeError::ResolutionChanged,
        TranscodeError::EncoderInit,
        TranscodeError::EncodeFailed,
        TranscodeError::ChannelRegistration,
        TranscodeError::Io,
    ];
    for (i, a) in all.iter().enumerate() {
        assert!(!a.describe().is_empty());
        for b in &all[i + 1..] {
            assert_ne!(a.describe(), b.describe());
        }
    }
}

#[test]
fn declarations_are_read_in_the_order_of_the_set() {
    let files = declarations(&image_blob()).unwrap();
    assert_eq!(files.len(), 2);
    assert_eq!(files[0].package, "google.protobuf");
    assert_eq!(files[0].messages.len(), 1);
    assert_eq!(files[0].messages[0].name, "Timestamp");
    assert_eq!(files[1].package, "foxglove");
    assert_eq!(files[1].messages[0].name, "CompressedImage");
    let fields = &files[1].messages[0].fields;
    let names: Vec<&str> = fields.iter().map(|f| f.name.as_str()).collect();
    assert_eq!(names, vec!["timestamp", "frame_id", "data", "format"]);
    assert_eq!(fields.iter().map(|f| f.number).collect::<Vec<i32>>(), vec![1, 4, 2, 3]);
    assert_eq!(fields.iter().map(|f| f.code).collect::<Vec<i32>>(), vec![11, 9, 12, 9]);
    assert!(fields.iter().all(|f| f.label == 1 && f.default.is_none()));
    assert!(declarations(&[0xFF, 0xFF]).is_none());
    assert_eq!(declarations(&[]).unwrap().len(), 0);
    let own = declarations(&video_schema().data).unwrap();
    assert_eq!(own[0].package, "foxglove");
    assert_eq!(own[0].messages[0].name, "CompressedVideo");
    assert_eq!(own[0].messages[0].fields.len(), 4);
    assert_eq!(own[1].messages[0].fields.len(), 2);
}

#[test]
fn full_names_join_package_and_name() {
    assert_eq!(full_name("foxglove", "CompressedImage"), "foxglove.CompressedImage");
    assert_eq!(full_name("a.b", "C"), "a.b.C");
    assert_eq!(full_name("", "Bare"), "Bare");
}

#[test]
fn the_first_type_of_a_name_is_located() {
    let files = declarations(&image_blob()).unwrap();
    let found = locate(files, "foxglove.CompressedImage").unwrap();
    assert_eq!(found.name, "CompressedImage");
    assert_eq!(found.fields.len(), 4);
    assert!(locate(declarations(&image_blob()).unwrap(), "CompressedImage").is_none());
    assert!(locate(declarations(&image_blob()).unwrap(), "foxglove.Timestamp").is_none());
    assert!(locate(Vec::new(), "foxglove.CompressedImage").is_none());
}

fn rich_blob(mode_type: &str) -> Vec<u8> {
    let mut mode = protobuf::descriptor::EnumDescriptorProto::new();
    mode.set_name("Mode".to_string());
    let mut value = protobuf::descriptor::EnumValueDescriptorProto::new();
    value.set_name("PLAIN".to_string());
    value.set_number(0);
    mode.value.push(value);
    let mut inner = DescriptorProto::new();
    inner.set_name("Region".to_string());
    inner.field.push(field("left", 1, Type::TYPE_INT32, None));
    let mut msg = DescriptorProto::new();
    msg.set_name("CompressedImage".to_string());
    for f in image_fields() {
        msg.field.push(f);
    }
    msg.field.push(field("mode", 9, Type::TYPE_ENUM, Some(mode_type)));
    msg.field.push(field("region", 10, Type::TYPE_MESSAGE, Some(".foxglove.CompressedImage.Region")));
    let mut note = field("note", 11, Type::TYPE_STRING, None);
    note.set_default_value("none".to_string());
    msg.field.push(note);
    let mut tags = field("tags", 12, Type::TYPE_STRING, None);
    tags.set_label(Label::LABEL_REPEATED);
    msg.field.push(tags);
    msg.nested_type.push(inner);
    let mut file = FileDescriptorProto::new();
    file.set_name("foxglove/CompressedImage.proto".to_string());
    file.set_package("foxglove".to_string());
    file.dependency.push("google/protobuf/timestamp.proto".to_string());
    file.message_type.push(msg);
    file.enum_type.push(mode);
    let mut set = FileDescriptorSet::new();
    set.file.push(protobuf::well_known_types::timestamp::file_descriptor().proto().clone());
    set.file.push(file);
    set.write_to_bytes().unwrap()
}

#[test]
fn a_set_with_enumerations_and_nested_types_resolves() {
    for mode in [".foxglove.Mode", ".foxglove.Nowhere", "Mode"] {
        let blob = rich_blob(mode);
        let factory = resolve(&blob, "foxglove.CompressedImage").unwrap();
        assert_eq!(factory.message.fields.len(), 8);
        let mut bytes = payload(3, 4, "cam", &[5, 6]);
        put_varint_field(&mut bytes, 9, 0);
        put_len_field(&mut bytes, 10, &[0x08, 0x01]);
        put_len_field(&mut bytes, 12, b"a");
        put_len_field(&mut bytes, 12, b"b");
        let frame = read_frame(&blob, &bytes).unwrap();
        assert_eq!(frame.timestamp, Timestamp { seconds: 3, nanos: 4 });
        assert_eq!(frame.frame_id, "cam");
        assert_eq!(frame.data, vec![5, 6]);
        let message = view(&factory, &bytes).unwrap();
        assert!(matches!(message.field("mode").unwrap(), FieldValue::Other));
        assert!(matches!(message.field("tags").unwrap(), FieldValue::Other));
        match message.field("region").unwrap() {
            FieldValue::Message(b) => assert_eq!(b, &vec![0x08, 0x01]),
            other => panic!("unexpected {:?}", other),
        }
        match message.field("note").unwrap() {
            FieldValue::Text(s) => assert_eq!(s, "none"),
            other => panic!("unexpected {:?}", other),
        }
    }
}

#[test]
fn a_field_with_an_undeclared_group_of_alternatives_is_read() {
    let mut fields = image_fields();
    fields[1].set_oneof_index(3);
    let blob = blob_with("CompressedImage", fields);
    let frame = read_frame(&blob, &payload(1, 2, "cam", &[7])).unwrap();
    assert_eq!(frame.frame_id, "cam");
}

#[test]
fn values_that_do_not_fit_their_field_are_malformed() {
    let factory = resolve(&image_blob(), "foxglove.CompressedImage").unwrap();
    let mut as_number = Vec::new();
    put_varint_field(&mut as_number, 4, 7);
    assert_eq!(view(&factory, &as_number).err(), Some(TranscodeError::MalformedPayload));
    let mut not_text = Vec::new();
    put_len_field(&mut not_text, 4, &[0xFF, 0xFE]);
    assert_eq!(view(&factory, &not_text).err(), Some(TranscodeError::MalformedPayload));
    assert_eq!(read_frame(&image_blob(), &not_text).err(), Some(TranscodeError::MalformedPayload));
    let mut undeclared = Vec::new();
    put_varint_field(&mut undeclared, 99, 7);
    assert!(view(&factory, &undeclared).is_ok());
}

#[test]
fn the_last_value_counts_and_messages_merge() {
    let mut first = Vec::new();
    put_varint_field(&mut first, 1, 11);
    let mut second = Vec::new();
    put_varint_field(&mut second, 2, 22);
    let mut bytes = Vec::new();
    put_len_field(&mut bytes, 1, &first);
    put_len_field(&mut bytes, 4, b"old");
    put_len_field(&mut bytes, 2, &[1]);
    put_len_field(&mut bytes, 1, &second);
    put_len_field(&mut bytes, 4, b"new");
    put_len_field(&mut bytes, 2, &[2, 3]);
    let frame = read_frame(&image_blob(), &bytes).unwrap();
    assert_eq!(frame.timestamp, Timestamp { seconds: 11, nanos: 22 });
    assert_eq!(frame.frame_id, "new");
    assert_eq!(frame.data, vec![2, 3]);
}

#[test]
fn payload_values_are_read_by_field_number() {
    let mut bytes = Vec::new();
    put_varint_field(&mut bytes, 3, 300);
    put_len_field(&mut bytes, 5, b"xy");
    put_varint_field(&mut bytes, 3, 1);
    let values = wire_values(&bytes).unwrap();
    assert_eq!(values.len(), 3);
    let of = |n: u32| -> Vec<String> { values.iter().filter(|v| v.number == n).map(|v| format!("{:?}", v.value)).collect() };
    assert_eq!(of(3), vec!["Varint(300)", "Varint(1)"]);
    assert_eq!(of(5), vec!["Blob([120, 121])"]);
    assert!(wire_values(&[0x0A, 0x05, 0x01]).is_none());
    assert_eq!(wire_values(&[]).unwrap().len(), 0);
}

#[test]
fn one_field_is_read_from_the_values_given_to_it() {
    let make = |code: i32, label: i32, default: Option<&str>| FieldDecl {
        name: "f".to_string(),
        number: 2,
        label,
        code,
        default: default.map(|d| d.to_string()),
    };
    let values = vec![
        WireValue { number: 2, value: Wire::Blob(b"ab".to_vec()) },
        WireValue { number: 7, value: Wire::Varint(1) },
        WireValue { number: 2, value: Wire::Blob(b"cd".to_vec()) },
    ];
    assert!(matches!(read_field(&values, &make(9, 1, None)), Some(FieldValue::Text(s)) if s == "cd"));
    assert!(matches!(read_field(&values, &make(12, 1, None)), Some(FieldValue::Bytes(b)) if b == b"cd"));
    assert!(matches!(read_field(&values, &make(11, 1, None)), Some(FieldValue::Message(b)) if b == b"abcd"));
    assert!(matches!(read_field(&values, &make(9, 3, None)), Some(FieldValue::Other)));
    assert!(matches!(read_field(&values, &make(5, 3, None)), Some(FieldValue::Other)));
    assert!(read_field(&values, &make(5, 1, None)).is_none());
    assert!(read_field(&values, &make(7, 1, None)).is_none());
    assert!(read_field(&values, &make(1, 1, None)).is_none());
    let none: Vec<WireValue> = Vec::new();
    assert!(matches!(read_field(&none, &make(9, 1, Some("dflt"))), Some(FieldValue::Text(s)) if s == "dflt"));
    assert!(matches!(read_field(&none, &make(9, 1, None)), Some(FieldValue::Text(s)) if s.is_empty()));
    assert!(matches!(read_field(&none, &make(12, 1, None)), Some(FieldValue::Bytes(b)) if b.is_empty()));
    assert!(matches!(read_field(&none, &make(12, 1, Some("x"))), Some(FieldValue::Other)));
    assert!(matches!(read_field(&none, &make(11, 1, None)), Some(FieldValue::Message(b)) if b.is_empty()));
    let mut unnumbered = make(9, 1, None);
    unnumbered.number = 0;
    assert!(matches!(read_field(&values, &unnumbered), Some(FieldValue::Text(s)) if s.is_empty()));
}

#[test]
fn reading_agrees_with_reflection_on_a_linked_set() {
    let blob = image_blob();
    let mut stamp = Vec::new();
    put_varint_field(&mut stamp, 1, to_unsigned(-7));
    put_varint_field(&mut stamp, 2, 123456789);
    let mut bytes = Vec::new();
    put_len_field(&mut bytes, 4, "caméra".as_bytes());
    put_len_field(&mut bytes, 1, &stamp);
    put_len_field(&mut bytes, 2, &[0, 255, 1]);
    let set = FileDescriptorSet::parse_from_bytes(&blob).unwrap();
    let files = FileDescriptor::new_dynamic_fds(set.file, &[]).unwrap();
    let desc = files
        .iter()
        .flat_map(|f| f.messages())
        .find(|m| m.full_name() == "foxglove.CompressedImage")
        .unwrap();
    let parsed = desc.parse_from_bytes(&bytes).unwrap();
    let get = |n: &str| desc.field_by_name(n).unwrap().get_singular_field_or_default(&*parsed);
    let frame = read_frame(&blob, &bytes).unwrap();
    assert_eq!(frame.frame_id, get("frame_id").to_str().unwrap());
    assert_eq!(&frame.data[..], get("data").to_bytes().unwrap());
    let inner = get("timestamp").to_message().unwrap().write_to_bytes_dyn().unwrap();
    let t = protobuf::well_known_types::timestamp::Timestamp::parse_from_bytes(&inner).unwrap();
    assert_eq!(frame.timestamp, Timestamp { seconds: t.seconds, nanos: t.nanos });
    assert_eq!(frame.timestamp, Timestamp { seconds: -7, nanos: 123456789 });
    let message = view(&resolve(&blob, "foxglove.CompressedImage").unwrap(), &bytes).unwrap();
    let names: Vec<String> = desc.fields().map(|f| f.name().to_string()).collect();
    assert_eq!(message.fields.iter().map(|f| f.name.clone()).collect::<Vec<String>>(), names);
    match message.field("format").unwrap() {
        FieldValue::Text(s) => assert_eq!(s, get("format").to_str().unwrap()),
        other => panic!("unexpected {:?}", other),
    }
}
