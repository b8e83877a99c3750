use mcap_video::error::TranscodeError;
use mcap_video::pipeline::{Step, Transcoder};
use mcap_video::record::{Record, Schema};
use mcap_video::run::transcode;
use mcap_video::wire::put_len_field;
use mcap_video::wire::put_varint_field;
use protobuf::descriptor::field_descriptor_proto::{Label, Type};
use protobuf::descriptor::{DescriptorProto, FieldDescriptorProto, FileDescriptorProto, FileDescriptorSet};
use protobuf::Message;

fn field(name: &str, number: i32, ty: Type, of: Option<&str>) -> FieldDescriptorProto {
    let mut f = FieldDescriptorProto::new();
    f.set_name(name.to_string());
    f.set_number(number);
    f.set_type(ty);
    f.set_label(Label::LABEL_OPTIONAL);
    if let Some(t) = of {
        f.set_type_name(t.to_string());
    }
    f
}

fn schema_blob(message: &str) -> Vec<u8> {
    let mut msg = DescriptorProto::new();
    msg.set_name(message.to_string());
    msg.field.push(field("timestamp", 1, Type::TYPE_MESSAGE, Some(".google.protobuf.Timestamp")));
    msg.field.push(field("frame_id", 4, Type::TYPE_STRING, None));
    msg.field.push(field("data", 2, Type::TYPE_BYTES, None));
    msg.field.push(field("format", 3, Type::TYPE_STRING, None));
    let mut file = FileDescriptorProto::new();
    file.set_name("foxglove/CompressedImage.proto".to_string());
    file.set_package("foxglove".to_string());
    file.dependency.push("google/protobuf/timestamp.proto".to_string());
    file.message_type.push(msg);
    file.set_syntax("proto3".to_string());
    let mut set = FileDescriptorSet::new();
    set.file.push(file);
    set.file.push(protobuf::well_known_types::timestamp::file_descriptor().proto().clone());
    set.write_to_bytes().unwrap()
}

fn png(width: u32, height: u32, color: [u8; 3]) -> Vec<u8> {
    let img = image::RgbImage::from_pixel(width, height, image::Rgb(color));
    let mut out = std::io::Cursor::new(Vec::new());
    image::DynamicImage::ImageRgb8(img).write_to(&mut out, image::ImageOutputFormat::Png).unwrap();
    out.into_inner()
}

fn payload(seconds: u64, nanos: u64, frame_id: &str, image: &[u8]) -> Vec<u8> {
    let mut stamp = Vec::new();
    put_varint_field(&mut stamp, 1, seconds);
    put_varint_field(&mut stamp, 2, nanos);
    let mut out = Vec::new();
    put_len_field(&mut out, 1, &stamp);
    put_len_field(&mut out, 2, image);
    put_len_field(&mut out, 3, b"png");
    put_len_field(&mut out, 4, frame_id.as_bytes());
    out
}

fn image_record(topic: &str, sequence: u32, width: u32, height: u32) -> Record {
    Record {
        topic: topic.to_string(),
        schema: Some(Schema {
            name: "foxglove.CompressedImage".to_string(),
            encoding: "protobuf".to_string(),
            data: schema_blob("CompressedImage"),
        }),
        payload: payload(100 + sequence as u64, 7, "camera", &png(width, height, [200, 30, 30])),
        log_time: 1000 + sequence as u64,
        publish_time: 2000 + sequence as u64,
        sequence,
    }
}

fn other_record(topic: &str, sequence: u32) -> Record {
    Record {
        topic: topic.to_string(),
        schema: Some(Schema {
            name: "foxglove.PointCloud".to_string(),
            encoding: "protobuf".to_string(),
            data: vec![1, 2, 3],
        }),
        payload: vec![9, 9, 9],
        log_time: 5,
        publish_time: 6,
        sequence,
    }
}

#[test]
fn one_topic_three_frames_and_a_foreign_topic() {
    let records = vec![
        image_record("/cam0", 0, 64, 48),
        other_record("/cam1", 0),
        image_record("/cam0", 1, 64, 48),
        other_record("/cam1", 1),
        image_record("/cam0", 2, 64, 48),
    ];
    let out = transcode(&records).unwrap();
    assert_eq!(out.channels.len(), 1);
    assert_eq!(out.channels[0].topic, "/cam0_video");
    assert!(out.messages.len() >= 1 && out.messages.len() <= 3);
    let mut last = None;
    for m in &out.messages {
        assert_eq!(m.channel, 0);
        assert_eq!(m.log_time, 1000 + m.sequence as u64);
        assert_eq!(m.publish_time, 2000 + m.sequence as u64);
        assert!(last.map_or(true, |s| s < m.sequence));
        last = Some(m.sequence);
        assert!(!m.data.is_empty());
    }
}

#[test]
fn no_image_records_give_an_empty_output() {
    let records = vec![other_record("/cam1", 0), other_record("/lidar", 1)];
    let out = transcode(&records).unwrap();
    assert!(out.channels.is_empty());
    assert!(out.messages.is_empty());
    let out = transcode(&Vec::new()).unwrap();
    assert!(out.channels.is_empty());
    assert!(out.messages.is_empty());
}

#[test]
fn a_size_change_within_a_topic_is_rejected() {
    let mut run = Transcoder::new();
    assert!(run.process(&image_record("/cam0", 0, 64, 48)).is_ok());
    let r = run.process(&image_record("/cam0", 1, 32, 48));
    assert_eq!(r, Err(TranscodeError::ResolutionChanged));
    let r = run.process(&image_record("/cam0", 2, 64, 48));
    assert!(r.is_ok());
    assert_ne!(r, Ok(Step::Skipped));
}
