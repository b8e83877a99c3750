//! Records as they are read from a log, and the names that select and
//! derive topics.

use vstd::prelude::*;
use vstd::string::*;

verus! {

/// Name of the schema whose records carry compressed still images.
pub open spec fn image_schema_name() -> Seq<char> {
    "foxglove.CompressedImage"@
}

/// Encoding that schemas and messages are expected to use.
pub open spec fn protobuf_encoding() -> Seq<char> {
    "protobuf"@
}

/// Suffix appended to an input topic to name the topic that carries its video.
pub open spec fn video_suffix() -> Seq<char> {
    "_video"@
}

/// The topic on which the video made from `topic` is published.
pub open spec fn video_topic_of(topic: Seq<char>) -> Seq<char> {
    topic + video_suffix()
}

/// A named, encoding-tagged descriptor blob attached to a channel.
#[derive(Debug)]
pub struct Schema {
    pub name: String,
    pub encoding: String,
    pub data: Vec<u8>,
}

/// One message of the input log together with what its channel declares.
#[derive(Debug)]
pub struct Record {
    pub topic: String,
    pub schema: Option<Schema>,
    pub payload: Vec<u8>,
    pub log_time: u64,
    pub publish_time: u64,
    pub sequence: u32,
}

/// A schema as a mathematical value.
pub struct SchemaModel {
    pub name: Seq<char>,
    pub encoding: Seq<char>,
    pub data: Seq<u8>,
}

/// A record as a mathematical value.
pub struct RecordModel {
    pub topic: Seq<char>,
    pub schema: Option<SchemaModel>,
    pub payload: Seq<u8>,
    pub log_time: u64,
    pub publish_time: u64,
    pub sequence: u32,
}

impl View for Schema {
    type V = SchemaModel;

    open spec fn view(&self) -> SchemaModel {
        SchemaModel { name: self.name@, encoding: self.encoding@, data: self.data@ }
    }
}

impl View for Record {
    type V = RecordModel;

    open spec fn view(&self) -> RecordModel {
        RecordModel {
            topic: self.topic@,
            schema: match self.schema {
                Some(s) => Some(s@),
                None => None,
            },
            payload: self.payload@,
            log_time: self.log_time,
            publish_time: self.publish_time,
            sequence: self.sequence,
        }
    }
}

impl SchemaModel {
    /// Whether this schema announces compressed still images in the expected encoding.
    pub open spec fn describes_image(&self) -> bool {
        self.name == image_schema_name() && self.encoding == protobuf_encoding()
    }
}

impl RecordModel {
    /// Whether the record is to be transcoded: its channel has a schema and
    /// that schema describes compressed still images.
    pub open spec fn carries_image(&self) -> bool {
        match self.schema {
            Some(s) => s.describes_image(),
            None => false,
        }
    }
}

/// The records of a log as mathematical values.
pub open spec fn models(records: Seq<Record>) -> Seq<RecordModel> {
    records.map_values(|r: Record| r@)
}

impl Schema {
    /// Whether this schema announces compressed still images in the expected encoding.
    pub fn is_image_schema(&self) -> (b: bool)
        ensures
            b == self@.describes_image(),
    {
        let name = String::from_str("foxglove.CompressedImage");
        let encoding = String::from_str("protobuf");
        self.name == name && self.encoding == encoding
    }
}

impl Record {
    /// Whether the record is to be transcoded.
    pub fn is_image(&self) -> (b: bool)
        ensures
            b == self@.carries_image(),
    {
        match &self.schema {
            Some(s) => s.is_image_schema(),
            None => false,
        }
    }
}

/// Derives the output topic of an input topic by appending the video suffix.
pub fn video_topic(topic: &str) -> (out: String)
    ensures
        out@ == video_topic_of(topic@),
{
    String::from_str(topic).concat("_video")
}

/// Distinct input topics have distinct output topics.
pub proof fn lemma_video_topic_injective(a: Seq<char>, b: Seq<char>)
    requires
        video_topic_of(a) == video_topic_of(b),
    ensures
        a == b,
{
    let s = video_suffix();
    assert(video_topic_of(a).len() == a.len() + s.len());
    assert(video_topic_of(b).len() == b.len() + s.len());
    assert(a.len() == b.len());
    assert forall|i: int| 0 <= i < a.len() implies a[i] == b[i] by {
        assert(video_topic_of(a)[i] == a[i]);
        assert(video_topic_of(b)[i] == b[i]);
    }
    assert(a =~= b);
}

} // verus!
