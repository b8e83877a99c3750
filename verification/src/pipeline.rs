//! The per-record pipeline: filter, resolve, decode, convert, encode, wrap
//! and publish.

use vstd::prelude::*;
use vstd::string::*;
use crate::encoder::{grown, Binding, EncoderPool};
use crate::error::TranscodeError;
use crate::frame::{frame_in, read_frame, Frame, FrameModel};
use crate::message::{codec_tag, video_message, video_wire};
use crate::output::{empty_output, published, Output, OutputModel};
use crate::planar::{to_planar, yuv_of_rgb};
use crate::raster::{decode, decoded_image};
use crate::record::{image_schema_name, video_topic, video_topic_of, Record, RecordModel};
use crate::schema::declares;

verus! {

/// What became of one record.
#[derive(Clone, Copy, Debug, PartialEq, Eq, Structural)]
pub enum Step {
    /// The record carries no still image and was passed over.
    Skipped,
    /// The frame was encoded, but the encoder emitted nothing for it.
    Dropped,
    /// The frame was encoded and one video message was published.
    Emitted,
}

/// A frame that is ready for the encoder, as a mathematical value: the
/// frame of the record with the size and the pixels of its decoded image.
pub struct Prepared {
    pub frame: FrameModel,
    pub width: u32,
    pub height: u32,
    pub pixels: Seq<u8>,
}

/// What the steps before the encoder make of an image record: its frame
/// with the size of the decoded image, or the error that ends the run.
pub open spec fn prepared(record: RecordModel) -> Result<Prepared, TranscodeError> {
    match frame_in(record.schema->0.data, record.payload) {
        Err(e) => Err(e),
        Ok(frame) => match decoded_image(frame.data) {
            None => Err(TranscodeError::UnsupportedImageFormat),
            Some((width, height, pixels)) => if width % 2 != 0 || height % 2 != 0 {
                Err(TranscodeError::OddDimensions)
            } else {
                Ok(Prepared { frame, width: width as u32, height: height as u32, pixels })
            },
        },
    }
}

/// The output after the encoder returned `chunk` for the frame of `record`:
/// unchanged where the chunk is empty, else with one video message on the
/// record's video topic that keeps the record's times and sequence number.
pub open spec fn emitted(
    out: OutputModel,
    record: RecordModel,
    frame: FrameModel,
    chunk: Seq<u8>,
) -> OutputModel {
    if chunk.len() == 0 {
        out
    } else {
        published(
            out,
            video_topic_of(record.topic),
            record.log_time,
            record.publish_time,
            record.sequence,
            video_wire(frame.timestamp, frame.frame_id, codec_tag(), chunk),
        )
    }
}

/// The state of a run: the encoders of the topics seen so far and the
/// output made so far.
pub struct Transcoder {
    encoders: EncoderPool,
    output: Output,
}

impl Transcoder {
    /// The encoders of the run.
    pub closed spec fn encoders(&self) -> EncoderPool {
        self.encoders
    }

    /// The output made so far.
    pub closed spec fn output(&self) -> OutputModel {
        self.output@
    }

    /// The encoder pool and the output are well formed.
    pub open spec fn wf(&self) -> bool {
        self.encoders().wf() && self.output().wf()
    }

    /// A run that has seen no record.
    pub fn new() -> (t: Transcoder)
        ensures
            t.wf(),
            t.output() == empty_output(),
            t.encoders().slots().len() == 0,
    {
        Transcoder { encoders: EncoderPool::new(), output: Output::new() }
    }

    /// Publishes the chunk that the encoder returned for the frame of
    /// `record`; an empty chunk is dropped.
    pub fn emit(&mut self, record: &Record, frame: &Frame, chunk: Vec<u8>) -> (step: Step)
        requires
            old(self).wf(),
        ensures
            final(self).wf(),
            final(self).encoders() == old(self).encoders(),
            final(self).output() == emitted(old(self).output(), record@, frame@, chunk@),
            step == if chunk@.len() == 0 {
                Step::Dropped
            } else {
                Step::Emitted
            },
    {
        if chunk.len() == 0 {
            return Step::Dropped;
        }
        let message = video_message(frame.timestamp, frame.frame_id.as_str(), chunk);
        let data = message.encode();
        let topic = video_topic(record.topic.as_str());
        self.output.publish(
            topic.as_str(),
            record.log_time,
            record.publish_time,
            record.sequence,
            data,
        );
        Step::Emitted
    }

    /// Takes one record through the pipeline. A record that carries no still
    /// image is skipped. Any failure leaves the output as it was.
    pub fn process(&mut self, record: &Record) -> (r: Result<Step, TranscodeError>)
        requires
            old(self).wf(),
        ensures
            final(self).wf(),
            !record@.carries_image() ==> r == Ok::<Step, TranscodeError>(Step::Skipped)
                && unchanged(*old(self), *final(self)),
            record@.carries_image() ==> match prepared(record@) {
                Err(e) => r == Err::<Step, TranscodeError>(e) && unchanged(
                    *old(self),
                    *final(self),
                ),
                Ok(p) => encoded(*old(self), *final(self), record@, p, r),
            },
    {
        if !record.is_image() {
            return Ok(Step::Skipped);
        }
        let schema = match &record.schema {
            Some(s) => s,
            None => {
                return Ok(Step::Skipped);
            },
        };
        let frame = match read_frame(schema.data.as_slice(), record.payload.as_slice()) {
            Ok(f) => f,
            Err(e) => {
                return Err(e);
            },
        };
        let raster = match decode(frame.data.as_slice()) {
            Ok(r) => r,
            Err(e) => {
                return Err(e);
            },
        };
        let planar = match to_planar(&raster) {
            Ok(p) => p,
            Err(e) => {
                return Err(e);
            },
        };
        let topic = video_topic(record.topic.as_str());
        let chunk = match self.encoders.encode_for(topic.as_str(), &planar) {
            Ok(c) => c,
            Err(e) => {
                return Err(e);
            },
        };
        let ghost bytes = chunk@;
        let step = self.emit(record, &frame, chunk);
        proof {
            let p = prepared(record@)->Ok_0;
            assert(p.frame == frame@);
            assert(bytes == self.encoders().last_chunk(topic@));
        }
        Ok(step)
    }

    /// Ends the run and hands out its output.
    pub fn finish(self) -> (out: Output)
        requires
            self.wf(),
        ensures
            out@ == self.output(),
            out@.wf(),
    {
        self.output
    }
}

/// The run has the same output and the same encoders as before.
pub open spec fn unchanged(before: Transcoder, after: Transcoder) -> bool {
    after.output() == before.output() && after.encoders() == before.encoders()
}

/// An image record whose embedded schema does not declare the image type
/// never reaches the decoder: the steps before the encoder end in a schema
/// resolution failure, so `process` returns that error and leaves the
/// output as it was.
pub proof fn lemma_missing_type_aborts(record: RecordModel)
    requires
        record.carries_image(),
        !declares(record.schema->0.data, image_schema_name()),
    ensures
        prepared(record) == Err::<Prepared, TranscodeError>(TranscodeError::SchemaResolution),
{
}

/// What holds after an image record went to the encoder. The encoder
/// decides whether it fails and what chunk it emits; everything else is
/// fixed: a frame whose size differs from the size the topic is bound to is
/// rejected, an encoder is created exactly for a new topic, every failure
/// leaves the output as it was, the encoder of the topic is given the
/// planar samples of the record's image, and the chunk that it emitted is
/// published or, if empty, dropped.
pub open spec fn encoded(
    before: Transcoder,
    after: Transcoder,
    record: RecordModel,
    p: Prepared,
    r: Result<Step, TranscodeError>,
) -> bool {
    let topic = video_topic_of(record.topic);
    let pool = before.encoders();
    let known = pool.has(topic);
    let failed_init = r == Err::<Step, TranscodeError>(TranscodeError::EncoderInit);
    &&& r == Err::<Step, TranscodeError>(TranscodeError::ResolutionChanged) <==> known
        && pool.size_of(topic) != (p.width, p.height)
    &&& failed_init ==> !known
    &&& r is Err ==> (r->Err_0 == TranscodeError::ResolutionChanged || r->Err_0
        == TranscodeError::EncoderInit || r->Err_0 == TranscodeError::EncodeFailed)
        && after.output() == before.output()
    &&& r is Ok ==> {
        let chunk = after.encoders().last_chunk(topic);
        &&& after.encoders().has(topic)
        &&& after.encoders().frames_of(topic) == pool.frames_of(topic).push(
            yuv_of_rgb(p.width as nat, p.height as nat, p.pixels),
        )
        &&& after.output() == emitted(before.output(), record, p.frame, chunk)
        &&& r->Ok_0 == if chunk.len() == 0 {
            Step::Dropped
        } else {
            Step::Emitted
        }
    }
    &&& after.encoders().bindings() == if known || failed_init {
        pool.bindings()
    } else {
        pool.bindings().push(Binding { topic, width: p.width, height: p.height })
    }
    &&& forall|i: int|
        0 <= i < pool.slots().len() && pool.slots()[i].binding().topic != topic
            ==> after.encoders().slots()[i] == pool.slots()[i]
    &&& grown(pool, after.encoders(), topic, p.width, p.height, !known && !failed_init)
}

} // verus!
