//! Video encoders, one per output topic, created on the first frame of the
//! topic and bound to that frame's size for the rest of the run.

use vstd::prelude::*;
use vstd::string::*;
use crate::error::TranscodeError;
use crate::planar::PlanarFrame;

verus! {

/// Target bitrate of every encoder, in bits per second.
pub const TARGET_BITRATE: u32 = 10_000_000;

#[verifier::external_type_specification]
#[verifier::external_body]
pub struct ExEncoder(openh264::encoder::Encoder);

/// The picture width and height that an encoder was configured with.
pub uninterp spec fn encoder_size(encoder: openh264::encoder::Encoder) -> (u32, u32);

/// The target bitrate, in bits per second, that an encoder was configured
/// with.
pub uninterp spec fn encoder_bitrate(encoder: openh264::encoder::Encoder) -> u32;

/// The frames that an encoder has encoded, each as its planar samples, in
/// the order in which they were handed to it.
pub uninterp spec fn encoder_frames(encoder: openh264::encoder::Encoder) -> Seq<Seq<u8>>;

/// The bitstream that an encoder holds: what it emitted for the frame it
/// encoded last.
pub uninterp spec fn encoder_output(encoder: openh264::encoder::Encoder) -> Seq<u8>;

/// Calls `Encoder::with_config` on a configuration made by
/// `EncoderConfig::new(width, height).set_bitrate_bps(bitrate)`. Construction
/// may fail; an encoder that is returned is configured with the given size
/// and bitrate and has encoded no frame.
#[verifier::external_body]
fn open_encoder(width: u32, height: u32, bitrate: u32) -> (r: Option<openh264::encoder::Encoder>)
    ensures
        r is Some ==> encoder_size(r->0) == (width, height) && encoder_bitrate(r->0) == bitrate
            && encoder_frames(r->0) == Seq::<Seq<u8>>::empty(),
{
    let config = openh264::encoder::EncoderConfig::new(width, height).set_bitrate_bps(bitrate);
    openh264::encoder::Encoder::with_config(config).ok()
}

/// Calls `Encoder::encode`, which panics unless the frame's buffer is made
/// for the size the encoder was configured with, and copies the bitstream
/// out with `to_vec`.
/// The encoder reads the samples of the frame's buffer. The chunk is the
/// bitstream that the encoder holds after the call; it depends on all frames
/// the encoder has encoded and may be empty. The encoder
/// keeps its configured size and bitrate.
#[verifier::external_body]
fn encode_frame(encoder: &mut openh264::encoder::Encoder, frame: &PlanarFrame) -> (r: Option<
    Vec<u8>,
>)
    requires
        frame.wf(),
        encoder_size(*old(encoder)) == (frame.width(), frame.height()),
    ensures
        encoder_size(*final(encoder)) == encoder_size(*old(encoder)),
        encoder_bitrate(*final(encoder)) == encoder_bitrate(*old(encoder)),
        r is Some ==> r->0@ == encoder_output(*final(encoder)) && encoder_frames(
            *final(encoder),
        ) == encoder_frames(*old(encoder)).push(frame.samples()),
{
    encoder.encode(frame.buffer()).ok().map(|stream| stream.to_vec())
}

/// The topic and frame size that an encoder is bound to.
pub struct Binding {
    pub topic: Seq<char>,
    pub width: u32,
    pub height: u32,
}

/// An encoder with the topic it serves.
pub struct EncoderSlot {
    topic: String,
    width: u32,
    height: u32,
    encoder: openh264::encoder::Encoder,
}

impl EncoderSlot {
    pub closed spec fn binding(&self) -> Binding {
        Binding { topic: self.topic@, width: self.width, height: self.height }
    }

    /// The chunk that the encoder emitted for the frame it encoded last.
    pub closed spec fn last_chunk(&self) -> Seq<u8> {
        encoder_output(self.encoder)
    }

    /// The frames that the encoder has encoded, in order.
    pub closed spec fn frames(&self) -> Seq<Seq<u8>> {
        encoder_frames(self.encoder)
    }

    /// The recorded size is the size the encoder was configured with, and
    /// the encoder has the target bitrate.
    pub closed spec fn wf(&self) -> bool {
        encoder_size(self.encoder) == (self.width, self.height) && encoder_bitrate(self.encoder)
            == TARGET_BITRATE
    }
}

/// The encoders of a run, keyed by output topic.
pub struct EncoderPool {
    slots: Vec<EncoderSlot>,
}

impl EncoderPool {
    /// The slots in the order in which their topics were first seen.
    pub closed spec fn slots(&self) -> Seq<EncoderSlot> {
        self.slots@
    }

    /// The bindings in the order in which their topics were first seen.
    pub open spec fn bindings(&self) -> Seq<Binding> {
        self.slots().map_values(|s: EncoderSlot| s.binding())
    }

    /// Whether an encoder exists for `topic`.
    pub open spec fn has(&self, topic: Seq<char>) -> bool {
        exists|i: int| 0 <= i < self.slots().len() && (#[trigger] self.slots()[i]).binding().topic == topic
    }

    /// Index of the slot that serves `topic`.
    pub open spec fn index_of(&self, topic: Seq<char>) -> int {
        choose|i: int| 0 <= i < self.slots().len() && (#[trigger] self.slots()[i]).binding().topic == topic
    }

    /// Frame size that the encoder of `topic` is bound to.
    pub open spec fn size_of(&self, topic: Seq<char>) -> (u32, u32) {
        let bound = self.slots()[self.index_of(topic)].binding();
        (bound.width, bound.height)
    }

    /// The frames that the encoder of `topic` has encoded, in order; none
    /// where the topic has no encoder.
    pub open spec fn frames_of(&self, topic: Seq<char>) -> Seq<Seq<u8>> {
        if self.has(topic) {
            self.slots()[self.index_of(topic)].frames()
        } else {
            Seq::empty()
        }
    }

    /// The chunk that the encoder of `topic` emitted for its last frame.
    pub open spec fn last_chunk(&self, topic: Seq<char>) -> Seq<u8> {
        self.slots()[self.index_of(topic)].last_chunk()
    }

    /// No topic has two encoders, and every slot records its encoder's size.
    pub open spec fn wf(&self) -> bool {
        &&& forall|i: int, j: int|
            0 <= i < j < self.slots().len() ==> (#[trigger] self.slots()[i]).binding().topic != (
            #[trigger] self.slots()[j]).binding().topic
        &&& forall|i: int| 0 <= i < self.slots().len() ==> (#[trigger] self.slots()[i]).wf()
    }

    /// A pool without encoders.
    pub fn new() -> (pool: EncoderPool)
        ensures
            pool.wf(),
            pool.slots().len() == 0,
    {
        EncoderPool { slots: Vec::new() }
    }

    /// Number of encoders, which is the number of topics seen.
    pub fn len(&self) -> (n: usize)
        ensures
            n == self.slots().len(),
    {
        self.slots.len()
    }

    /// Finds the slot of `topic`.
    pub fn position(&self, topic: &str) -> (r: Option<usize>)
        requires
            self.wf(),
        ensures
            r is Some <==> self.has(topic@),
            r is Some ==> r->0 == self.index_of(topic@) && 0 <= r->0 < self.slots().len()
                && self.slots()[r->0 as int].binding().topic == topic@,
    {
        let key = String::from_str(topic);
        let mut i: usize = 0;
        while i < self.slots.len()
            invariant
                self.wf(),
                i <= self.slots@.len(),
                key@ == topic@,
                forall|k: int| 0 <= k < i ==> (#[trigger] self.slots()[k]).binding().topic != topic@,
            decreases self.slots@.len() - i,
        {
            if self.slots[i].topic == key {
                proof {
                    assert(self.slots()[i as int].binding().topic == topic@);
                    assert(self.has(topic@));
                    let c = self.index_of(topic@);
                    assert(self.slots()[c].binding().topic == topic@);
                    if c < i {
                        assert(self.slots()[c].binding().topic != self.slots()[i as int].binding().topic);
                    } else if c > i {
                        assert(self.slots()[i as int].binding().topic != self.slots()[c].binding().topic);
                    }
                }
                return Some(i);
            }
            i = i + 1;
        }
        None
    }

    /// Encodes one frame on the encoder of `topic`, creating that encoder
    /// first if the topic is new. A frame whose size differs from the size
    /// the topic's encoder is bound to is rejected and leaves the pool as it
    /// was. The chunk may be empty.
    pub fn encode_for(&mut self, topic: &str, frame: &PlanarFrame) -> (r: Result<
        Vec<u8>,
        TranscodeError,
    >)
        requires
            old(self).wf(),
            frame.wf(),
        ensures
            final(self).wf(),
            r == Err::<Vec<u8>, TranscodeError>(TranscodeError::ResolutionChanged) <==> old(self).has(
                topic@,
            ) && old(self).size_of(topic@) != (frame.width(), frame.height()),
            r == Err::<Vec<u8>, TranscodeError>(TranscodeError::EncoderInit) ==> !old(self).has(
                topic@,
            ),
            r is Err ==> r->Err_0 == TranscodeError::ResolutionChanged || r->Err_0
                == TranscodeError::EncoderInit || r->Err_0 == TranscodeError::EncodeFailed,
            final(self).bindings() == if old(self).has(topic@) || r == Err::<
                Vec<u8>,
                TranscodeError,
            >(TranscodeError::EncoderInit) {
                old(self).bindings()
            } else {
                old(self).bindings().push(
                    Binding { topic: topic@, width: frame.width(), height: frame.height() },
                )
            },
            forall|i: int|
                0 <= i < old(self).slots().len() && old(self).slots()[i].binding().topic != topic@
                    ==> final(self).slots()[i] == old(self).slots()[i],
            r is Ok ==> final(self).has(topic@) && r->Ok_0@ == final(self).last_chunk(topic@)
                && final(self).frames_of(topic@) == old(self).frames_of(topic@).push(
                frame.samples(),
            ),
            grown(
                *old(self),
                *final(self),
                topic@,
                frame.width(),
                frame.height(),
                !old(self).has(topic@) && r != Err::<Vec<u8>, TranscodeError>(
                    TranscodeError::EncoderInit,
                ),
            ),
    {
        let index = match self.position(topic) {
            Some(i) => {
                if self.slots[i].width != frame.width() || self.slots[i].height != frame.height() {
                    return Err(TranscodeError::ResolutionChanged);
                }
                i
            },
            None => {
                let encoder = match open_encoder(frame.width(), frame.height(), TARGET_BITRATE) {
                    Some(e) => e,
                    None => {
                        return Err(TranscodeError::EncoderInit);
                    },
                };
                let slot = EncoderSlot {
                    topic: String::from_str(topic),
                    width: frame.width(),
                    height: frame.height(),
                    encoder,
                };
                self.slots.push(slot);
                proof {
                    assert(self.bindings() =~= old(self).bindings().push(
                        Binding { topic: topic@, width: frame.width(), height: frame.height() },
                    ));
                }
                self.slots.len() - 1
            },
        };
        let ghost before = self.slots@;
        proof {
            assert(before[index as int].frames() == old(self).frames_of(topic@));
        }
        let chunk = encode_frame(&mut self.slots[index].encoder, frame);
        proof {
            assert(chunk is Some ==> self.slots()[index as int].frames()
                == before[index as int].frames().push(frame.samples()));
            assert(self.slots@.len() == before.len());
            assert(self.bindings() =~= before.map_values(|s: EncoderSlot| s.binding()));
            assert(self.slots()[index as int].binding().topic == topic@);
            assert(self.has(topic@));
            lemma_own_encoder(*self, topic@, topic@);
            lemma_grown(
                *old(self),
                *self,
                Binding { topic: topic@, width: frame.width(), height: frame.height() },
            );
        }
        match chunk {
            Some(bytes) => Ok(bytes),
            None => Err(TranscodeError::EncodeFailed),
        }
    }
}

/// How a pool changes when a frame went to the encoder of `topic`: where
/// an encoder was created, the topic is bound to the frame's size; every
/// topic bound before stays bound to its size, and no other topic is bound.
pub open spec fn grown(
    before: EncoderPool,
    after: EncoderPool,
    topic: Seq<char>,
    width: u32,
    height: u32,
    created: bool,
) -> bool {
    &&& forall|t: Seq<char>| #[trigger] after.has(t) <==> before.has(t) || (created && t == topic)
    &&& forall|t: Seq<char>| before.has(t) ==> #[trigger] after.size_of(t) == before.size_of(t)
    &&& created ==> after.size_of(topic) == (width, height)
}

/// A pool whose bindings are those of another, or those with one binding
/// of a new topic appended, has grown from it.
pub proof fn lemma_grown(before: EncoderPool, after: EncoderPool, added: Binding)
    requires
        before.wf(),
        after.wf(),
        after.bindings() == before.bindings() || (!before.has(added.topic) && after.bindings()
            == before.bindings().push(added)),
    ensures
        grown(
            before,
            after,
            added.topic,
            added.width,
            added.height,
            after.bindings() != before.bindings(),
        ),
{
    let created = after.bindings() != before.bindings();
    assert(before.bindings().len() == before.slots().len());
    assert(after.bindings().len() == after.slots().len());
    assert forall|i: int| 0 <= i < before.slots().len() implies (#[trigger] after.slots()[i]).binding()
        == before.slots()[i].binding() by {
        assert(after.bindings()[i] == before.bindings()[i]);
    }
    if created {
        let last = before.slots().len() as int;
        assert(after.bindings()[last] == added);
        assert(after.slots()[last].binding() == added);
        assert(after.has(added.topic));
        lemma_own_encoder(after, added.topic, added.topic);
    }
    assert forall|t: Seq<char>| #[trigger] after.has(t) <==> before.has(t) || (created && t
        == added.topic) by {
        if after.has(t) {
            let i = after.index_of(t);
            if i < before.slots().len() {
                assert(before.slots()[i].binding().topic == t);
            }
        }
        if before.has(t) {
            let i = before.index_of(t);
            assert(after.slots()[i].binding().topic == t);
        }
    }
    assert forall|t: Seq<char>| before.has(t) implies #[trigger] after.size_of(t)
        == before.size_of(t) by {
        let i = before.index_of(t);
        assert(after.slots()[i].binding().topic == t);
        assert(after.has(t));
        lemma_own_encoder(after, t, t);
    }
}

/// Two topics never share an encoder: in a well-formed pool the slots of
/// different topics are different slots, whatever sizes they are bound to,
/// and a topic has one slot only.
pub proof fn lemma_own_encoder(pool: EncoderPool, a: Seq<char>, b: Seq<char>)
    requires
        pool.wf(),
        pool.has(a),
        pool.has(b),
    ensures
        a != b ==> pool.index_of(a) != pool.index_of(b),
        forall|i: int|
            0 <= i < pool.slots().len() && (#[trigger] pool.slots()[i]).binding().topic == a ==> i
                == pool.index_of(a),
{
    let c = pool.index_of(a);
    assert forall|i: int|
        0 <= i < pool.slots().len() && (#[trigger] pool.slots()[i]).binding().topic == a implies i
        == c by {
        if i < c {
            assert(pool.slots()[i].binding().topic != pool.slots()[c].binding().topic);
        } else if c < i {
            assert(pool.slots()[c].binding().topic != pool.slots()[i].binding().topic);
        }
    }
}

} // verus!
