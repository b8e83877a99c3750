//! The output of a run: the channels in the order in which they were
//! registered and the messages in the order in which they were written.

use vstd::prelude::*;
use vstd::string::*;

verus! {

/// A written message as a mathematical value.
pub struct MessageModel {
    pub channel: int,
    pub log_time: u64,
    pub publish_time: u64,
    pub sequence: u32,
    pub data: Seq<u8>,
}

/// An output as a mathematical value: the topics of its channels and its
/// messages.
pub struct OutputModel {
    pub channels: Seq<Seq<char>>,
    pub messages: Seq<MessageModel>,
}

/// A channel of the output. Every channel carries video messages in the one
/// shared output schema.
#[derive(Debug)]
pub struct OutputChannel {
    pub topic: String,
}

/// A message of the output, published on the channel with the given index.
#[derive(Debug)]
pub struct OutputMessage {
    pub channel: usize,
    pub log_time: u64,
    pub publish_time: u64,
    pub sequence: u32,
    pub data: Vec<u8>,
}

impl View for OutputMessage {
    type V = MessageModel;

    open spec fn view(&self) -> MessageModel {
        MessageModel {
            channel: self.channel as int,
            log_time: self.log_time,
            publish_time: self.publish_time,
            sequence: self.sequence,
            data: self.data@,
        }
    }
}

/// Channels and messages of one run.
#[derive(Debug)]
pub struct Output {
    pub channels: Vec<OutputChannel>,
    pub messages: Vec<OutputMessage>,
}

impl View for Output {
    type V = OutputModel;

    open spec fn view(&self) -> OutputModel {
        OutputModel {
            channels: self.channels@.map_values(|c: OutputChannel| c.topic@),
            messages: self.messages@.map_values(|m: OutputMessage| m@),
        }
    }
}

/// The output before anything was registered or written.
pub open spec fn empty_output() -> OutputModel {
    OutputModel { channels: Seq::empty(), messages: Seq::empty() }
}

/// Index of the channel of `topic`.
pub open spec fn channel_index(channels: Seq<Seq<char>>, topic: Seq<char>) -> int {
    choose|i: int| 0 <= i < channels.len() && channels[i] == topic
}

/// The channels after `topic` was ensured: unchanged where it is registered
/// already, else with `topic` appended.
pub open spec fn with_channel(channels: Seq<Seq<char>>, topic: Seq<char>) -> Seq<Seq<char>> {
    if channels.contains(topic) {
        channels
    } else {
        channels.push(topic)
    }
}

/// The output after one message was published on `topic`, whose channel is
/// registered first if it is new.
pub open spec fn published(
    out: OutputModel,
    topic: Seq<char>,
    log_time: u64,
    publish_time: u64,
    sequence: u32,
    data: Seq<u8>,
) -> OutputModel {
    let channels = with_channel(out.channels, topic);
    OutputModel {
        channels,
        messages: out.messages.push(
            MessageModel {
                channel: channel_index(channels, topic),
                log_time,
                publish_time,
                sequence,
                data,
            },
        ),
    }
}

impl OutputModel {
    /// No topic is registered twice, and every message is published on a
    /// registered channel.
    pub open spec fn wf(&self) -> bool {
        &&& self.channels.no_duplicates()
        &&& forall|k: int|
            0 <= k < self.messages.len() ==> 0 <= (#[trigger] self.messages[k]).channel
                < self.channels.len()
    }

    /// Whether some message is published on channel `c`.
    pub open spec fn carries(&self, c: int) -> bool {
        exists|k: int| 0 <= k < self.messages.len() && (#[trigger] self.messages[k]).channel == c
    }

    /// Topic on which message `k` is published.
    pub open spec fn topic_of(&self, k: int) -> Seq<char> {
        self.channels[self.messages[k].channel]
    }
}

/// In channels without duplicates the index of a registered topic is the
/// place where it stands.
pub proof fn lemma_channel_index(channels: Seq<Seq<char>>, i: int)
    requires
        channels.no_duplicates(),
        0 <= i < channels.len(),
    ensures
        channel_index(channels, channels[i]) == i,
{
}

/// Ensuring a channel keeps the registered topics distinct, keeps the place
/// of every topic registered before, and registers the topic.
pub proof fn lemma_with_channel(channels: Seq<Seq<char>>, topic: Seq<char>)
    requires
        channels.no_duplicates(),
    ensures
        with_channel(channels, topic).no_duplicates(),
        with_channel(channels, topic).contains(topic),
        0 <= channel_index(with_channel(channels, topic), topic) < with_channel(
            channels,
            topic,
        ).len(),
        with_channel(channels, topic)[channel_index(with_channel(channels, topic), topic)]
            == topic,
        channels.len() <= with_channel(channels, topic).len(),
        forall|i: int| 0 <= i < channels.len() ==> with_channel(channels, topic)[i] == channels[i],
{
    let after = with_channel(channels, topic);
    if !channels.contains(topic) {
        assert(after[channels.len() as int] == topic);
        assert forall|i: int, j: int|
            0 <= i < after.len() && 0 <= j < after.len() && i != j implies after[i] != after[j] by {
            if i < channels.len() {
                assert(channels.contains(channels[i]));
            }
            if j < channels.len() {
                assert(channels.contains(channels[j]));
            }
        }
    }
    assert(after.contains(topic));
}

/// Publishing keeps an output well formed.
pub proof fn lemma_published_wf(
    out: OutputModel,
    topic: Seq<char>,
    log_time: u64,
    publish_time: u64,
    sequence: u32,
    data: Seq<u8>,
)
    requires
        out.wf(),
    ensures
        published(out, topic, log_time, publish_time, sequence, data).wf(),
{
    lemma_with_channel(out.channels, topic);
}

impl Output {
    /// An output without channels and messages.
    pub fn new() -> (out: Output)
        ensures
            out@ == empty_output(),
            out@.wf(),
    {
        let out = Output { channels: Vec::new(), messages: Vec::new() };
        proof {
            assert(out@.channels =~= Seq::empty());
            assert(out@.messages =~= Seq::empty());
        }
        out
    }

    /// Finds the channel of `topic`.
    pub fn find_channel(&self, topic: &str) -> (r: Option<usize>)
        requires
            self@.wf(),
        ensures
            r is Some <==> self@.channels.contains(topic@),
            r is Some ==> r->0 < self@.channels.len() && self@.channels[r->0 as int] == topic@
                && r->0 == channel_index(self@.channels, topic@),
    {
        let wanted = String::from_str(topic);
        let mut i: usize = 0;
        while i < self.channels.len()
            invariant
                self@.wf(),
                i <= self.channels@.len(),
                wanted@ == topic@,
                forall|k: int| 0 <= k < i ==> self@.channels[k] != topic@,
            decreases self.channels@.len() - i,
        {
            if self.channels[i].topic == wanted {
                proof {
                    assert(self@.channels[i as int] == topic@);
                    lemma_channel_index(self@.channels, i as int);
                }
                return Some(i);
            }
            i = i + 1;
        }
        None
    }

    /// Returns the channel of `topic`, registering it first if the topic is
    /// new. A topic is never registered twice, and channels keep the order
    /// in which their topics were first seen.
    pub fn ensure_channel(&mut self, topic: &str) -> (index: usize)
        requires
            old(self)@.wf(),
        ensures
            final(self)@.wf(),
            final(self)@.channels == with_channel(old(self)@.channels, topic@),
            final(self)@.messages == old(self)@.messages,
            index == channel_index(final(self)@.channels, topic@),
            index < final(self)@.channels.len(),
            final(self)@.channels[index as int] == topic@,
    {
        proof {
            lemma_with_channel(self@.channels, topic@);
        }
        match self.find_channel(topic) {
            Some(i) => i,
            None => {
                self.channels.push(OutputChannel { topic: String::from_str(topic) });
                proof {
                    assert(self@.channels =~= old(self)@.channels.push(topic@));
                    assert(self@.messages =~= old(self)@.messages);
                    lemma_channel_index(self@.channels, self@.channels.len() - 1);
                }
                self.channels.len() - 1
            },
        }
    }

    /// Publishes one message on `topic`, registering the channel first if
    /// the topic is new.
    pub fn publish(
        &mut self,
        topic: &str,
        log_time: u64,
        publish_time: u64,
        sequence: u32,
        data: Vec<u8>,
    )
        requires
            old(self)@.wf(),
        ensures
            final(self)@.wf(),
            final(self)@ == published(
                old(self)@,
                topic@,
                log_time,
                publish_time,
                sequence,
                data@,
            ),
    {
        let channel = self.ensure_channel(topic);
        let ghost mid = self@;
        self.messages.push(OutputMessage { channel, log_time, publish_time, sequence, data });
        proof {
            lemma_published_wf(old(self)@, topic@, log_time, publish_time, sequence, data@);
            assert(self@.channels =~= mid.channels);
            assert(self@.messages =~= published(
                old(self)@,
                topic@,
                log_time,
                publish_time,
                sequence,
                data@,
            ).messages);
        }
    }
}

} // verus!
