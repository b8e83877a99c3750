//! Writing an output as a log container held in memory: the shared schema
//! once, every channel once, then the messages in order.

use vstd::prelude::*;
use vstd::string::*;
use crate::error::TranscodeError;
use crate::output::{Output, OutputModel};
use crate::record::{protobuf_encoding, Schema, SchemaModel};

verus! {

/// A container writer of the `mcap` crate over an in-memory stream.
#[verifier::external_body]
pub struct ContainerWriter {
    inner: mcap::Writer<std::io::Cursor<Vec<u8>>>,
}

/// A schema as the container holds it.
pub struct SchemaEntry {
    pub id: int,
    pub schema: SchemaModel,
}

/// A channel as the container holds it.
pub struct ChannelEntry {
    pub id: int,
    pub schema: int,
    pub topic: Seq<char>,
    pub encoding: Seq<char>,
}

/// A message as the container holds it.
pub struct MessageEntry {
    pub channel: int,
    pub sequence: u32,
    pub log_time: u64,
    pub publish_time: u64,
    pub data: Seq<u8>,
}

/// What was handed to a container writer: first the schemas, then the
/// channels, then the messages, each in the order of the calls.
pub struct ContainerModel {
    pub schemas: Seq<SchemaEntry>,
    pub channels: Seq<ChannelEntry>,
    pub messages: Seq<MessageEntry>,
}

/// What a writer has been given so far.
pub uninterp spec fn written(writer: ContainerWriter) -> ContainerModel;

/// The bytes of the finished container that holds `content`.
pub uninterp spec fn container_bytes(content: ContainerModel) -> Seq<u8>;

/// Calls `WriteOptions::create` on an empty in-memory stream, with the
/// default options but for the compression, which is set to run on the
/// calling thread so that the bytes do not depend on the machine. A writer
/// that is returned has been given nothing yet.
#[verifier::external_body]
fn open_writer() -> (r: Option<ContainerWriter>)
    ensures
        r is Some ==> written(r->0) == (ContainerModel {
            schemas: Seq::empty(),
            channels: Seq::empty(),
            messages: Seq::empty(),
        }),
{
    let options = mcap::WriteOptions::new().compression_threads(0);
    Some(ContainerWriter { inner: options.create(std::io::Cursor::new(Vec::new())).ok()? })
}

/// Calls `Writer::add_schema` on a writer that has been given nothing yet.
/// The first schema of a writer gets the identifier 1.
#[verifier::external_body]
fn add_schema(writer: &mut ContainerWriter, schema: &Schema) -> (r: Option<u16>)
    requires
        written(*old(writer)).schemas.len() == 0,
        written(*old(writer)).channels.len() == 0,
        written(*old(writer)).messages.len() == 0,
    ensures
        r is Some ==> r->0 == 1 && written(*final(writer)) == (ContainerModel {
            schemas: seq![SchemaEntry { id: 1, schema: schema@ }],
            ..written(*old(writer))
        }),
{
    writer.inner.add_schema(&schema.name, &schema.encoding, &schema.data).ok()
}

/// Whether a channel of this topic with the given schema and encoding (and
/// no metadata) was added before.
pub open spec fn has_channel(
    content: ContainerModel,
    schema: int,
    topic: Seq<char>,
    encoding: Seq<char>,
) -> bool {
    exists|i: int|
        0 <= i < content.channels.len() && (#[trigger] content.channels[i]).schema == schema
            && content.channels[i].topic == topic && content.channels[i].encoding == encoding
}

/// Largest number of channels that a container is given here. The writer
/// counts identifiers in 16 bits from 1 and steps its counter after each;
/// the last identifier is left unused so that the counter never overflows.
pub const MAX_CHANNELS: usize = 65534;

/// Calls `Writer::add_channel` with empty metadata, before any message is
/// written and while an identifier is left. A channel whose content was not
/// added before is appended; on a writer that was given channels through
/// this function only, it gets the next identifier, counted from 1.
#[verifier::external_body]
fn add_channel(
    writer: &mut ContainerWriter,
    schema: u16,
    topic: &str,
    encoding: &str,
) -> (r: Option<u16>)
    requires
        written(*old(writer)).messages.len() == 0,
        written(*old(writer)).channels.len() < MAX_CHANNELS,
    ensures
        r is Some && !has_channel(written(*old(writer)), schema as int, topic@, encoding@) ==> r->0
            == written(*old(writer)).channels.len() + 1 && written(*final(writer))
            == (ContainerModel {
            channels: written(*old(writer)).channels.push(
                ChannelEntry { id: r->0 as int, schema: schema as int, topic: topic@, encoding: encoding@ },
            ),
            ..written(*old(writer))
        }),
{
    writer.inner.add_channel(schema, topic, encoding, &std::collections::BTreeMap::new()).ok()
}

/// Calls `Writer::write_to_known_channel`. A message that is accepted is
/// appended.
#[verifier::external_body]
fn write_message(
    writer: &mut ContainerWriter,
    channel: u16,
    sequence: u32,
    log_time: u64,
    publish_time: u64,
    data: &[u8],
) -> (r: bool)
    ensures
        r ==> written(*final(writer)) == (ContainerModel {
            messages: written(*old(writer)).messages.push(
                MessageEntry { channel: channel as int, sequence, log_time, publish_time, data: data@ },
            ),
            ..written(*old(writer))
        }),
{
    let header = mcap::records::MessageHeader { channel_id: channel, sequence, log_time, publish_time };
    writer.inner.write_to_known_channel(&header, data).is_ok()
}

/// Calls `Writer::finish`, which writes the summary and the footer, and then
/// takes the bytes out with `Writer::into_inner`.
#[verifier::external_body]
fn close_writer(writer: ContainerWriter) -> (r: Option<Vec<u8>>)
    ensures
        r is Some ==> r->0@ == container_bytes(written(writer)),
{
    let mut inner = writer.inner;
    inner.finish().ok()?;
    Some(inner.into_inner().into_inner())
}

/// The container content of an output: the shared schema with identifier
/// 1, unless the output has no channel, channel `k` with identifier
/// `k + 1`, and the messages in order.
pub open spec fn container_of(schema: SchemaModel, out: OutputModel) -> ContainerModel {
    ContainerModel {
        schemas: if out.channels.len() > 0 {
            seq![SchemaEntry { id: 1, schema }]
        } else {
            Seq::empty()
        },
        channels: Seq::new(
            out.channels.len(),
            |k: int|
                ChannelEntry {
                    id: k + 1,
                    schema: 1,
                    topic: out.channels[k],
                    encoding: protobuf_encoding(),
                },
        ),
        messages: Seq::new(
            out.messages.len(),
            |k: int|
                MessageEntry {
                    channel: out.messages[k].channel + 1,
                    sequence: out.messages[k].sequence,
                    log_time: out.messages[k].log_time,
                    publish_time: out.messages[k].publish_time,
                    data: out.messages[k].data,
                },
        ),
    }
}

/// The content after the schema and the first `c` channels and `m` messages
/// of an output were written.
pub open spec fn partial_container(schema: SchemaModel, out: OutputModel, c: int, m: int) -> ContainerModel {
    ContainerModel {
        schemas: container_of(schema, out).schemas,
        channels: container_of(schema, out).channels.subrange(0, c),
        messages: container_of(schema, out).messages.subrange(0, m),
    }
}

/// Writes an output as a finished container: the schema is registered
/// once, unless the output has no channel, then every channel once in the
/// order of the output, then the messages in order, each on its channel. An output with more channels
/// than there are identifiers is refused before anything is written, and a
/// channel that the writer refuses ends the attempt, both as a failed
/// channel registration. Where the writer cannot be opened, refuses the
/// schema or a message, or cannot finish, the attempt ends as a failed
/// write.
pub fn write_container(schema: &Schema, output: &Output) -> (r: Result<Vec<u8>, TranscodeError>)
    requires
        output@.wf(),
    ensures
        match r {
            Ok(bytes) => output@.channels.len() <= MAX_CHANNELS && bytes@ == container_bytes(
                container_of(schema@, output@),
            ),
            Err(e) => e == TranscodeError::ChannelRegistration || e == TranscodeError::Io,
        },
        output@.channels.len() > MAX_CHANNELS ==> r == Err::<Vec<u8>, TranscodeError>(
            TranscodeError::ChannelRegistration,
        ),
        r == Err::<Vec<u8>, TranscodeError>(TranscodeError::ChannelRegistration)
            ==> output@.channels.len() > 0,
{
    if output.channels.len() > MAX_CHANNELS {
        return Err(TranscodeError::ChannelRegistration);
    }
    let mut writer = match open_writer() {
        Some(w) => w,
        None => {
            return Err(TranscodeError::Io);
        },
    };
    let schema_id = if output.channels.len() > 0 {
        match add_schema(&mut writer, schema) {
            Some(id) => id,
            None => {
                return Err(TranscodeError::Io);
            },
        }
    } else {
        0
    };
    let ghost goal = container_of(schema@, output@);
    proof {
        assert(written(writer).schemas =~= goal.schemas);
        assert(written(writer).channels =~= goal.channels.subrange(0, 0));
        assert(written(writer).messages =~= goal.messages.subrange(0, 0));
        assert(written(writer) == partial_container(schema@, output@, 0, 0));
    }
    let mut ids: Vec<u16> = Vec::new();
    let mut c: usize = 0;
    while c < output.channels.len()
        invariant
            output@.wf(),
            output.channels@.len() > 0 ==> schema_id == 1,
            goal == container_of(schema@, output@),
            c <= output.channels@.len(),
            output.channels@.len() <= MAX_CHANNELS,
            ids@.len() == c,
            forall|k: int| 0 <= k < c ==> #[trigger] ids@[k] == k + 1,
            written(writer) == partial_container(schema@, output@, c as int, 0),
        decreases output.channels@.len() - c,
    {
        let topic = output.channels[c].topic.as_str();
        proof {
            let before = written(writer);
            assert(topic@ == output@.channels[c as int]);
            assert(!has_channel(before, 1, topic@, protobuf_encoding())) by {
                if has_channel(before, 1, topic@, protobuf_encoding()) {
                    let i = choose|i: int|
                        0 <= i < before.channels.len() && (#[trigger] before.channels[i]).schema
                            == 1 && before.channels[i].topic == topic@
                            && before.channels[i].encoding == protobuf_encoding();
                    assert(before.channels[i] == goal.channels[i]);
                    assert(output@.channels[i] == output@.channels[c as int]);
                }
            }
        }
        let id = match add_channel(&mut writer, schema_id, topic, "protobuf") {
            Some(id) => id,
            None => {
                return Err(TranscodeError::ChannelRegistration);
            },
        };
        ids.push(id);
        proof {
            assert(written(writer).channels =~= goal.channels.subrange(0, c + 1));
            assert(written(writer).messages =~= goal.messages.subrange(0, 0));
        }
        c = c + 1;
    }
    let mut m: usize = 0;
    while m < output.messages.len()
        invariant
            output@.wf(),
            goal == container_of(schema@, output@),
            m <= output.messages@.len(),
            output.channels@.len() <= MAX_CHANNELS,
            ids@.len() == output.channels@.len(),
            forall|k: int| 0 <= k < ids@.len() ==> #[trigger] ids@[k] == k + 1,
            written(writer) == partial_container(
                schema@,
                output@,
                output.channels@.len() as int,
                m as int,
            ),
        decreases output.messages@.len() - m,
    {
        let message = &output.messages[m];
        proof {
            assert(output@.messages[m as int] == message@);
            assert(0 <= output@.messages[m as int].channel < output@.channels.len());
        }
        let channel = ids[message.channel];
        let accepted = write_message(
            &mut writer,
            channel,
            message.sequence,
            message.log_time,
            message.publish_time,
            message.data.as_slice(),
        );
        if !accepted {
            return Err(TranscodeError::Io);
        }
        proof {
            assert(written(writer).messages =~= goal.messages.subrange(0, m + 1));
        }
        m = m + 1;
    }
    proof {
        assert(goal.channels.subrange(0, output.channels@.len() as int) =~= goal.channels);
        assert(goal.messages.subrange(0, output.messages@.len() as int) =~= goal.messages);
        assert(written(writer) == goal);
    }
    match close_writer(writer) {
        Some(bytes) => Ok(bytes),
        None => Err(TranscodeError::Io),
    }
}

} // verus!
