//! Reading the records of a log container held in memory.

use vstd::prelude::*;
use crate::error::TranscodeError;
use crate::record::{Record, RecordModel, Schema};

verus! {

/// The messages of a container in the order in which they are stored, each
/// with the topic and schema of its channel, or nothing where the bytes are
/// no container or a record in them is damaged.
pub uninterp spec fn container_records(bytes: Seq<u8>) -> Option<Seq<RecordModel>>;

/// Walks the container with `mcap::MessageStream` and copies every message
/// out: topic and schema from its channel, payload, times and sequence
/// number. The first damaged record makes the whole read fail.
#[verifier::external_body]
fn read_messages(bytes: &[u8]) -> (r: Option<Vec<Record>>)
    ensures
        match r {
            Some(v) => container_records(bytes@) == Some(v@.map_values(|x: Record| x@)),
            None => container_records(bytes@) is None,
        },
{
    let stream = mcap::MessageStream::new(bytes).ok()?;
    stream.map(|item| item.ok().map(|m| Record {
        topic: m.channel.topic.clone(),
        schema: m.channel.schema.as_ref().map(|s| Schema {
            name: s.name.clone(),
            encoding: s.encoding.clone(),
            data: s.data.to_vec(),
        }),
        payload: m.data.into_owned(),
        log_time: m.log_time,
        publish_time: m.publish_time,
        sequence: m.sequence,
    })).collect()
}

/// Reads all records of a container in stored order.
pub fn read_records(bytes: &[u8]) -> (r: Result<Vec<Record>, TranscodeError>)
    ensures
        match r {
            Ok(v) => container_records(bytes@) == Some(v@.map_values(|x: Record| x@)),
            Err(e) => e == TranscodeError::Container && container_records(bytes@) is None,
        },
{
    match read_messages(bytes) {
        Some(v) => Ok(v),
        None => Err(TranscodeError::Container),
    }
}

} // verus!
