//! The whole conversion: a log container in, a log container of video
//! messages out.

use vstd::prelude::*;
use crate::container::{container_records, read_records};
use crate::descriptor::{video_schema, video_schema_model};
use crate::error::TranscodeError;
use crate::output::empty_output;
use crate::record::{models, RecordModel};
use crate::run::{fails_at, run_output, sound, transcode};
use crate::sink::{container_bytes, container_of, write_container, MAX_CHANNELS};

verus! {

/// Whether a run over `records` can have made an output that the writer
/// then answered with `r`: the records can be transcoded as far as they
/// decide, and for the chunks that the encoders emitted the writer either
/// returned the finished container of the run's output under the shared
/// video schema, or failed, or refused a channel of an output that has
/// channels.
pub open spec fn written_off(records: Seq<RecordModel>, r: Result<Vec<u8>, TranscodeError>) -> bool {
    sound(records, records.len() as int) && exists|chunks: Seq<Seq<u8>>|
        {
            let out = #[trigger] run_output(records, chunks, records.len());
            &&& chunks.len() == records.len()
            &&& out.channels.len() > MAX_CHANNELS ==> r == Err::<Vec<u8>, TranscodeError>(
                TranscodeError::ChannelRegistration,
            )
            &&& match r {
                Ok(bytes) => bytes@ == container_bytes(container_of(video_schema_model(), out)),
                Err(e) => e == TranscodeError::Io || (e == TranscodeError::ChannelRegistration
                    && out.channels.len() > 0),
            }
        }
}

/// What a conversion of `records` may return. Reading has succeeded, so the
/// input is not blamed. Either the run ended at one record with the error
/// that `fails_at` allows there, or the run succeeded and the writer was
/// given its output. Without image records only the writer can fail, and
/// success yields the container without channels and messages.
pub open spec fn converted(records: Seq<RecordModel>, r: Result<Vec<u8>, TranscodeError>) -> bool {
    &&& r != Err::<Vec<u8>, TranscodeError>(TranscodeError::Container)
    &&& written_off(records, r) || (r is Err && exists|i: int|
        #[trigger] fails_at(records, i, r->Err_0))
    &&& r is Ok || r == Err::<Vec<u8>, TranscodeError>(TranscodeError::Io) || r == Err::<
        Vec<u8>,
        TranscodeError,
    >(TranscodeError::ChannelRegistration) ==> written_off(records, r)
    &&& (forall|i: int| 0 <= i < records.len() ==> !(#[trigger] records[i]).carries_image()) ==> {
        &&& r is Ok ==> r->Ok_0@ == container_bytes(
            container_of(video_schema_model(), empty_output()),
        )
        &&& r is Err ==> r->Err_0 == TranscodeError::Io
    }
}

/// Converts a log container: reads its records, transcodes the still
/// images of every topic to video and writes the finished output
/// container. A container that cannot be read fails before anything else
/// is done.
pub fn convert(input: &[u8]) -> (r: Result<Vec<u8>, TranscodeError>)
    ensures
        match container_records(input@) {
            None => r == Err::<Vec<u8>, TranscodeError>(TranscodeError::Container),
            Some(records) => converted(records, r),
        },
{
    let records = match read_records(input) {
        Ok(v) => v,
        Err(e) => {
            return Err(e);
        },
    };
    let output = match transcode(&records) {
        Ok(out) => out,
        Err(e) => {
            proof {
                lemma_run_errors(models(records@), e);
            }
            return Err(e);
        },
    };
    let schema = video_schema();
    let r = write_container(&schema, &output);
    proof {
        let all = models(records@);
        let chunks = choose|chunks: Seq<Seq<u8>>|
            chunks.len() == all.len() && output@ == #[trigger] run_output(
                all,
                chunks,
                all.len(),
            );
        assert(written_off(all, r));
        if forall|i: int| 0 <= i < all.len() ==> !(#[trigger] all[i]).carries_image() {
            assert(output@ == empty_output());
        }
    }
    r
}

/// A run never ends with an error of reading or writing.
pub proof fn lemma_run_errors(records: Seq<RecordModel>, e: TranscodeError)
    requires
        exists|i: int| #[trigger] fails_at(records, i, e),
    ensures
        e != TranscodeError::Container,
        e != TranscodeError::Io,
        e != TranscodeError::ChannelRegistration,
{
}

} // verus!
