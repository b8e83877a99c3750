//! A whole run over the records of a log, and what holds of its output.

use vstd::prelude::*;
use crate::error::TranscodeError;
use crate::message::{codec_tag, video_wire};
use crate::output::{empty_output, lemma_published_wf, lemma_with_channel, Output, OutputModel};
use crate::encoder::EncoderPool;
use crate::encoder::grown;
use crate::pipeline::{emitted, prepared, Transcoder};
use crate::record::{lemma_video_topic_injective, models, video_topic_of, Record, RecordModel};

verus! {

/// Whether the record yields a video message when the encoder returns
/// `chunk` for it.
pub open spec fn publishes(record: RecordModel, chunk: Seq<u8>) -> bool {
    record.carries_image() && prepared(record) is Ok && chunk.len() > 0
}

/// The output after the first `n` records, where `chunks[i]` is what the
/// encoder returned for record `i`.
pub open spec fn run_output(records: Seq<RecordModel>, chunks: Seq<Seq<u8>>, n: nat) -> OutputModel
    decreases n,
{
    if n == 0 {
        empty_output()
    } else {
        let before = run_output(records, chunks, (n - 1) as nat);
        let record = records[n - 1];
        if record.carries_image() && prepared(record) is Ok {
            emitted(before, record, prepared(record)->Ok_0.frame, chunks[n - 1])
        } else {
            before
        }
    }
}

/// The records among the first `n` that yield a video message, by index in
/// ascending order.
pub open spec fn kept(records: Seq<RecordModel>, chunks: Seq<Seq<u8>>, n: nat) -> Seq<int>
    decreases n,
{
    if n == 0 {
        Seq::empty()
    } else {
        let before = kept(records, chunks, (n - 1) as nat);
        if publishes(records[n - 1], chunks[n - 1]) {
            before.push(n - 1)
        } else {
            before
        }
    }
}

/// Whether record `i` is an image record that passes the steps before the
/// encoder.
pub open spec fn ready(records: Seq<RecordModel>, i: int) -> bool {
    records[i].carries_image() && prepared(records[i]) is Ok
}

/// Width and height of the decoded image of record `i`.
pub open spec fn size_at(records: Seq<RecordModel>, i: int) -> (u32, u32) {
    (prepared(records[i])->Ok_0.width, prepared(records[i])->Ok_0.height)
}

/// Whether an earlier image record of the topic of record `i` has an image
/// of another size.
pub open spec fn size_changes_at(records: Seq<RecordModel>, i: int) -> bool {
    exists|j: int|
        0 <= j < i && #[trigger] ready(records, j) && records[j].topic == records[i].topic
            && size_at(records, j) != size_at(records, i)
}

/// Whether no earlier image record has the topic of record `i`.
pub open spec fn first_of_topic(records: Seq<RecordModel>, i: int) -> bool {
    forall|j: int|
        0 <= j < i && (#[trigger] records[j]).carries_image() ==> records[j].topic
            != records[i].topic
}

/// Whether the first `n` records can be transcoded as far as the records
/// decide: every image record among them passes the steps before the
/// encoder and has the size of the earlier images of its topic.
pub open spec fn sound(records: Seq<RecordModel>, n: int) -> bool {
    forall|i: int|
        0 <= i < n && (#[trigger] records[i]).carries_image() ==> ready(records, i)
            && !size_changes_at(records, i)
}

/// Whether a run over `records` may end with the error `e` at record `i`:
/// all records before it can be transcoded, and the record is an image
/// record that fails before the encoder with `e`, or changes the size of
/// its topic and `e` says so, or is refused by the encoder, whose
/// construction can only fail for the first image of a topic.
pub open spec fn fails_at(records: Seq<RecordModel>, i: int, e: TranscodeError) -> bool {
    &&& 0 <= i < records.len()
    &&& sound(records, i)
    &&& records[i].carries_image()
    &&& match prepared(records[i]) {
        Err(cause) => e == cause,
        Ok(_) => if size_changes_at(records, i) {
            e == TranscodeError::ResolutionChanged
        } else {
            e == TranscodeError::EncodeFailed || (e == TranscodeError::EncoderInit
                && first_of_topic(records, i))
        },
    }
}

/// Whether some image record among the first `n` has the video topic
/// `topic`.
pub open spec fn seen(records: Seq<RecordModel>, n: int, topic: Seq<char>) -> bool {
    exists|k: int|
        0 <= k < n && (#[trigger] records[k]).carries_image() && video_topic_of(records[k].topic)
            == topic
}

/// Whether the pool holds, for the image records among the first `n`,
/// exactly their video topics, each bound to the size of its images.
pub open spec fn bound_to(pool: EncoderPool, records: Seq<RecordModel>, n: int) -> bool {
    &&& forall|k: int|
        0 <= k < n && (#[trigger] records[k]).carries_image() ==> pool.has(
            video_topic_of(records[k].topic),
        ) && pool.size_of(video_topic_of(records[k].topic)) == size_at(records, k)
    &&& forall|t: Seq<char>| #[trigger] pool.has(t) ==> seen(records, n, t)
}

/// The output of a run depends on the chunks of the records it has seen
/// only.
pub proof fn lemma_run_prefix(records: Seq<RecordModel>, a: Seq<Seq<u8>>, b: Seq<Seq<u8>>, n: nat)
    requires
        forall|k: int| 0 <= k < n ==> a[k] == b[k],
    ensures
        run_output(records, a, n) == run_output(records, b, n),
    decreases n,
{
    if n > 0 {
        lemma_run_prefix(records, a, b, (n - 1) as nat);
    }
}

/// A run without image records leaves the output empty.
pub proof fn lemma_run_without_images(records: Seq<RecordModel>, chunks: Seq<Seq<u8>>, n: nat)
    requires
        n <= records.len(),
        forall|i: int| 0 <= i < n ==> !(#[trigger] records[i]).carries_image(),
    ensures
        run_output(records, chunks, n) == empty_output(),
    decreases n,
{
    if n > 0 {
        lemma_run_without_images(records, chunks, (n - 1) as nat);
    }
}

/// The messages of a run are, in order, the video messages of the records
/// that yield one: message `k` comes from record `kept[k]`, is published on
/// that record's video topic, keeps its log time, publish time and sequence
/// number, and carries the chunk encoded for it. Every record that yields a
/// message is among them, no topic is registered twice, and every channel
/// has a message.
pub proof fn lemma_run_messages(records: Seq<RecordModel>, chunks: Seq<Seq<u8>>, n: nat)
    requires
        n <= records.len(),
        n <= chunks.len(),
    ensures
        run_output(records, chunks, n).wf(),
        run_output(records, chunks, n).messages.len() == kept(records, chunks, n).len(),
        forall|k: int|
            0 <= k < kept(records, chunks, n).len() ==> {
                let i = #[trigger] kept(records, chunks, n)[k];
                let out = run_output(records, chunks, n);
                &&& 0 <= i < n
                &&& publishes(records[i], chunks[i])
                &&& out.topic_of(k) == video_topic_of(records[i].topic)
                &&& out.messages[k].log_time == records[i].log_time
                &&& out.messages[k].publish_time == records[i].publish_time
                &&& out.messages[k].sequence == records[i].sequence
                &&& out.messages[k].data == video_wire(
                    prepared(records[i])->Ok_0.frame.timestamp,
                    prepared(records[i])->Ok_0.frame.frame_id,
                    codec_tag(),
                    chunks[i],
                )
            },
        forall|j: int, k: int|
            0 <= j < k < kept(records, chunks, n).len() ==> kept(records, chunks, n)[j] < kept(
                records,
                chunks,
                n,
            )[k],
        forall|i: int|
            0 <= i < n && publishes(#[trigger] records[i], chunks[i]) ==> kept(
                records,
                chunks,
                n,
            ).contains(i),
        forall|c: int|
            0 <= c < run_output(records, chunks, n).channels.len() ==> #[trigger] run_output(
                records,
                chunks,
                n,
            ).carries(c),
    decreases n,
{
    if n > 0 {
        let m = (n - 1) as nat;
        lemma_run_messages(records, chunks, m);
        let before = run_output(records, chunks, m);
        let after = run_output(records, chunks, n);
        let kb = kept(records, chunks, m);
        let ka = kept(records, chunks, n);
        let record = records[n - 1];
        let chunk = chunks[n - 1];
        if publishes(record, chunk) {
            let topic = video_topic_of(record.topic);
            let data = video_wire(
                prepared(record)->Ok_0.frame.timestamp,
                prepared(record)->Ok_0.frame.frame_id,
                codec_tag(),
                chunk,
            );
            lemma_with_channel(before.channels, topic);
            lemma_published_wf(
                before,
                topic,
                record.log_time,
                record.publish_time,
                record.sequence,
                data,
            );
            assert(ka == kb.push(n - 1));
            assert(after.messages.len() == before.messages.len() + 1);
            assert forall|k: int| 0 <= k < ka.len() implies {
                let i = #[trigger] ka[k];
                &&& 0 <= i < n
                &&& publishes(records[i], chunks[i])
                &&& after.topic_of(k) == video_topic_of(records[i].topic)
                &&& after.messages[k].log_time == records[i].log_time
                &&& after.messages[k].publish_time == records[i].publish_time
                &&& after.messages[k].sequence == records[i].sequence
                &&& after.messages[k].data == video_wire(
                    prepared(records[i])->Ok_0.frame.timestamp,
                    prepared(records[i])->Ok_0.frame.frame_id,
                    codec_tag(),
                    chunks[i],
                )
            } by {
                if k < kb.len() {
                    assert(ka[k] == kb[k]);
                    assert(after.messages[k] == before.messages[k]);
                    assert(before.topic_of(k) == after.topic_of(k));
                }
            }
            assert forall|j: int, k: int| 0 <= j < k < ka.len() implies ka[j] < ka[k] by {
                assert(0 <= kb[j] < m);
                if k < kb.len() {
                    assert(kb[j] < kb[k]);
                }
            }
            assert forall|i: int|
                0 <= i < n && publishes(#[trigger] records[i], chunks[i]) implies ka.contains(i) by {
                if i < m {
                    let w = choose|w: int| 0 <= w < kb.len() && kb[w] == i;
                    assert(ka[w] == i);
                } else {
                    assert(ka[kb.len() as int] == i);
                }
            }
            assert forall|c: int| 0 <= c < after.channels.len() implies #[trigger] after.carries(
                c,
            ) by {
                if c < before.channels.len() {
                    assert(before.carries(c));
                    let w = choose|w: int|
                        0 <= w < before.messages.len() && (#[trigger] before.messages[w]).channel
                            == c;
                    assert(after.messages[w].channel == c);
                } else {
                    let last = before.messages.len() as int;
                    assert(after.channels[c] == topic);
                    assert(after.channels[after.messages[last].channel] == topic);
                    assert(after.messages[last].channel == c);
                }
            }
        } else {
            assert(after == before);
            assert(ka == kb);
            assert forall|i: int|
                0 <= i < n && publishes(#[trigger] records[i], chunks[i]) implies ka.contains(i) by {
                assert(i < m);
            }
        }
    }
}

/// Number of image records on `topic` among the first `n` records.
pub open spec fn frames_on(records: Seq<RecordModel>, n: nat, topic: Seq<char>) -> nat
    decreases n,
{
    if n == 0 {
        0
    } else {
        let rest = frames_on(records, (n - 1) as nat, topic);
        if records[n - 1].carries_image() && records[n - 1].topic == topic {
            rest + 1
        } else {
            rest
        }
    }
}

/// Number of messages on `topic` among the first `m` messages of `out`.
pub open spec fn messages_on(out: OutputModel, m: nat, topic: Seq<char>) -> nat
    decreases m,
{
    if m == 0 {
        0
    } else {
        let rest = messages_on(out, (m - 1) as nat, topic);
        if out.topic_of(m - 1) == topic {
            rest + 1
        } else {
            rest
        }
    }
}

/// Outputs that agree on the topics of their first `m` messages have the
/// same number of messages on a topic among them.
pub proof fn lemma_messages_on_agree(a: OutputModel, b: OutputModel, m: nat, topic: Seq<char>)
    requires
        forall|k: int| 0 <= k < m ==> a.topic_of(k) == b.topic_of(k),
    ensures
        messages_on(a, m, topic) == messages_on(b, m, topic),
    decreases m,
{
    if m > 0 {
        lemma_messages_on_agree(a, b, (m - 1) as nat, topic);
    }
}

/// Where every image record on a topic yields a non-empty chunk, the output
/// holds exactly as many messages on the topic's video topic as the topic
/// has image records.
pub proof fn lemma_all_frames_published(
    records: Seq<RecordModel>,
    chunks: Seq<Seq<u8>>,
    n: nat,
    topic: Seq<char>,
)
    requires
        n <= records.len(),
        n <= chunks.len(),
        forall|i: int|
            0 <= i < n && (#[trigger] records[i]).carries_image() && records[i].topic == topic
                ==> publishes(records[i], chunks[i]),
    ensures
        messages_on(
            run_output(records, chunks, n),
            run_output(records, chunks, n).messages.len(),
            video_topic_of(topic),
        ) == frames_on(records, n, topic),
    decreases n,
{
    if n > 0 {
        let m = (n - 1) as nat;
        lemma_all_frames_published(records, chunks, m, topic);
        lemma_run_messages(records, chunks, m);
        lemma_run_messages(records, chunks, n);
        let before = run_output(records, chunks, m);
        let after = run_output(records, chunks, n);
        let record = records[n - 1];
        if publishes(record, chunks[n - 1]) {
            let count = before.messages.len();
            lemma_with_channel(before.channels, video_topic_of(record.topic));
            assert forall|k: int| 0 <= k < count implies before.topic_of(k) == after.topic_of(
                k,
            ) by {
                assert(after.messages[k] == before.messages[k]);
            }
            lemma_messages_on_agree(before, after, count, video_topic_of(topic));
            assert(kept(records, chunks, n)[count as int] == n - 1);
            assert(after.topic_of(count as int) == video_topic_of(record.topic));
            if video_topic_of(record.topic) == video_topic_of(topic) {
                lemma_video_topic_injective(record.topic, topic);
            }
        } else {
            assert(after == before);
        }
    }
}

/// What the pool says of image record `i` before the record goes to the
/// encoder: its topic is bound to another size exactly if the record
/// changes the size of its topic, and unbound exactly if the record is the
/// first image of its topic.
proof fn lemma_step_facts(records: Seq<RecordModel>, i: int, pool: EncoderPool)
    requires
        0 <= i < records.len(),
        ready(records, i),
        bound_to(pool, records, i),
        sound(records, i),
    ensures
        pool.has(video_topic_of(records[i].topic)) && pool.size_of(
            video_topic_of(records[i].topic),
        ) != size_at(records, i) <==> size_changes_at(records, i),
        !pool.has(video_topic_of(records[i].topic)) <==> first_of_topic(records, i),
{
    let topic = video_topic_of(records[i].topic);
    if size_changes_at(records, i) {
        let j = choose|j: int|
            0 <= j < i && #[trigger] ready(records, j) && records[j].topic == records[i].topic
                && size_at(records, j) != size_at(records, i);
        assert(records[j].carries_image());
    }
    if pool.has(topic) {
        assert(seen(records, i, topic));
        let k = choose|k: int|
            0 <= k < i && (#[trigger] records[k]).carries_image() && video_topic_of(
                records[k].topic,
            ) == topic;
        lemma_video_topic_injective(records[k].topic, records[i].topic);
        assert(ready(records, k));
    } else {
        assert forall|j: int|
            0 <= j < i && (#[trigger] records[j]).carries_image() implies records[j].topic
            != records[i].topic by {
            assert(pool.has(video_topic_of(records[j].topic)));
        }
    }
}

/// After image record `i`, which has the size of the earlier images of its
/// topic, went to its encoder, the pool is bound to one record more.
proof fn lemma_step_bound(
    records: Seq<RecordModel>,
    i: int,
    before: EncoderPool,
    after: EncoderPool,
)
    requires
        0 <= i < records.len(),
        ready(records, i),
        bound_to(before, records, i),
        sound(records, i),
        !size_changes_at(records, i),
        grown(
            before,
            after,
            video_topic_of(records[i].topic),
            size_at(records, i).0,
            size_at(records, i).1,
            !before.has(video_topic_of(records[i].topic)),
        ),
    ensures
        sound(records, i + 1),
        bound_to(after, records, i + 1),
{
    lemma_step_facts(records, i, before);
    assert forall|k: int| 0 <= k < i + 1 && (#[trigger] records[k]).carries_image() implies after.has(
        video_topic_of(records[k].topic),
    ) && after.size_of(video_topic_of(records[k].topic)) == size_at(records, k) by {
        if k < i {
            assert(before.has(video_topic_of(records[k].topic)));
        }
    }
    assert forall|t: Seq<char>| #[trigger] after.has(t) implies seen(records, i + 1, t) by {
        if before.has(t) {
            assert(seen(records, i, t));
            let k = choose|k: int|
                0 <= k < i && (#[trigger] records[k]).carries_image() && video_topic_of(
                    records[k].topic,
                ) == t;
            assert(records[k].carries_image());
        } else {
            assert(records[i].carries_image());
        }
    }
}

/// The pool of a run that sees a record without an image, or one more
/// record than it is bound to without changing, stays bound.
proof fn lemma_skip_bound(records: Seq<RecordModel>, i: int, pool: EncoderPool)
    requires
        0 <= i < records.len(),
        !records[i].carries_image(),
        bound_to(pool, records, i),
        sound(records, i),
    ensures
        sound(records, i + 1),
        bound_to(pool, records, i + 1),
{
    assert forall|t: Seq<char>| #[trigger] pool.has(t) implies seen(records, i + 1, t) by {
        assert(seen(records, i, t));
        let k = choose|k: int|
            0 <= k < i && (#[trigger] records[k]).carries_image() && video_topic_of(
                records[k].topic,
            ) == t;
        assert(records[k].carries_image());
    }
}

/// Runs the pipeline over all records in order. The first failure ends the
/// run; nothing of the output made until then is handed out. Whether the
/// run can succeed is decided by the records as far as `sound` says; beyond
/// that only an encoder can fail it.
pub fn transcode(records: &Vec<Record>) -> (r: Result<Output, TranscodeError>)
    ensures
        (forall|i: int| 0 <= i < records.len() ==> !(#[trigger] models(records@)[i]).carries_image())
            ==> r is Ok && r->Ok_0@ == empty_output(),
        r is Ok ==> r->Ok_0@.wf() && sound(models(records@), records.len() as int)
            && exists|chunks: Seq<Seq<u8>>|
            chunks.len() == records.len() && r->Ok_0@ == #[trigger] run_output(
                models(records@),
                chunks,
                records@.len(),
            ),
        r is Err ==> exists|i: int| #[trigger] fails_at(models(records@), i, r->Err_0),
{
    let mut state = Transcoder::new();
    let ghost mut chunks: Seq<Seq<u8>> = Seq::empty();
    let mut i: usize = 0;
    proof {
        assert forall|t: Seq<char>| !state.encoders().has(t) by {}
    }
    while i < records.len()
        invariant
            i <= records.len(),
            state.wf(),
            chunks.len() == i,
            state.output() == run_output(models(records@), chunks, i as nat),
            sound(models(records@), i as int),
            bound_to(state.encoders(), models(records@), i as int),
        decreases records.len() - i,
    {
        let ghost before = state.encoders();
        let ghost all = models(records@);
        let record = &records[i];
        proof {
            assert(all[i as int] == record@);
        }
        let outcome = state.process(record);
        proof {
            if record@.carries_image() {
                if prepared(record@) is Ok {
                    lemma_step_facts(all, i as int, before);
                    if outcome is Ok {
                        lemma_step_bound(all, i as int, before, state.encoders());
                    }
                }
            } else {
                lemma_skip_bound(all, i as int, before);
            }
        }
        match outcome {
            Err(e) => {
                let result: Result<Output, TranscodeError> = Err(e);
                proof {
                    assert(fails_at(models(records@), i as int, result->Err_0));
                }
                return result;
            },
            Ok(_) => {
                proof {
                    let chunk = if record@.carries_image() {
                        state.encoders().last_chunk(video_topic_of(record@.topic))
                    } else {
                        Seq::empty()
                    };
                    let longer = chunks.push(chunk);
                    lemma_run_prefix(all, chunks, longer, i as nat);
                    chunks = longer;
                }
            },
        }
        i = i + 1;
    }
    proof {
        if forall|k: int| 0 <= k < records.len() ==> !(#[trigger] models(records@)[k]).carries_image() {
            lemma_run_without_images(models(records@), chunks, records@.len());
        }
        assert(state.output() == run_output(models(records@), chunks, records@.len()));
    }
    Ok(state.finish())
}

} // verus!
