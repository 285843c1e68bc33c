//! What holds of every reassembly, proved from the definitions in
//! [`crate::reassembler`] and [`crate::stream`].

use vstd::prelude::*;
use crate::error::Error;
use crate::reassembler::{advance, chunk_bytes, run, run_from, start, Progress};
use crate::record::record_of;
use crate::stream::{relay_from, relay_spec, Outcome, StreamEvent};
use crate::text::{chunk_text, lemma_decode_concat};
use vstd::utf8::{decode_utf8, valid_utf8};

verus! {

/// The text of `chunks` laid end to end.
pub open spec fn joined(chunks: Seq<Seq<u8>>) -> Seq<char>
    decreases chunks.len(),
{
    if chunks.len() == 0 {
        Seq::empty()
    } else {
        joined(chunks.drop_last()) + chunk_text(chunks.last())
    }
}

/// `fragments` carry one record and nothing else: read together they are a
/// record, and no shorter run of them from the first on is one already. The
/// latter holds of every cut of a JSON object's text, which is not complete
/// before its closing brace.
pub open spec fn spells_one_record(fragments: Seq<Seq<u8>>) -> bool {
    &&& fragments.len() > 0
    &&& record_of(joined(fragments)) is Some
    &&& forall|k: int|
        0 < k < fragments.len() ==> record_of(#[trigger] joined(fragments.take(k))) is None
}

/// The record that `fragments` carry.
pub open spec fn carried_record(fragments: Seq<Seq<u8>>) -> Seq<char> {
    record_of(joined(fragments)).unwrap()
}

/// `chunks` as the events of their arrival.
pub open spec fn arrivals(chunks: Seq<Vec<u8>>) -> Seq<StreamEvent> {
    chunks.map_values(|chunk: Vec<u8>| StreamEvent::Chunk(chunk))
}

/// Where the transport cuts well-formed text does not matter, as long as it
/// cuts between characters: chunks that are each well-formed UTF-8 bring the
/// buffer the text of their bytes taken as a whole.
pub proof fn lemma_well_formed_chunks_join(chunks: Seq<Seq<u8>>)
    requires
        forall|i: int| 0 <= i < chunks.len() ==> valid_utf8(#[trigger] chunks[i]),
    ensures
        valid_utf8(chunks.flatten()),
        joined(chunks) == decode_utf8(chunks.flatten()),
    decreases chunks.len(),
{
    if chunks.len() == 0 {
        assert(chunks.flatten() =~= Seq::<u8>::empty());
    } else {
        let front = chunks.drop_last();
        lemma_well_formed_chunks_join(front);
        front.lemma_flatten_push(chunks.last());
        assert(front.push(chunks.last()) =~= chunks);
        lemma_decode_concat(front.flatten(), chunks.last());
    }
}

/// Feeding `first` and then `second` is feeding them as one sequence.
pub proof fn lemma_run_concat(progress: Progress, first: Seq<Seq<u8>>, second: Seq<Seq<u8>>)
    ensures
        run_from(progress, first + second) == run_from(run_from(progress, first), second),
    decreases second.len(),
{
    if second.len() == 0 {
        assert(first + second =~= first);
    } else {
        assert((first + second).drop_last() =~= first + second.drop_last());
        assert((first + second).last() == second.last());
        lemma_run_concat(progress, first, second.drop_last());
    }
}

/// The buffer never holds a complete record: it is empty, or its text does
/// not read as one.
pub proof fn lemma_buffer_holds_no_record(chunks: Seq<Seq<u8>>)
    ensures
        run(chunks).buffer.len() == 0 || record_of(run(chunks).buffer) is None,
    decreases chunks.len(),
{
    if chunks.len() > 0 {
        lemma_buffer_holds_no_record(chunks.drop_last());
    }
}

/// Chunks that complete nothing are only collected: as long as the buffer
/// does not read as a record after any of them, no record is emitted and the
/// buffer grows by their text.
pub proof fn lemma_incomplete_chunks_accumulate(progress: Progress, chunks: Seq<Seq<u8>>)
    requires
        forall|k: int|
            0 < k <= chunks.len() ==> record_of(
                progress.buffer + #[trigger] joined(chunks.take(k)),
            ) is None,
    ensures
        run_from(progress, chunks) == (Progress {
            buffer: progress.buffer + joined(chunks),
            records: progress.records,
        }),
    decreases chunks.len(),
{
    if chunks.len() == 0 {
        assert(progress.buffer + joined(chunks) =~= progress.buffer);
    } else {
        let front = chunks.drop_last();
        assert forall|k: int| 0 < k <= front.len() implies record_of(
            progress.buffer + #[trigger] joined(front.take(k)),
        ) is None by {
            assert(front.take(k) =~= chunks.take(k));
        }
        lemma_incomplete_chunks_accumulate(progress, front);
        assert(chunks.take(chunks.len() as int) =~= chunks);
        assert((progress.buffer + joined(front)) + chunk_text(chunks.last()) =~= progress.buffer
            + joined(chunks));
    }
}

/// A record split over several chunks is emitted once, and only when its last
/// fragment has arrived: before that nothing is emitted, after it the buffer
/// is empty again.
pub proof fn lemma_fragments_yield_one_record(progress: Progress, fragments: Seq<Seq<u8>>)
    requires
        progress.buffer.len() == 0,
        spells_one_record(fragments),
    ensures
        run_from(progress, fragments) == (Progress {
            buffer: Seq::empty(),
            records: progress.records.push(carried_record(fragments)),
        }),
        forall|k: int|
            0 <= k < fragments.len() ==> (#[trigger] run_from(progress, fragments.take(k))).records
                == progress.records,
{
    assert forall|k: int| 0 <= k < fragments.len() implies run_from(progress, fragments.take(k))
        == (Progress {
        buffer: progress.buffer + joined(fragments.take(k)),
        records: progress.records,
    }) by {
        let shorter = fragments.take(k);
        assert forall|j: int| 0 < j <= shorter.len() implies record_of(
            progress.buffer + #[trigger] joined(shorter.take(j)),
        ) is None by {
            assert(shorter.take(j) =~= fragments.take(j));
            assert(progress.buffer + joined(fragments.take(j)) =~= joined(fragments.take(j)));
        }
        lemma_incomplete_chunks_accumulate(progress, shorter);
    }
    let front = fragments.drop_last();
    assert(front =~= fragments.take(fragments.len() - 1));
    assert((progress.buffer + joined(front)) + chunk_text(fragments.last()) =~= joined(fragments));
}

/// Records that arrive back to back, each in chunks of its own, all come out,
/// in the order of arrival: as many records as there are groups of chunks.
pub proof fn lemma_back_to_back_records(groups: Seq<Seq<Seq<u8>>>)
    requires
        forall|i: int| 0 <= i < groups.len() ==> spells_one_record(#[trigger] groups[i]),
    ensures
        run(groups.flatten()) == (Progress {
            buffer: Seq::empty(),
            records: Seq::new(groups.len(), |i: int| carried_record(groups[i])),
        }),
        run(groups.flatten()).records.len() == groups.len(),
    decreases groups.len(),
{
    let expected = Seq::new(groups.len(), |i: int| carried_record(groups[i]));
    if groups.len() == 0 {
        assert(groups.flatten() =~= Seq::<Seq<u8>>::empty());
        assert(expected =~= start().records);
    } else {
        let front = groups.drop_last();
        let before = Seq::new(front.len(), |i: int| carried_record(front[i]));
        lemma_back_to_back_records(front);
        front.lemma_flatten_push(groups.last());
        assert(front.push(groups.last()) =~= groups);
        lemma_run_concat(start(), front.flatten(), groups.last());
        lemma_fragments_yield_one_record(run(front.flatten()), groups.last());
        assert(before.push(carried_record(groups.last())) =~= expected);
    }
}

/// Chunks at the head of a response are fed to the reassembler one by one
/// before anything else is looked at.
pub proof fn lemma_relay_feeds_chunks(
    progress: Progress,
    chunks: Seq<Vec<u8>>,
    then: Seq<StreamEvent>,
)
    ensures
        relay_from(progress, arrivals(chunks) + then) == relay_from(
            run_from(progress, chunk_bytes(chunks)),
            then,
        ),
    decreases chunks.len(),
{
    let events = arrivals(chunks) + then;
    if chunks.len() == 0 {
        assert(events =~= then);
    } else {
        let first = chunks.first();
        let rest = chunks.drop_first();
        assert(events.first() == StreamEvent::Chunk(first));
        assert(events.drop_first() =~= arrivals(rest) + then);
        lemma_relay_feeds_chunks(advance(progress, first@), rest, then);
        assert(chunk_bytes(chunks) =~= seq![first@] + chunk_bytes(rest));
        lemma_run_concat(progress, seq![first@], chunk_bytes(rest));
        assert(run_from(progress, seq![first@]) == advance(progress, first@)) by {
            assert(seq![first@].drop_last().len() == 0);
            assert(run_from(progress, seq![first@].drop_last()) == progress);
        }
    }
}

/// A response that ends after `chunks` yields the records that they complete
/// and no failure: text left in the buffer is dropped without a word.
pub proof fn lemma_close_drops_the_buffer(chunks: Seq<Vec<u8>>, later: Seq<StreamEvent>)
    ensures
        relay_spec(arrivals(chunks)) == (Outcome {
            records: run(chunk_bytes(chunks)).records,
            failure: None,
        }),
        relay_spec(arrivals(chunks) + seq![StreamEvent::Closed] + later) == (Outcome {
            records: run(chunk_bytes(chunks)).records,
            failure: None,
        }),
{
    let close = seq![StreamEvent::Closed] + later;
    lemma_relay_feeds_chunks(start(), chunks, Seq::empty());
    assert(arrivals(chunks) + Seq::<StreamEvent>::empty() =~= arrivals(chunks));
    lemma_relay_feeds_chunks(start(), chunks, close);
    assert(arrivals(chunks) + seq![StreamEvent::Closed] + later =~= arrivals(chunks) + close);
    assert(close.first() == StreamEvent::Closed);
}

/// Chunks that never complete a record leave no trace: a response that ends
/// on such a residue yields what it had yielded before the residue, and no
/// failure.
pub proof fn lemma_residue_is_dropped(done: Seq<Vec<u8>>, residue: Seq<Vec<u8>>)
    requires
        forall|k: int|
            0 < k <= residue.len() ==> record_of(
                run(chunk_bytes(done)).buffer + #[trigger] joined(chunk_bytes(residue).take(k)),
            ) is None,
    ensures
        run(chunk_bytes(done + residue)).records == run(chunk_bytes(done)).records,
        relay_spec(arrivals(done + residue) + seq![StreamEvent::Closed]) == (Outcome {
            records: run(chunk_bytes(done)).records,
            failure: None,
        }),
{
    assert(chunk_bytes(done + residue) =~= chunk_bytes(done) + chunk_bytes(residue));
    lemma_run_concat(start(), chunk_bytes(done), chunk_bytes(residue));
    lemma_incomplete_chunks_accumulate(run(chunk_bytes(done)), chunk_bytes(residue));
    lemma_close_drops_the_buffer(done + residue, Seq::empty());
    assert(arrivals(done + residue) + seq![StreamEvent::Closed] + Seq::<StreamEvent>::empty()
        =~= arrivals(done + residue) + seq![StreamEvent::Closed]);
}

/// A read failure ends the response with a request error. The records that
/// the chunks before it completed stand; nothing that comes after it is looked
/// at, so no further record is produced.
pub proof fn lemma_read_failure_ends_the_response(
    chunks: Seq<Vec<u8>>,
    report: String,
    later: Seq<StreamEvent>,
)
    ensures
        relay_spec(arrivals(chunks) + seq![StreamEvent::ReadFailed(report)] + later) == (Outcome {
            records: run(chunk_bytes(chunks)).records,
            failure: Some(Error::Request(report)),
        }),
{
    let failed = seq![StreamEvent::ReadFailed(report)] + later;
    lemma_relay_feeds_chunks(start(), chunks, failed);
    assert(arrivals(chunks) + seq![StreamEvent::ReadFailed(report)] + later =~= arrivals(chunks)
        + failed);
    assert(failed.first() == StreamEvent::ReadFailed(report));
}

} // verus!
