//! The event loop of one streamed response.
//!
//! The transport reads; this module decides. Each thing that happens on the
//! connection is a [`StreamEvent`], and [`step`] says what follows from it:
//! wait for more, hand a record on, or stop. [`relay`] runs the same steps
//! over a recorded sequence of events.

use vstd::prelude::*;
use crate::error::Error;
use crate::reassembler::{advance, feed_spec, start, texts, Progress, Reassembler};
use crate::record::GenerationResponseChunk;

verus! {

/// One thing that happened on the connection.
#[derive(Debug)]
pub enum StreamEvent {
    /// The next bytes of the body arrived.
    Chunk(Vec<u8>),
    /// Reading the body failed; carries the transport's report.
    ReadFailed(String),
    /// The body ended.
    Closed,
}

/// What follows from an event.
#[derive(Debug)]
pub enum Step {
    /// Nothing is complete yet: read on with this buffer.
    Waiting(Reassembler),
    /// A record is complete: hand it on and read on with this buffer.
    Emitted(Reassembler, GenerationResponseChunk),
    /// The response has ended. Whatever the buffer held is dropped.
    Completed,
    /// The response is lost to a transport failure, and the buffer with it.
    Failed(Error),
}

/// Decides what follows from `event`, given the buffer so far.
pub fn step(reassembler: Reassembler, event: StreamEvent) -> (r: Step)
    ensures
        match event {
            StreamEvent::Chunk(chunk) => match feed_spec(reassembler@, chunk@).1 {
                Some(text) => r matches Step::Emitted(next, record) && next@ == feed_spec(
                    reassembler@,
                    chunk@,
                ).0 && record@ == text,
                None => r matches Step::Waiting(next) && next@ == feed_spec(
                    reassembler@,
                    chunk@,
                ).0,
            },
            StreamEvent::ReadFailed(report) => r == Step::Failed(Error::Request(report)),
            StreamEvent::Closed => r == Step::Completed,
        },
{
    match event {
        StreamEvent::Chunk(chunk) => {
            let mut reassembler = reassembler;
            match reassembler.feed(chunk.as_slice()) {
                Some(record) => Step::Emitted(reassembler, record),
                None => Step::Waiting(reassembler),
            }
        },
        StreamEvent::ReadFailed(report) => Step::Failed(Error::Request(report)),
        StreamEvent::Closed => Step::Completed,
    }
}

/// How a response ended: the records produced, oldest first, and the failure
/// that cut it short, if one did.
pub struct Outcome {
    pub records: Seq<Seq<char>>,
    pub failure: Option<Error>,
}

/// The outcome of `events` for a reassembly that stands at `progress`.
///
/// Events are taken in order up to the first that ends the response: a close
/// or a read failure. What comes after it is never looked at. Running out of
/// events counts as a close.
pub open spec fn relay_from(progress: Progress, events: Seq<StreamEvent>) -> Outcome
    decreases events.len(),
{
    if events.len() == 0 {
        Outcome { records: progress.records, failure: None }
    } else {
        match events.first() {
            StreamEvent::Chunk(chunk) => relay_from(
                advance(progress, chunk@),
                events.drop_first(),
            ),
            StreamEvent::ReadFailed(report) => Outcome {
                records: progress.records,
                failure: Some(Error::Request(report)),
            },
            StreamEvent::Closed => Outcome { records: progress.records, failure: None },
        }
    }
}

/// The outcome of `events` for a fresh response.
pub open spec fn relay_spec(events: Seq<StreamEvent>) -> Outcome {
    relay_from(start(), events)
}

/// What [`relay`] returns.
#[derive(Debug)]
pub struct Relayed {
    /// The records produced before the response ended, oldest first.
    pub records: Vec<GenerationResponseChunk>,
    /// The transport failure that ended the response, if one did.
    pub failure: Option<Error>,
}

impl Relayed {
    /// The response as a whole: its records, or the failure alone where there
    /// was one.
    pub fn into_result(self) -> (r: Result<Vec<GenerationResponseChunk>, Error>)
        ensures
            match self.failure {
                Some(error) => r == Err::<Vec<GenerationResponseChunk>, Error>(error),
                None => r == Ok::<Vec<GenerationResponseChunk>, Error>(self.records),
            },
    {
        match self.failure {
            Some(error) => Err(error),
            None => Ok(self.records),
        }
    }
}

/// Runs a recorded response through the reassembler.
///
/// Returns the records that the chunks before the first close or read failure
/// complete, and the failure if that is how the response ended.
pub fn relay(events: Vec<StreamEvent>) -> (r: Relayed)
    ensures
        texts(r.records@) == relay_spec(events@).records,
        r.failure == relay_spec(events@).failure,
{
    let ghost all = events@;
    let mut reassembler = Reassembler::new();
    let mut records: Vec<GenerationResponseChunk> = Vec::new();
    let mut failure: Option<Error> = None;
    let mut ended = false;
    proof {
        assert(texts(records@) =~= start().records);
        assert(all.skip(0) =~= all);
    }
    for event in it: events
        invariant
            it.seq() == all,
            ended ==> texts(records@) == relay_spec(all).records && failure == relay_spec(
                all,
            ).failure,
            !ended ==> failure is None && relay_spec(all) == relay_from(
                Progress { buffer: reassembler@, records: texts(records@) },
                all.skip(it.index() as int),
            ),
    {
        if !ended {
            let ghost pending = all.skip(it.index() as int);
            let ghost before = records@;
            proof {
                assert(pending.first() == event);
                assert(pending.drop_first() =~= all.skip(it.index() + 1));
            }
            match step(reassembler, event) {
                Step::Waiting(next) => {
                    reassembler = next;
                },
                Step::Emitted(next, record) => {
                    reassembler = next;
                    records.push(record);
                    assert(texts(records@) =~= texts(before).push(record@));
                },
                Step::Completed => {
                    reassembler = Reassembler::new();
                    ended = true;
                },
                Step::Failed(error) => {
                    reassembler = Reassembler::new();
                    failure = Some(error);
                    ended = true;
                },
            }
        }
    }
    Relayed { records, failure }
}

} // verus!
