//! Joining the chunks of a streamed response back into records.
//!
//! Chunk boundaries are the transport's, not the protocol's: one record may
//! arrive in several chunks. Each chunk is decoded and appended to a buffer;
//! after every append the whole buffer is read as one record. If it is one,
//! the record is emitted and the buffer starts over; if not, the buffer waits
//! for more.

use vstd::prelude::*;
use vstd::string::StringExecFns;
use crate::record::{parse_record, record_of, GenerationResponseChunk};
use crate::text::{chunk_text, decode_chunk};

verus! {

/// Where a reassembly stands: the text waiting in the buffer and the records
/// emitted so far, oldest first.
pub struct Progress {
    pub buffer: Seq<char>,
    pub records: Seq<Seq<char>>,
}

/// The start of a reassembly: nothing buffered, nothing emitted.
pub open spec fn start() -> Progress {
    Progress { buffer: Seq::empty(), records: Seq::empty() }
}

/// The buffer after `chunk` arrives on top of `buffer`, and the record that
/// its arrival completes, if any.
pub open spec fn feed_spec(buffer: Seq<char>, chunk: Seq<u8>) -> (Seq<char>, Option<Seq<char>>) {
    let text = buffer + chunk_text(chunk);
    match record_of(text) {
        Some(record) => (Seq::empty(), Some(record)),
        None => (text, None),
    }
}

/// `progress` after one more chunk.
pub open spec fn advance(progress: Progress, chunk: Seq<u8>) -> Progress {
    let (buffer, emitted) = feed_spec(progress.buffer, chunk);
    Progress {
        buffer,
        records: match emitted {
            Some(record) => progress.records.push(record),
            None => progress.records,
        },
    }
}

/// `progress` after the chunks of `chunks`, taken in order.
pub open spec fn run_from(progress: Progress, chunks: Seq<Seq<u8>>) -> Progress
    decreases chunks.len(),
{
    if chunks.len() == 0 {
        progress
    } else {
        advance(run_from(progress, chunks.drop_last()), chunks.last())
    }
}

/// A whole reassembly of `chunks`, from the start.
pub open spec fn run(chunks: Seq<Seq<u8>>) -> Progress {
    run_from(start(), chunks)
}

/// The bytes of each chunk.
pub open spec fn chunk_bytes(chunks: Seq<Vec<u8>>) -> Seq<Seq<u8>> {
    chunks.map_values(|chunk: Vec<u8>| chunk@)
}

/// The text of each record.
pub open spec fn texts(records: Seq<GenerationResponseChunk>) -> Seq<Seq<char>> {
    records.map_values(|record: GenerationResponseChunk| record@)
}

/// The buffer of one response stream.
#[derive(Debug)]
pub struct Reassembler {
    buffer: String,
}

impl View for Reassembler {
    type V = Seq<char>;

    /// The text waiting in the buffer.
    closed spec fn view(&self) -> Seq<char> {
        self.buffer@
    }
}

impl Reassembler {
    /// An empty buffer.
    pub fn new() -> (r: Self)
        ensures
            r@ == Seq::<char>::empty(),
    {
        Reassembler { buffer: String::new() }
    }

    /// The text waiting in the buffer.
    pub fn buffered(&self) -> (r: &str)
        ensures
            r@ == self@,
    {
        self.buffer.as_str()
    }

    /// Appends `text` to the buffer.
    pub fn append(&mut self, text: &str)
        ensures
            final(self)@ == old(self)@ + text@,
    {
        self.buffer.append(text);
    }

    /// Acts on a reading of the buffer. `reading` is the record that the
    /// buffer was found to spell, or `None` where it spells none yet: a
    /// record is handed on and the buffer starts over, and without one the
    /// buffer stays as it is.
    pub fn settle(&mut self, reading: Option<GenerationResponseChunk>) -> (r: Option<
        GenerationResponseChunk,
    >)
        ensures
            r == reading,
            final(self)@ == if reading is Some {
                Seq::<char>::empty()
            } else {
                old(self)@
            },
    {
        if reading.is_some() {
            self.buffer = String::new();
        }
        reading
    }

    /// Takes the next chunk of the stream.
    ///
    /// Returns the record that the chunk completes and empties the buffer, or
    /// keeps the chunk's text in the buffer and returns `None`.
    pub fn feed(&mut self, chunk: &[u8]) -> (r: Option<GenerationResponseChunk>)
        ensures
            final(self)@ == feed_spec(old(self)@, chunk@).0,
            match r {
                Some(record) => feed_spec(old(self)@, chunk@).1 == Some(record@),
                None => feed_spec(old(self)@, chunk@).1 is None,
            },
    {
        let text = decode_chunk(chunk);
        self.append(text.as_str());
        let reading = parse_record(self.buffer.as_str());
        self.settle(reading)
    }
}

/// Reassembles a response that has arrived in full.
///
/// Returns the records that the chunks complete, in the order of arrival.
/// Text left in the buffer after the last chunk is dropped.
pub fn reassemble(chunks: &Vec<Vec<u8>>) -> (records: Vec<GenerationResponseChunk>)
    ensures
        texts(records@) == run(chunk_bytes(chunks@)).records,
{
    let ghost bytes = chunk_bytes(chunks@);
    let mut reassembler = Reassembler::new();
    let mut records: Vec<GenerationResponseChunk> = Vec::new();
    let mut i: usize = 0;
    while i < chunks.len()
        invariant
            i <= chunks.len(),
            bytes == chunk_bytes(chunks@),
            reassembler@ == run(bytes.take(i as int)).buffer,
            texts(records@) == run(bytes.take(i as int)).records,
        decreases chunks.len() - i,
    {
        proof {
            assert(bytes.take(i + 1).drop_last() =~= bytes.take(i as int));
            assert(bytes.take(i + 1).last() == chunks@[i as int]@);
        }
        let ghost before = records@;
        match reassembler.feed(chunks[i].as_slice()) {
            Some(record) => {
                records.push(record);
                assert(texts(records@) =~= texts(before).push(record@));
            },
            None => {},
        }
        i += 1;
    }
    proof {
        assert(bytes.take(chunks.len() as int) =~= bytes);
    }
    records
}

} // verus!
