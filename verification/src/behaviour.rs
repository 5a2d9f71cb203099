//! What the node does when the distributed hash table reports a finished
//! query. A retrieved record is told apart by the shape of its key: no `_`
//! is a plain value, one `_` is the number of chunks of a file, two are one
//! chunk of a file, and anything else is not a key this node writes.
//!
//! A file is retrieved one lookup at a time. Each record that arrives holds
//! enough to decide the next step, so nothing is remembered between them.

use crate::chunk::{chunk_key, chunk_key_text, reassembly_file, reassembly_name, Record};
use crate::node::{get_request, DhtRequest, Quorum, RequestView};
use crate::text::{
    bytes_to_text, lemma_split_len, lossy_text, parse_count, parse_usize, split, split_on, texts,
};
use vstd::prelude::*;

verus! {

/// One chunk to write, as contracts see it.
pub struct ChunkView {
    pub key: Seq<char>,
    pub file_key: Seq<char>,
    pub file_name: Seq<char>,
    pub index: usize,
    pub total: usize,
    pub index_readable: bool,
    pub total_readable: bool,
    pub truncate: bool,
    pub data: Seq<u8>,
}

/// One retrieved chunk and where it goes.
#[derive(Clone, Debug, PartialEq, Eq)]
pub struct ChunkWrite {
    /// The key the chunk arrived under.
    pub key: String,
    /// The key of the file it belongs to.
    pub file_key: String,
    /// The name of the file it is written to, in the working directory.
    pub file_name: String,
    /// The chunk's index: zero where the key's index is not a number.
    pub index: usize,
    /// The number of chunks: zero where the key's total is not a number.
    pub total: usize,
    /// Whether the key's index is a number.
    pub index_readable: bool,
    /// Whether the key's total is a number.
    pub total_readable: bool,
    /// Whether the file is emptied before the write. Otherwise the chunk is
    /// appended.
    pub truncate: bool,
    /// The bytes to write.
    pub data: Vec<u8>,
}

impl View for ChunkWrite {
    type V = ChunkView;

    open spec fn view(&self) -> ChunkView {
        ChunkView {
            key: self.key@,
            file_key: self.file_key@,
            file_name: self.file_name@,
            index: self.index,
            total: self.total,
            index_readable: self.index_readable,
            total_readable: self.total_readable,
            truncate: self.truncate,
            data: self.data@,
        }
    }
}

/// The step that one retrieved record calls for, as contracts see it.
pub enum StepView {
    Traditional { key: Seq<char>, value: Seq<char> },
    NoChunks { key: Seq<char>, readable: bool },
    FirstChunk { file_key: Seq<char>, total: usize, request: RequestView },
    Chunk(ChunkView),
    Unexpected { key: Seq<char> },
}

/// The step that one retrieved record calls for.
#[derive(Clone, Debug, PartialEq, Eq)]
pub enum RecordStep {
    /// A plain value: show it to the operator.
    Traditional { key: String, value: String },
    /// The number of chunks of a file, and it is zero or not a number
    /// (`readable` tells which): report it and retrieve nothing.
    NoChunks { key: String, readable: bool },
    /// The number of chunks of a file: look the first chunk up.
    FirstChunk { file_key: String, total: usize, request: DhtRequest },
    /// A chunk of a file: write it, then see [`ChunkWrite::after_write`].
    Chunk(ChunkWrite),
    /// A key of no known shape: report it and drop the record.
    Unexpected { key: String },
}

impl View for RecordStep {
    type V = StepView;

    open spec fn view(&self) -> StepView {
        match self {
            RecordStep::Traditional { key, value } => StepView::Traditional {
                key: key@,
                value: value@,
            },
            RecordStep::NoChunks { key, readable } => StepView::NoChunks {
                key: key@,
                readable: *readable,
            },
            RecordStep::FirstChunk { file_key, total, request } => StepView::FirstChunk {
                file_key: file_key@,
                total: *total,
                request: request@,
            },
            RecordStep::Chunk(chunk) => StepView::Chunk(chunk@),
            RecordStep::Unexpected { key } => StepView::Unexpected { key: key@ },
        }
    }
}

/// A numeral read as a count, with zero for what is not a count.
pub open spec fn count_or_zero(s: Seq<char>) -> usize {
    match parse_count(s) {
        Some(n) => n,
        None => 0,
    }
}

/// The chunk that a record under a key of three parts holds.
pub open spec fn chunk_of(key: Seq<char>, value: Seq<u8>) -> ChunkView {
    let parts = split(key, '_');
    ChunkView {
        key,
        file_key: parts[0],
        file_name: reassembly_name(parts[0]),
        index: count_or_zero(parts[1]),
        total: count_or_zero(parts[2]),
        index_readable: parse_count(parts[1]) is Some,
        total_readable: parse_count(parts[2]) is Some,
        truncate: count_or_zero(parts[1]) == 0,
        data: value,
    }
}

/// The step that the record with key `key` and value `value` calls for.
pub open spec fn record_step(key: Seq<char>, value: Seq<u8>) -> StepView {
    let parts = split(key, '_');
    if parts.len() == 1 {
        StepView::Traditional { key, value: lossy_text(value) }
    } else if parts.len() == 2 {
        let total = count_or_zero(lossy_text(value));
        if total == 0 {
            StepView::NoChunks { key, readable: parse_count(lossy_text(value)) is Some }
        } else {
            StepView::FirstChunk {
                file_key: parts[0],
                total,
                request: get_request(chunk_key_text(parts[0], 0, total as nat)),
            }
        }
    } else if parts.len() == 3 {
        StepView::Chunk(chunk_of(key, value))
    } else {
        StepView::Unexpected { key }
    }
}

/// The lookup of one chunk.
fn chunk_lookup(file_key: &str, index: usize, total: usize) -> (request: DhtRequest)
    ensures
        request@ == get_request(chunk_key_text(file_key@, index as nat, total as nat)),
{
    let key = chunk_key(file_key, index, total);
    DhtRequest::Get { key: key.as_str().as_bytes_vec(), quorum: Quorum::One }
}

/// Decides the step for a retrieved record whose key has been read as text.
pub fn step_for(key: String, value: Vec<u8>) -> (step: RecordStep)
    ensures
        step@ == record_step(key@, value@),
{
    let parts = split_on(key.as_str(), '_');
    proof {
        lemma_split_len(key@, '_');
        assert(forall|i: int| 0 <= i < parts@.len() ==> parts@[i]@ == texts(parts@)[i]);
    }
    if parts.len() == 1 {
        let text = bytes_to_text(value.as_slice());
        RecordStep::Traditional { key, value: text }
    } else if parts.len() == 2 {
        let text = bytes_to_text(value.as_slice());
        match parse_usize(text.as_str()) {
            None => RecordStep::NoChunks { key, readable: false },
            Some(total) => {
                if total == 0 {
                    RecordStep::NoChunks { key, readable: true }
                } else {
                    let file_key = parts[0].clone();
                    let request = chunk_lookup(file_key.as_str(), 0, total);
                    RecordStep::FirstChunk { file_key, total, request }
                }
            },
        }
    } else if parts.len() == 3 {
        let file_key = parts[0].clone();
        let index = parse_usize(parts[1].as_str());
        let total = parse_usize(parts[2].as_str());
        let index_value = match index {
            Some(n) => n,
            None => 0,
        };
        let total_value = match total {
            Some(n) => n,
            None => 0,
        };
        let file_name = reassembly_file(file_key.as_str());
        RecordStep::Chunk(
            ChunkWrite {
                key,
                file_key,
                file_name,
                index: index_value,
                total: total_value,
                index_readable: index.is_some(),
                total_readable: total.is_some(),
                truncate: index_value == 0,
                data: value,
            },
        )
    } else {
        RecordStep::Unexpected { key }
    }
}

/// Decides the step for a retrieved record. The key's bytes are read as
/// text first, with a replacement character for what is not valid UTF-8.
pub fn on_record(record: Record) -> (step: RecordStep)
    ensures
        step@ == record_step(lossy_text(record.key@), record.value@),
{
    let key = bytes_to_text(record.key.as_slice());
    step_for(key, record.value)
}

/// What happened to a chunk that was to be written.
#[derive(Clone, Debug, PartialEq, Eq)]
pub enum WriteOutcome {
    /// The chunk is in the file.
    Written,
    /// The file could not be opened; the text says why.
    OpenFailed(String),
    /// The file was opened and the write failed; the text says why.
    WriteFailed(String),
}

/// How a retrieval goes on after a chunk, as contracts see it.
pub enum ProgressView {
    Halted,
    Complete,
    Next(RequestView),
}

/// How a retrieval goes on after a chunk.
#[derive(Clone, Debug, PartialEq, Eq)]
pub enum Progress {
    /// The retrieval ends here, unfinished.
    Halted,
    /// The chunk was the last one: the file is complete.
    Complete,
    /// The next chunk is to be looked up.
    Next(DhtRequest),
}

impl View for Progress {
    type V = ProgressView;

    open spec fn view(&self) -> ProgressView {
        match self {
            Progress::Halted => ProgressView::Halted,
            Progress::Complete => ProgressView::Complete,
            Progress::Next(request) => ProgressView::Next(request@),
        }
    }
}

/// How the retrieval goes on after `chunk`. After a failed write it halts.
/// After the last chunk, the one whose index is one below the total, it is
/// complete. After an earlier chunk the chunk with the next index is looked
/// up. A chunk whose index is not below the total ends the retrieval.
pub open spec fn progress_after(chunk: ChunkView, written: bool) -> ProgressView {
    if !written {
        ProgressView::Halted
    } else if chunk.index + 1 == chunk.total {
        ProgressView::Complete
    } else if chunk.index + 1 < chunk.total {
        ProgressView::Next(
            get_request(chunk_key_text(chunk.file_key, (chunk.index + 1) as nat, chunk.total as nat)),
        )
    } else {
        ProgressView::Halted
    }
}

impl ChunkWrite {
    /// Decides how the retrieval goes on once the chunk was written, or
    /// could not be.
    pub fn after_write(&self, outcome: &WriteOutcome) -> (progress: Progress)
        ensures
            progress@ == progress_after(self@, outcome is Written),
    {
        match outcome {
            WriteOutcome::Written => {
                if self.index >= self.total {
                    Progress::Halted
                } else if self.index + 1 == self.total {
                    Progress::Complete
                } else {
                    Progress::Next(
                        chunk_lookup(self.file_key.as_str(), self.index + 1, self.total),
                    )
                }
            },
            _ => Progress::Halted,
        }
    }
}

} // verus!
