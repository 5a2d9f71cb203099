//! The chunk codec: how a file is cut into pieces, how the pieces and the
//! record of their number are named, and which records a stored file makes.

use crate::text::{chars_of, decimal, decimal_string, slice_text};
use vstd::prelude::*;
use vstd::utf8::encode_utf8;

verus! {

/// Characters in a chunk, but for the last one of a file, which may hold fewer.
pub const CHUNK_CHARS: usize = 500;

/// Peers that must acknowledge a write.
pub const WRITE_QUORUM: usize = 3;

/// A record of the distributed hash table, as contracts see it.
pub struct RecordView {
    pub key: Seq<u8>,
    pub value: Seq<u8>,
}

/// A record of the distributed hash table: a key and a value, both bytes.
#[derive(Clone, Debug, PartialEq, Eq)]
pub struct Record {
    pub key: Vec<u8>,
    pub value: Vec<u8>,
}

impl View for Record {
    type V = RecordView;

    open spec fn view(&self) -> RecordView {
        RecordView { key: self.key@, value: self.value@ }
    }
}

/// The views of a vector of records, in order.
pub open spec fn record_views(records: Seq<Record>) -> Seq<RecordView> {
    Seq::new(records.len(), |i: int| records[i]@)
}

/// How many chunks a file of `len` characters is cut into: `len / 500`, rounded up.
pub open spec fn chunk_count(len: nat) -> nat {
    (len + CHUNK_CHARS - 1) as nat / (CHUNK_CHARS as nat)
}

/// The characters of chunk `index` of `content`.
pub open spec fn chunk_text(content: Seq<char>, index: int) -> Seq<char> {
    let from = index * CHUNK_CHARS;
    let to = if from + CHUNK_CHARS <= content.len() {
        from + CHUNK_CHARS
    } else {
        content.len() as int
    };
    content.subrange(from, to)
}

/// The key of chunk `index` out of `total` of the file stored under
/// `file_key`: the file key, the index and the total, joined by `_`.
pub open spec fn chunk_key_text(file_key: Seq<char>, index: nat, total: nat) -> Seq<char> {
    file_key + seq!['_'] + decimal(index) + seq!['_'] + decimal(total)
}

/// The key of the record that holds the number of chunks of a file.
pub open spec fn total_key_text(file_key: Seq<char>) -> Seq<char> {
    file_key + "_total"@
}

/// The name of the file in which a retrieved file is put together.
pub open spec fn reassembly_name(file_key: Seq<char>) -> Seq<char> {
    file_key + ".txt"@
}

/// The record of chunk `index` of a file.
pub open spec fn chunk_record(file_key: Seq<char>, content: Seq<char>, index: int) -> RecordView {
    RecordView {
        key: encode_utf8(chunk_key_text(file_key, index as nat, chunk_count(content.len()))),
        value: encode_utf8(chunk_text(content, index)),
    }
}

/// The record that holds the number of chunks of a file, as a decimal numeral.
pub open spec fn total_record(file_key: Seq<char>, content: Seq<char>) -> RecordView {
    RecordView {
        key: encode_utf8(total_key_text(file_key)),
        value: encode_utf8(decimal(chunk_count(content.len()))),
    }
}

/// The records that storing `content` under `file_key` makes, in the order
/// in which they are written: the chunks from the first to the last, then
/// the record of their number.
pub open spec fn file_records(file_key: Seq<char>, content: Seq<char>) -> Seq<RecordView> {
    let total = chunk_count(content.len());
    Seq::new(
        total + 1,
        |i: int|
            if i < total {
                chunk_record(file_key, content, i)
            } else {
                total_record(file_key, content)
            },
    )
}

/// The number of chunks is the length divided by the chunk size, rounded
/// up: enough chunks to hold every character, and not one more.
pub proof fn lemma_chunk_count(len: nat)
    ensures
        chunk_count(len) * CHUNK_CHARS >= len,
        len > 0 ==> (chunk_count(len) - 1) * CHUNK_CHARS < len,
        len == 0 <==> chunk_count(len) == 0,
        chunk_count(len) == len / (CHUNK_CHARS as nat) + if len % (CHUNK_CHARS as nat) == 0 {
            0nat
        } else {
            1nat
        },
{
}

/// Storing a file makes one record for each chunk, as many as the file's
/// length divided by 500 and rounded up, and after them one record for
/// their number.
pub proof fn law_file_record_count(file_key: Seq<char>, content: Seq<char>)
    ensures
        file_records(file_key, content).len() == chunk_count(content.len()) + 1,
        chunk_count(content.len()) * CHUNK_CHARS >= content.len(),
        content.len() > 0 ==> (chunk_count(content.len()) - 1) * CHUNK_CHARS < content.len(),
        forall|i: int|
            0 <= i < chunk_count(content.len()) ==> file_records(file_key, content)[i]
                == chunk_record(file_key, content, i),
        file_records(file_key, content)[chunk_count(content.len()) as int] == total_record(
            file_key,
            content,
        ),
{
    lemma_chunk_count(content.len());
}

/// The key of one chunk.
pub fn chunk_key(file_key: &str, index: usize, total: usize) -> (key: String)
    ensures
        key@ == chunk_key_text(file_key@, index as nat, total as nat),
{
    let mut key = String::from_str(file_key);
    key.append("_");
    key.append(decimal_string(index).as_str());
    key.append("_");
    key.append(decimal_string(total).as_str());
    proof {
        reveal_strlit("_");
        assert("_"@ =~= seq!['_']);
    }
    key
}

/// The key of the record that holds the number of chunks.
pub fn total_key(file_key: &str) -> (key: String)
    ensures
        key@ == total_key_text(file_key@),
{
    let mut key = String::from_str(file_key);
    key.append("_total");
    key
}

/// The name of the file in which the chunks of `file_key` are put together.
pub fn reassembly_file(file_key: &str) -> (name: String)
    ensures
        name@ == reassembly_name(file_key@),
{
    let mut name = String::from_str(file_key);
    name.append(".txt");
    name
}

/// Cuts `content` into chunks of up to 500 characters and gives the records
/// to write for it under `file_key`: one per chunk, in order, then the
/// record of their number. An empty file makes that last record alone.
pub fn encode_file(file_key: &str, content: &str) -> (records: Vec<Record>)
    ensures
        record_views(records@) == file_records(file_key@, content@),
        records@.len() == chunk_count(content@.len()) + 1,
{
    let chars = chars_of(content);
    let len = chars.len();
    let total = len / CHUNK_CHARS + if len % CHUNK_CHARS == 0 {
        0
    } else {
        1
    };
    proof {
        lemma_chunk_count(len as nat);
    }
    let mut records: Vec<Record> = Vec::new();
    let mut index: usize = 0;
    while index < total
        invariant
            index <= total,
            chars@ == content@,
            len == content@.len(),
            total == chunk_count(len as nat),
            records@.len() == index,
            forall|i: int| 0 <= i < index ==> records@[i]@ == chunk_record(file_key@, content@, i),
        decreases total - index,
    {
        proof {
            lemma_chunk_count(len as nat);
            assert(index * CHUNK_CHARS <= (total - 1) * CHUNK_CHARS) by (nonlinear_arith)
                requires
                    index <= total - 1,
            ;
        }
        let from = index * CHUNK_CHARS;
        let to = if len - from >= CHUNK_CHARS {
            from + CHUNK_CHARS
        } else {
            len
        };
        let piece = slice_text(&chars, from, to);
        let key = chunk_key(file_key, index, total);
        records.push(
            Record { key: key.as_str().as_bytes_vec(), value: piece.as_str().as_bytes_vec() },
        );
        index = index + 1;
    }
    let key = total_key(file_key);
    let count = decimal_string(total);
    records.push(Record { key: key.as_str().as_bytes_vec(), value: count.as_str().as_bytes_vec() });
    assert(record_views(records@) =~= file_records(file_key@, content@));
    records
}

} // verus!
