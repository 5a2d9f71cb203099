//! What storing and retrieving amount to together: a model of the lookups
//! that a retrieval makes against a table of records, and the proofs that a
//! stored value and a stored file come back as they went in.

use crate::behaviour::{
    chunk_of, count_or_zero, progress_after, record_step, ChunkView, ProgressView, StepView,
};
use crate::chunk::{
    chunk_count, chunk_key_text, chunk_record, chunk_text, file_records, lemma_chunk_count,
    reassembly_name, total_key_text, total_record, RecordView, CHUNK_CHARS,
};
use crate::node::{get_request, put_request, Quorum, RequestView};
use crate::text::{
    decimal, law_decimal_round_trip, lemma_decimal_digits, lemma_split_joined, lemma_split_whole,
    lossy_text, parse_count, split,
};
use vstd::prelude::*;
use vstd::utf8::{encode_utf8, encode_utf8_decode_utf8, encode_utf8_valid_utf8};

verus! {

/// Text written as UTF-8 reads back as the same text.
pub proof fn lemma_text_round_trip(s: Seq<char>)
    ensures
        lossy_text(encode_utf8(s)) == s,
{
    encode_utf8_valid_utf8(s);
    encode_utf8_decode_utf8(s);
}

/// The UTF-8 bytes of two texts joined are the bytes of the first followed
/// by the bytes of the second.
pub proof fn lemma_encode_utf8_concat(a: Seq<char>, b: Seq<char>)
    ensures
        encode_utf8(a + b) == encode_utf8(a) + encode_utf8(b),
    decreases a.len(),
{
    if a.len() == 0 {
        assert(a + b =~= b);
        assert(encode_utf8(a) + encode_utf8(b) =~= encode_utf8(b));
    } else {
        lemma_encode_utf8_concat(a.drop_first(), b);
        assert((a + b).drop_first() =~= a.drop_first() + b);
        assert((a + b)[0] == a[0]);
        assert(encode_utf8(a + b) =~= encode_utf8(a) + encode_utf8(b));
    }
}

/// The key of a file's chunk count splits into the file key and one more part.
pub proof fn lemma_total_key_parts(file_key: Seq<char>)
    requires
        !file_key.contains('_'),
    ensures
        split(total_key_text(file_key), '_') == seq![file_key, "total"@],
{
    reveal_strlit("_total");
    reveal_strlit("total");
    let tail = "total"@;
    assert(!tail.contains('_'));
    assert(total_key_text(file_key) =~= file_key + seq!['_'] + tail);
    lemma_split_joined(file_key, '_', tail);
    lemma_split_whole(tail, '_');
}

/// The key of a chunk splits into the file key, the index and the total.
pub proof fn lemma_chunk_key_parts(file_key: Seq<char>, index: nat, total: nat)
    requires
        !file_key.contains('_'),
    ensures
        split(chunk_key_text(file_key, index, total), '_') == seq![
            file_key,
            decimal(index),
            decimal(total),
        ],
{
    lemma_decimal_digits(index);
    lemma_decimal_digits(total);
    let tail = decimal(index) + seq!['_'] + decimal(total);
    assert(chunk_key_text(file_key, index, total) =~= file_key + seq!['_'] + tail);
    lemma_split_joined(file_key, '_', tail);
    lemma_split_joined(decimal(index), '_', decimal(total));
    lemma_split_whole(decimal(total), '_');
}

/// A numeral written for a count that fits the machine reads back as that count.
pub proof fn lemma_count_round_trip(n: nat)
    requires
        n <= usize::MAX,
    ensures
        parse_count(decimal(n)) == Some(n as usize),
        count_or_zero(decimal(n)) == n,
{
    law_decimal_round_trip(n);
}

/// A value stored under a key without `_` and then looked up under that
/// key comes back as a plain value under that key: the write and the lookup
/// name the same record key, and the step for the stored record shows the
/// key with the value's text. Where the value is the UTF-8 of a text, that
/// text is shown unchanged.
pub proof fn law_value_round_trip(key: Seq<char>, value: Seq<u8>)
    requires
        !key.contains('_'),
    ensures
        put_request(key, value) matches RequestView::Put { record, .. } && get_request(key)
            matches RequestView::Get { key: asked, .. } && asked == record.key && record_step(
            lossy_text(record.key),
            record.value,
        ) == (StepView::Traditional { key, value: lossy_text(value) }),
        forall|text: Seq<char>| value == encode_utf8(text) ==> lossy_text(value) == text,
{
    lemma_text_round_trip(key);
    lemma_split_whole(key, '_');
    assert forall|text: Seq<char>| value == encode_utf8(text) implies lossy_text(value)
        == text by {
        lemma_text_round_trip(text);
    }
}

/// A record that says a file has no chunks, or whose value is no count,
/// starts no retrieval.
pub proof fn law_zero_total_starts_nothing(key: Seq<char>, value: Seq<u8>)
    requires
        split(key, '_').len() == 2,
        count_or_zero(lossy_text(value)) == 0,
    ensures
        record_step(key, value) is NoChunks,
{
}

/// The record that an empty file leaves behind starts no retrieval.
pub proof fn law_empty_file_starts_nothing(file_key: Seq<char>)
    requires
        !file_key.contains('_'),
    ensures
        file_records(file_key, Seq::<char>::empty()) == seq![
            total_record(file_key, Seq::<char>::empty()),
        ],
        record_step(
            lossy_text(total_record(file_key, Seq::<char>::empty()).key),
            total_record(file_key, Seq::<char>::empty()).value,
        ) == (StepView::NoChunks { key: total_key_text(file_key), readable: true }),
{
    let empty = Seq::<char>::empty();
    assert(chunk_count(0) == 0);
    assert(file_records(file_key, empty) =~= seq![total_record(file_key, empty)]);
    lemma_text_round_trip(total_key_text(file_key));
    lemma_text_round_trip(decimal(0));
    lemma_total_key_parts(file_key);
    lemma_count_round_trip(0);
}

/// A key with three or more `_` is of no known shape, whatever the record holds.
pub proof fn law_spurious_underscores_dropped(key: Seq<char>, value: Seq<u8>)
    requires
        split(key, '_').len() >= 4,
    ensures
        record_step(key, value) == (StepView::Unexpected { key }),
{
}

/// A chunk empties the file before it is written exactly when its index
/// is zero or not a number; the first chunk of a stored file always does.
pub proof fn law_first_chunk_truncates(key: Seq<char>, value: Seq<u8>)
    requires
        split(key, '_').len() == 3,
    ensures
        record_step(key, value) matches StepView::Chunk(chunk) && (chunk.truncate <==> chunk.index
            == 0),
        forall|file_key: Seq<char>, total: nat|
            !file_key.contains('_') && key == chunk_key_text(file_key, 0, total) ==> chunk_of(
                key,
                value,
            ).truncate,
{
    assert forall|file_key: Seq<char>, total: nat|
        !file_key.contains('_') && key == chunk_key_text(file_key, 0, total) implies chunk_of(
        key,
        value,
    ).truncate by {
        lemma_chunk_key_parts(file_key, 0, total);
        lemma_count_round_trip(0);
    }
}

/// Whether `table` holds `record`.
pub open spec fn holds(table: Map<Seq<u8>, Seq<u8>>, record: RecordView) -> bool {
    table.dom().contains(record.key) && table[record.key] == record.value
}

/// The files of the working directory once `chunk` is written: its bytes
/// replace the file where the chunk truncates or no file is there, and
/// follow what the file holds otherwise.
pub open spec fn write_chunk(
    files: Map<Seq<char>, Seq<u8>>,
    chunk: ChunkView,
) -> Map<Seq<char>, Seq<u8>> {
    let before = if chunk.truncate || !files.dom().contains(chunk.file_name) {
        Seq::<u8>::empty()
    } else {
        files[chunk.file_name]
    };
    files.insert(chunk.file_name, before + chunk.data)
}

/// Where a retrieval ended: the files it left, and whether it saw the last chunk.
pub struct Walk {
    pub files: Map<Seq<char>, Seq<u8>>,
    pub complete: bool,
}

/// The retrieval that starts with `request` against the records of `table`,
/// with every write succeeding, for at most `steps` lookups. A lookup of a
/// key that the table does not hold fails, and the retrieval halts there.
pub open spec fn retrieve(
    table: Map<Seq<u8>, Seq<u8>>,
    request: RequestView,
    files: Map<Seq<char>, Seq<u8>>,
    steps: nat,
) -> Walk
    decreases steps,
{
    if steps == 0 {
        Walk { files, complete: false }
    } else {
        match request {
            RequestView::Get { key, .. } => if table.dom().contains(key) {
                match record_step(lossy_text(key), table[key]) {
                    StepView::FirstChunk { request, .. } => retrieve(
                        table,
                        request,
                        files,
                        (steps - 1) as nat,
                    ),
                    StepView::Chunk(chunk) => match progress_after(chunk, true) {
                        ProgressView::Complete => Walk {
                            files: write_chunk(files, chunk),
                            complete: true,
                        },
                        ProgressView::Next(next) => retrieve(
                            table,
                            next,
                            write_chunk(files, chunk),
                            (steps - 1) as nat,
                        ),
                        ProgressView::Halted => Walk {
                            files: write_chunk(files, chunk),
                            complete: false,
                        },
                    },
                    _ => Walk { files, complete: false },
                }
            } else {
                Walk { files, complete: false }
            },
            RequestView::Put { .. } => Walk { files, complete: false },
        }
    }
}

/// The characters of a file that stand in its first `chunks` chunks.
pub open spec fn chunked_prefix(content: Seq<char>, chunks: nat) -> Seq<char> {
    if chunks * CHUNK_CHARS <= content.len() {
        content.take((chunks * CHUNK_CHARS) as int)
    } else {
        content
    }
}

/// The step for the record of chunk `index` of a stored file: a write of
/// the chunk's bytes to the file's reassembly file, under the index and the
/// total that the key was written with.
pub proof fn lemma_chunk_record_step(file_key: Seq<char>, content: Seq<char>, index: nat)
    requires
        !file_key.contains('_'),
        index < chunk_count(content.len()) <= usize::MAX,
    ensures
        record_step(
            lossy_text(chunk_record(file_key, content, index as int).key),
            chunk_record(file_key, content, index as int).value,
        ) matches StepView::Chunk(chunk) && {
            &&& chunk.file_key == file_key
            &&& chunk.file_name == reassembly_name(file_key)
            &&& chunk.index == index
            &&& chunk.total == chunk_count(content.len())
            &&& chunk.truncate == (index == 0)
            &&& chunk.data == encode_utf8(chunk_text(content, index as int))
        },
{
    let total = chunk_count(content.len());
    lemma_text_round_trip(chunk_key_text(file_key, index, total));
    lemma_chunk_key_parts(file_key, index, total);
    lemma_count_round_trip(index);
    lemma_count_round_trip(total);
}

/// From chunk `index` on, with the earlier chunks in the file, the walk
/// ends complete and the file holds the whole content.
proof fn lemma_retrieve_from(
    table: Map<Seq<u8>, Seq<u8>>,
    file_key: Seq<char>,
    content: Seq<char>,
    files: Map<Seq<char>, Seq<u8>>,
    index: nat,
)
    requires
        !file_key.contains('_'),
        index < chunk_count(content.len()) <= usize::MAX,
        forall|i: int|
            0 <= i < chunk_count(content.len()) ==> holds(
                table,
                #[trigger] chunk_record(file_key, content, i),
            ),
        index > 0 ==> files.dom().contains(reassembly_name(file_key)) && files[reassembly_name(
            file_key,
        )] == encode_utf8(chunked_prefix(content, index)),
    ensures
        ({
            let walk = retrieve(
                table,
                get_request(chunk_key_text(file_key, index, chunk_count(content.len()))),
                files,
                (chunk_count(content.len()) - index) as nat,
            );
            &&& walk.complete
            &&& walk.files.dom().contains(reassembly_name(file_key))
            &&& walk.files[reassembly_name(file_key)] == encode_utf8(content)
        }),
    decreases chunk_count(content.len()) - index,
{
    let total = chunk_count(content.len());
    let name = reassembly_name(file_key);
    let record = chunk_record(file_key, content, index as int);
    assert(holds(table, record));
    lemma_chunk_record_step(file_key, content, index);
    let chunk = chunk_of(lossy_text(record.key), record.value);
    lemma_text_round_trip(chunk_key_text(file_key, index, total));
    lemma_chunk_key_parts(file_key, index, total);
    assert(record_step(lossy_text(record.key), table[record.key]) == StepView::Chunk(chunk));
    let after = write_chunk(files, chunk);
    lemma_chunk_count(content.len());
    assert(index * CHUNK_CHARS <= (total - 1) * CHUNK_CHARS) by (nonlinear_arith)
        requires
            index <= total - 1,
    ;
    assert(chunked_prefix(content, index) + chunk_text(content, index as int) =~= chunked_prefix(
        content,
        index + 1,
    )) by {
        assert((index + 1) * CHUNK_CHARS == index * CHUNK_CHARS + CHUNK_CHARS) by (nonlinear_arith);
    }
    lemma_encode_utf8_concat(chunked_prefix(content, index), chunk_text(content, index as int));
    assert(after[name] == encode_utf8(chunked_prefix(content, index + 1))) by {
        if index == 0 {
            assert(chunked_prefix(content, 0) =~= Seq::<char>::empty());
            assert(Seq::<u8>::empty() + chunk.data =~= chunk.data);
            assert(encode_utf8(Seq::<char>::empty()) =~= Seq::<u8>::empty());
        }
    }
    if index + 1 == total {
        assert(chunked_prefix(content, index + 1) =~= content);
    } else {
        lemma_retrieve_from(table, file_key, content, after, index + 1);
    }
}

/// A stored file comes back whole. Against a table that holds every record
/// written for a file of at least one character, under a file key without
/// `_`, the retrieval that starts with the lookup of the file's chunk count
/// ends complete after one lookup for that count and one for each chunk,
/// and the reassembly file then holds the UTF-8 bytes of the file's text,
/// whatever it held before.
pub proof fn law_file_round_trip(
    table: Map<Seq<u8>, Seq<u8>>,
    file_key: Seq<char>,
    content: Seq<char>,
    files: Map<Seq<char>, Seq<u8>>,
)
    requires
        !file_key.contains('_'),
        0 < content.len(),
        chunk_count(content.len()) <= usize::MAX,
        forall|i: int|
            0 <= i < file_records(file_key, content).len() ==> holds(
                table,
                #[trigger] file_records(file_key, content)[i],
            ),
    ensures
        ({
            let walk = retrieve(
                table,
                get_request(total_key_text(file_key)),
                files,
                chunk_count(content.len()) + 1,
            );
            &&& walk.complete
            &&& walk.files.dom().contains(reassembly_name(file_key))
            &&& walk.files[reassembly_name(file_key)] == encode_utf8(content)
        }),
{
    let total = chunk_count(content.len());
    let records = file_records(file_key, content);
    lemma_chunk_count(content.len());
    assert(holds(table, records[total as int]));
    assert(records[total as int] == total_record(file_key, content));
    assert forall|i: int| 0 <= i < total implies holds(
        table,
        #[trigger] chunk_record(file_key, content, i),
    ) by {
        assert(holds(table, records[i]));
    }
    lemma_text_round_trip(total_key_text(file_key));
    lemma_text_round_trip(decimal(total));
    lemma_total_key_parts(file_key);
    lemma_count_round_trip(total);
    let first = get_request(chunk_key_text(file_key, 0, total));
    assert(record_step(
        lossy_text(encode_utf8(total_key_text(file_key))),
        table[encode_utf8(total_key_text(file_key))],
    ) == (StepView::FirstChunk { file_key, total: total as usize, request: first }));
    lemma_retrieve_from(table, file_key, content, files, 0);
}

/// A retrieval halts at the first record that the table does not hold.
pub proof fn law_missing_record_halts(
    table: Map<Seq<u8>, Seq<u8>>,
    key: Seq<u8>,
    files: Map<Seq<char>, Seq<u8>>,
    steps: nat,
)
    requires
        !table.dom().contains(key),
    ensures
        retrieve(table, RequestView::Get { key, quorum: Quorum::One }, files, steps)
            == (Walk { files, complete: false }),
{
}

/// Two numbers with the same shortest numeral are the same number.
pub proof fn lemma_decimal_injective(a: nat, b: nat)
    requires
        decimal(a) == decimal(b),
    ensures
        a == b,
{
    lemma_decimal_digits(a);
    lemma_decimal_digits(b);
}

/// The key, as text, of record `i` of a stored file.
pub open spec fn file_key_text(file_key: Seq<char>, content: Seq<char>, i: int) -> Seq<char> {
    if i < chunk_count(content.len()) {
        chunk_key_text(file_key, i as nat, chunk_count(content.len()))
    } else {
        total_key_text(file_key)
    }
}

/// No two records of a stored file have the same key, whatever the file
/// key is: the table holds one record for each chunk and one for their
/// number.
pub proof fn law_file_keys_distinct(file_key: Seq<char>, content: Seq<char>, i: int, j: int)
    requires
        0 <= i < j < file_records(file_key, content).len(),
    ensures
        file_records(file_key, content)[i].key != file_records(file_key, content)[j].key,
{
    let total = chunk_count(content.len());
    let first = file_key_text(file_key, content, i);
    let second = file_key_text(file_key, content, j);
    assert(file_records(file_key, content)[i].key == encode_utf8(first));
    assert(file_records(file_key, content)[j].key == encode_utf8(second));
    encode_utf8_decode_utf8(first);
    encode_utf8_decode_utf8(second);
    if first == second {
        let at = file_key.len() as int + 1;
        lemma_decimal_digits(i as nat);
        let numeral = decimal(i as nat);
        assert(first[at] == numeral[0]);
        if j < total {
            let other = decimal(j as nat);
            let end = decimal(total);
            let tail = numeral + seq!['_'] + end;
            let other_tail = other + seq!['_'] + end;
            assert(first.skip(at) =~= tail);
            assert(second.skip(at) =~= other_tail);
            assert(tail.len() == other_tail.len());
            assert(numeral =~= tail.take(numeral.len() as int));
            assert(other =~= other_tail.take(other.len() as int));
            lemma_decimal_injective(i as nat, j as nat);
        } else {
            reveal_strlit("_total");
            assert(second[at] == 't');
        }
    }
}

} // verus!
