use dht_storage::behaviour::{on_record, step_for, ChunkWrite, Progress, RecordStep, WriteOutcome};
use dht_storage::chunk::Record;
use dht_storage::node::{DhtRequest, Quorum};

fn lookup(key: &str) -> DhtRequest {
    DhtRequest::Get { key: key.as_bytes().to_vec(), quorum: Quorum::One }
}

fn chunk(index: usize, total: usize) -> ChunkWrite {
    ChunkWrite {
        key: format!("doc_{}_{}", index, total),
        file_key: "doc".to_string(),
        file_name: "doc.txt".to_string(),
        index,
        total,
        index_readable: true,
        total_readable: true,
        truncate: index == 0,
        data: b"data".to_vec(),
    }
}

#[test]
fn key_without_underscore_is_a_traditional_value() {
    assert_eq!(
        step_for("foo".to_string(), b"hello".to_vec()),
        RecordStep::Traditional { key: "foo".to_string(), value: "hello".to_string() }
    );
}

#[test]
fn traditional_value_is_shown_as_repaired_text() {
    assert_eq!(
        step_for("foo".to_string(), vec![0x68, 0xff]),
        RecordStep::Traditional { key: "foo".to_string(), value: "h\u{fffd}".to_string() }
    );
}

#[test]
fn total_record_starts_with_the_first_chunk() {
    assert_eq!(
        step_for("doc_total".to_string(), b"3".to_vec()),
        RecordStep::FirstChunk {
            file_key: "doc".to_string(),
            total: 3,
            request: lookup("doc_0_3"),
        }
    );
}

#[test]
fn any_key_of_two_parts_is_read_as_a_total_record() {
    assert_eq!(
        step_for("doc_whatever".to_string(), b"12".to_vec()),
        RecordStep::FirstChunk {
            file_key: "doc".to_string(),
            total: 12,
            request: lookup("doc_0_12"),
        }
    );
}

#[test]
fn total_of_zero_starts_nothing() {
    assert_eq!(
        step_for("doc_total".to_string(), b"0".to_vec()),
        RecordStep::NoChunks { key: "doc_total".to_string(), readable: true }
    );
}

#[test]
fn unreadable_total_starts_nothing() {
    for value in [&b""[..], b"three", b"-3", b"3 ", &[0xff, 0x33]] {
        assert_eq!(
            step_for("doc_total".to_string(), value.to_vec()),
            RecordStep::NoChunks { key: "doc_total".to_string(), readable: false }
        );
    }
}

#[test]
fn key_of_three_parts_is_a_chunk() {
    assert_eq!(
        step_for("doc_1_3".to_string(), b"data".to_vec()),
        RecordStep::Chunk(chunk(1, 3))
    );
}

#[test]
fn first_chunk_truncates_and_later_chunks_append() {
    for (key, truncate) in [("doc_0_3", true), ("doc_1_3", false), ("doc_2_3", false)] {
        match step_for(key.to_string(), b"data".to_vec()) {
            RecordStep::Chunk(chunk) => assert_eq!(chunk.truncate, truncate, "{}", key),
            other => panic!("{:?}", other),
        }
    }
}

#[test]
fn unreadable_chunk_numbers_count_as_zero() {
    assert_eq!(
        step_for("doc_x_y".to_string(), b"data".to_vec()),
        RecordStep::Chunk(ChunkWrite {
            key: "doc_x_y".to_string(),
            file_key: "doc".to_string(),
            file_name: "doc.txt".to_string(),
            index: 0,
            total: 0,
            index_readable: false,
            total_readable: false,
            truncate: true,
            data: b"data".to_vec(),
        })
    );
}

#[test]
fn key_of_four_or_more_parts_is_unexpected() {
    for key in ["a_b_c_d", "doc_0_3_", "___", "a_b_c_d_e_f"] {
        assert_eq!(
            step_for(key.to_string(), b"data".to_vec()),
            RecordStep::Unexpected { key: key.to_string() }
        );
    }
}

#[test]
fn on_record_reads_the_key_as_text() {
    let step = on_record(Record { key: b"doc_total".to_vec(), value: b"2".to_vec() });
    assert_eq!(
        step,
        RecordStep::FirstChunk { file_key: "doc".to_string(), total: 2, request: lookup("doc_0_2") }
    );
    let step = on_record(Record { key: vec![0x66, 0xff], value: b"v".to_vec() });
    assert_eq!(
        step,
        RecordStep::Traditional { key: "f\u{fffd}".to_string(), value: "v".to_string() }
    );
}

#[test]
fn after_a_chunk_the_next_one_is_looked_up() {
    assert_eq!(chunk(0, 3).after_write(&WriteOutcome::Written), Progress::Next(lookup("doc_1_3")));
    assert_eq!(chunk(1, 3).after_write(&WriteOutcome::Written), Progress::Next(lookup("doc_2_3")));
}

#[test]
fn after_the_last_chunk_the_file_is_complete() {
    assert_eq!(chunk(2, 3).after_write(&WriteOutcome::Written), Progress::Complete);
    assert_eq!(chunk(0, 1).after_write(&WriteOutcome::Written), Progress::Complete);
}

#[test]
fn after_a_failed_write_the_retrieval_halts() {
    let open = WriteOutcome::OpenFailed("denied".to_string());
    let write = WriteOutcome::WriteFailed("disk full".to_string());
    assert_eq!(chunk(0, 3).after_write(&open), Progress::Halted);
    assert_eq!(chunk(1, 3).after_write(&write), Progress::Halted);
    assert_eq!(chunk(2, 3).after_write(&write), Progress::Halted);
}

#[test]
fn chunk_whose_index_is_not_below_the_total_ends_the_retrieval() {
    assert_eq!(chunk(3, 3).after_write(&WriteOutcome::Written), Progress::Halted);
    assert_eq!(chunk(5, 3).after_write(&WriteOutcome::Written), Progress::Halted);
    assert_eq!(chunk(0, 0).after_write(&WriteOutcome::Written), Progress::Halted);
    assert_eq!(chunk(usize::MAX, 3).after_write(&WriteOutcome::Written), Progress::Halted);
    assert_eq!(chunk(usize::MAX, usize::MAX).after_write(&WriteOutcome::Written), Progress::Halted);
}
