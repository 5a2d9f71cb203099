use dht_storage::chunk::{
    chunk_key, encode_file, reassembly_file, total_key, Record, CHUNK_CHARS, WRITE_QUORUM,
};

fn keys_of(records: &[Record]) -> Vec<String> {
    records.iter().map(|r| String::from_utf8(r.key.clone()).unwrap()).collect()
}

#[test]
fn codec_parameters() {
    assert_eq!(CHUNK_CHARS, 500);
    assert_eq!(WRITE_QUORUM, 3);
}

#[test]
fn chunk_key_joins_key_index_and_total() {
    assert_eq!(chunk_key("doc", 0, 3), "doc_0_3");
    assert_eq!(chunk_key("doc", 2, 3), "doc_2_3");
    assert_eq!(chunk_key("", 10, 120), "_10_120");
}

#[test]
fn total_key_and_reassembly_file_names() {
    assert_eq!(total_key("doc"), "doc_total");
    assert_eq!(reassembly_file("doc"), "doc.txt");
}

#[test]
fn file_of_1200_characters_makes_three_chunks_and_the_total() {
    let content: String = (0..1200).map(|i| char::from(b'a' + (i % 26) as u8)).collect();
    let records = encode_file("doc", &content);
    assert_eq!(keys_of(&records), vec!["doc_0_3", "doc_1_3", "doc_2_3", "doc_total"]);
    assert_eq!(records[0].value, content.as_bytes()[..500].to_vec());
    assert_eq!(records[1].value, content.as_bytes()[500..1000].to_vec());
    assert_eq!(records[2].value, content.as_bytes()[1000..].to_vec());
    assert_eq!(records[2].value.len(), 200);
    assert_eq!(records[3].value, b"3".to_vec());
}

#[test]
fn empty_file_makes_the_total_record_alone() {
    let records = encode_file("doc", "");
    assert_eq!(records, vec![Record { key: b"doc_total".to_vec(), value: b"0".to_vec() }]);
}

#[test]
fn chunk_count_is_the_length_over_500_rounded_up() {
    for (len, chunks) in
        [(0usize, 0usize), (1, 1), (499, 1), (500, 1), (501, 2), (1000, 2), (1001, 3), (5000, 10)]
    {
        let content = "x".repeat(len);
        let records = encode_file("f", &content);
        assert_eq!(records.len(), chunks + 1, "{}", len);
        assert_eq!(records[chunks].value, chunks.to_string().into_bytes());
    }
}

#[test]
fn chunks_are_counted_in_characters() {
    let content = "é".repeat(501);
    let records = encode_file("f", &content);
    assert_eq!(keys_of(&records), vec!["f_0_2", "f_1_2", "f_total"]);
    assert_eq!(records[0].value, "é".repeat(500).into_bytes());
    assert_eq!(records[0].value.len(), 1000);
    assert_eq!(records[1].value, "é".as_bytes().to_vec());
}

#[test]
fn chunks_joined_are_the_file() {
    let content: String = (0..1734).map(|i| if i % 7 == 0 { 'ü' } else { 'k' }).collect();
    let records = encode_file("f", &content);
    let mut joined: Vec<u8> = Vec::new();
    for record in &records[..records.len() - 1] {
        joined.extend_from_slice(&record.value);
    }
    assert_eq!(joined, content.into_bytes());
}

#[test]
fn large_file_is_cut_in_one_pass() {
    let content = "0123456789".repeat(100_000);
    let records = encode_file("big", &content);
    assert_eq!(records.len(), 2001);
    assert_eq!(records[1999].key, b"big_1999_2000".to_vec());
    assert_eq!(records[1999].value.len(), 500);
    assert_eq!(records[2000].value, b"2000".to_vec());
}
