use hdfs_provider::writer::ChunkedWriter;

fn object_of(parts: &[Vec<u8>], last: &[u8]) -> Vec<u8> {
    let mut object = Vec::new();
    for p in parts {
        object.extend_from_slice(p);
    }
    object.extend_from_slice(last);
    object
}

#[test]
fn empty_write_object_has_size_zero() {
    let mut w = ChunkedWriter::new(8 * 1024 * 1024);
    let last = w.shutdown().unwrap();
    assert_eq!(last.len(), 0);
    let object = object_of(&[], &last);
    assert_eq!(object.len(), 0);
}

#[test]
fn closed_writer_rejects_every_operation() {
    let mut w = ChunkedWriter::new(16);
    w.shutdown().unwrap();
    assert!(w.write(b"late").unwrap_err().is_invalid_state());
    assert!(w.flush().unwrap_err().is_invalid_state());
    assert!(w.shutdown().unwrap_err().is_invalid_state());
}

#[test]
fn small_writes_accumulate_exactly() {
    let mut w = ChunkedWriter::new(1024 * 1024);
    let mut parts = Vec::new();
    parts.extend(w.write(b"hello").unwrap());
    parts.extend(w.write(b"world").unwrap());
    let last = w.shutdown().unwrap();
    let object = object_of(&parts, &last);
    assert_eq!(object.len(), 10);
    assert_eq!(&object[..], b"helloworld");
}

#[test]
fn flush_emits_the_partial_part() {
    let mut w = ChunkedWriter::new(2);
    let mut parts = Vec::new();
    parts.extend(w.write(b"abc").unwrap());
    assert_eq!(parts.len(), 1);
    assert_eq!(&parts[0][..], b"ab");
    let flushed = w.flush().unwrap();
    assert_eq!(&flushed[..], b"c");
    let last = w.shutdown().unwrap();
    assert_eq!(last.len(), 0);
    parts.push(flushed);
    let object = object_of(&parts, &last);
    assert_eq!(&object[..], b"abc");
}

#[test]
fn large_multi_chunk_write_accounts_every_byte() {
    let mb: usize = 1024 * 1024;
    let mut w = ChunkedWriter::new(8 * mb);
    let mut parts = Vec::new();
    parts.extend(w.write(&vec![b'a'; 3 * mb]).unwrap());
    parts.extend(w.write(&vec![b'b'; 3 * mb]).unwrap());
    parts.extend(w.write(&vec![b'c'; 3 * mb]).unwrap());
    parts.extend(w.write(&vec![b'd'; 3 * mb]).unwrap());
    parts.extend(w.write(&vec![b'e'; 40 * mb]).unwrap());
    let last = w.shutdown().unwrap();

    for p in &parts {
        assert_eq!(p.len(), 8 * mb);
    }
    let object = object_of(&parts, &last);
    assert_eq!(object.len(), 52 * mb);
    assert_eq!(object[0], b'a');
    assert_eq!(object[3 * mb], b'b');
    assert_eq!(object[6 * mb], b'c');
    assert_eq!(object[9 * mb], b'd');
    assert_eq!(object[12 * mb], b'e');
    assert_eq!(object[52 * mb - 1], b'e');
}
