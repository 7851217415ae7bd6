use file_alloc::{chunk_to_write, CHUNK_SIZE};

#[test]
fn chunk_to_write_4gib_boundary() {
    assert_eq!(chunk_to_write(4 * 1024 * 1024 * 1024), CHUNK_SIZE);
    assert_eq!(chunk_to_write(4 * 1024 * 1024 * 1024 + 1), CHUNK_SIZE);
    assert_eq!(chunk_to_write(1), 1);
    assert_eq!(chunk_to_write(CHUNK_SIZE as u64 - 1), CHUNK_SIZE - 1);
    assert_eq!(chunk_to_write(CHUNK_SIZE as u64), CHUNK_SIZE);
}

#[test]
fn chunk_is_the_rest_or_one_mebibyte() {
    assert_eq!(CHUNK_SIZE, 1_048_576);
    assert_eq!(chunk_to_write(0), 0);
    assert_eq!(chunk_to_write(CHUNK_SIZE as u64 + 1), CHUNK_SIZE);
    assert_eq!(chunk_to_write(u64::MAX), CHUNK_SIZE);
}
