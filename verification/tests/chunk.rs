use futuresdr::chunk::{BufferEmpty, BufferFull};

#[test]
fn chunk_new_chunk_is_zeroed() {
    let chunk = BufferEmpty::new(3, 5);
    assert_eq!(chunk.id(), 3);
    assert_eq!(chunk.capacity(), 5);
    assert_eq!(chunk.as_slice(), &[0, 0, 0, 0, 0]);
    let none = BufferEmpty::new(4, 0);
    assert_eq!(none.capacity(), 0);
    assert!(none.into_vec().is_empty());
}

#[test]
fn chunk_write_at_replaces_a_stretch() {
    let mut chunk = BufferEmpty::from_vec(1, vec![1, 2, 3, 4, 5, 6]);
    chunk.write_at(2, &[9, 8, 7]);
    assert_eq!(chunk.as_slice(), &[1, 2, 9, 8, 7, 6]);
    chunk.write_at(6, &[]);
    chunk.write_at(0, &[0]);
    assert_eq!(chunk.into_vec(), vec![0, 2, 9, 8, 7, 6]);
}

#[test]
fn chunk_fill_within_capacity() {
    let full = BufferEmpty::from_vec(8, vec![1, 2, 3, 4, 5]).fill(3);
    let full: BufferFull = match full {
        Ok(full) => full,
        Err(_) => panic!("refused"),
    };
    assert_eq!(full.id(), 8);
    assert_eq!(full.capacity(), 5);
    assert_eq!(full.used_bytes(), 3);
    assert_eq!(full.payload(), &[1, 2, 3]);
}

#[test]
fn chunk_fill_to_the_brim_and_with_nothing() {
    let full = BufferEmpty::from_vec(8, vec![1, 2, 3]).fill(3).unwrap();
    assert_eq!(full.payload(), &[1, 2, 3]);
    let none = BufferEmpty::from_vec(8, vec![1, 2, 3]).fill(0).unwrap();
    assert_eq!(none.used_bytes(), 0);
    assert!(none.payload().is_empty());
}

#[test]
fn chunk_fill_beyond_capacity_is_refused() {
    match BufferEmpty::from_vec(8, vec![1, 2, 3]).fill(4) {
        Ok(_) => panic!("accepted"),
        Err(chunk) => {
            assert_eq!(chunk.id(), 8);
            assert_eq!(chunk.as_slice(), &[1, 2, 3]);
        }
    }
}

#[test]
fn chunk_into_full_keeps_identity_and_bytes() {
    let full = BufferEmpty::from_vec(2, vec![5, 6, 7, 8]).into_full(2);
    assert_eq!(full.id(), 2);
    assert_eq!(full.payload(), &[5, 6]);
    assert_eq!(full.capacity(), 4);
}

#[test]
fn chunk_into_empty_keeps_identity_and_bytes() {
    let empty = BufferEmpty::from_vec(2, vec![5, 6, 7, 8]).into_full(2).into_empty();
    assert_eq!(empty.id(), 2);
    assert_eq!(empty.capacity(), 4);
    assert_eq!(empty.as_slice(), &[5, 6, 7, 8]);
}
