use bread::buffer::Buffer;
use bread::merge::CheckpointError;
use bread::persist::LoadError;

fn counts(width: usize, height: usize, cells: &[u32]) -> Buffer<u32> {
    Buffer::from_vec(width, height, cells.to_vec()).expect("cells match the shape")
}

#[test]
fn store_writes_four_bytes_a_cell_least_first() {
    let bytes = counts(2, 2, &[0, 5, 10, 15]).store();
    assert_eq!(bytes, vec![0, 0, 0, 0, 5, 0, 0, 0, 10, 0, 0, 0, 15, 0, 0, 0]);
}

#[test]
fn store_splits_a_count_into_its_bytes() {
    let bytes = counts(3, 1, &[0x0102_0304, u32::MAX, 256]).store();
    assert_eq!(bytes, vec![4, 3, 2, 1, 255, 255, 255, 255, 0, 1, 0, 0]);
}

#[test]
fn store_agrees_with_std() {
    let cells: Vec<u32> = vec![0, 1, 255, 256, 65_535, 65_536, 16_777_215, 16_777_216, 0xdead_beef];
    let bytes = counts(3, 3, &cells).store();
    let mut expected: Vec<u8> = Vec::new();
    for c in &cells {
        expected.extend_from_slice(&c.to_le_bytes());
    }
    assert_eq!(bytes, expected);
}

#[test]
fn store_of_no_cells_is_empty() {
    assert!(counts(0, 7, &[]).store().is_empty());
}

#[test]
fn load_reads_what_store_wrote() {
    let a = counts(2, 2, &[0, 5, 10, 15]);
    let b = Buffer::load(2, 2, &a.store()).expect("sixteen bytes");
    assert_eq!(b.width(), 2);
    assert_eq!(b.height(), 2);
    assert_eq!(b.buffer(), &vec![0, 5, 10, 15]);
    assert_eq!(*b.get(1, 1), 15);
}

#[test]
fn load_reads_large_counts() {
    let a = counts(2, 3, &[u32::MAX, 0x8000_0000, 0x0102_0304, 1, 0, 0xffff_ff00]);
    let b = Buffer::load(2, 3, &a.store()).expect("twenty-four bytes");
    assert_eq!(b.buffer(), a.buffer());
}

#[test]
fn load_takes_the_declared_shape() {
    let bytes = counts(2, 3, &[1, 2, 3, 4, 5, 6]).store();
    let b = Buffer::load(3, 2, &bytes).expect("same number of cells");
    assert_eq!(b.width(), 3);
    assert_eq!(b.height(), 2);
    assert_eq!(*b.get(2, 0), 3);
    assert_eq!(*b.get(0, 1), 4);
}

#[test]
fn load_refuses_a_wrong_size() {
    let bytes = counts(2, 2, &[0, 5, 10, 15]).store();
    match Buffer::load(3, 3, &bytes) {
        Err(e) => assert_eq!(e, LoadError::CorruptPersistedBuffer { expected: 36, actual: 16 }),
        Ok(_) => panic!("sixteen bytes are no 3 by 3 grid"),
    }
}

#[test]
fn load_refuses_bytes_left_over() {
    let mut bytes = counts(1, 1, &[9]).store();
    bytes.push(0);
    match Buffer::load(1, 1, &bytes) {
        Err(e) => assert_eq!(e, LoadError::CorruptPersistedBuffer { expected: 4, actual: 5 }),
        Ok(_) => panic!("five bytes are no 1 by 1 grid"),
    }
    match Buffer::load(1, 1, &bytes[..3]) {
        Err(e) => assert_eq!(e, LoadError::CorruptPersistedBuffer { expected: 4, actual: 3 }),
        Ok(_) => panic!("three bytes are no 1 by 1 grid"),
    }
}

#[test]
fn load_refuses_a_shape_beyond_usize() {
    match Buffer::load(usize::MAX, 2, &[]) {
        Err(e) => assert_eq!(e, LoadError::TooLarge { width: usize::MAX, height: 2 }),
        Ok(_) => panic!("no such grid"),
    }
    match Buffer::load(usize::MAX / 2, 1, &[]) {
        Err(e) => assert_eq!(e, LoadError::TooLarge { width: usize::MAX / 2, height: 1 }),
        Ok(_) => panic!("no such grid"),
    }
}

#[test]
fn load_of_no_bytes_is_the_empty_grid() {
    let b = Buffer::load(0, 9, &[]).expect("no cells");
    assert_eq!(b.width(), 0);
    assert_eq!(b.height(), 9);
    assert!(b.buffer().is_empty());
}

#[test]
fn checkpoint_without_earlier_bytes_stores_the_grid() {
    let mut a = counts(2, 1, &[3, 4]);
    let bytes = a.checkpoint(None).expect("nothing to add");
    assert_eq!(bytes, vec![3, 0, 0, 0, 4, 0, 0, 0]);
    assert_eq!(a.buffer(), &vec![3, 4]);
}

#[test]
fn checkpoint_adds_the_earlier_grid() {
    let earlier = counts(2, 1, &[10, 300]).store();
    let mut a = counts(2, 1, &[3, 4]);
    let bytes = a.checkpoint(Some(&earlier)).expect("the sums fit");
    assert_eq!(a.buffer(), &vec![13, 304]);
    assert_eq!(bytes, vec![13, 0, 0, 0, 48, 1, 0, 0]);
}

#[test]
fn checkpoint_refuses_corrupt_bytes() {
    let mut a = counts(2, 1, &[3, 4]);
    let r = a.checkpoint(Some(&[1, 2, 3]));
    assert_eq!(
        r,
        Err(CheckpointError::Corrupt(LoadError::CorruptPersistedBuffer { expected: 8, actual: 3 }))
    );
    assert_eq!(a.buffer(), &vec![3, 4]);
}

#[test]
fn checkpoint_refuses_an_overflow() {
    let earlier = counts(2, 1, &[0, u32::MAX]).store();
    let mut a = counts(2, 1, &[3, 1]);
    assert_eq!(a.checkpoint(Some(&earlier)), Err(CheckpointError::Overflow));
    assert_eq!(a.buffer(), &vec![3, 1]);
}
