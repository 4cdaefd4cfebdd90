use tapasco::status::MemoryArea;
use tapasco::transport::Chunk;
use tapasco::transport::Error;
use tapasco::transport::direct_window_offset;
use tapasco::transport::transfer_chunks;

#[test]
fn transfers_split_into_buffer_sized_chunks() {
    let chunks = transfer_chunks(10, 4);
    assert_eq!(
        chunks,
        vec![
            Chunk { offset: 0, len: 4 },
            Chunk { offset: 4, len: 4 },
            Chunk { offset: 8, len: 2 },
        ]
    );
}

#[test]
fn exact_multiples_have_no_partial_chunk() {
    let chunks = transfer_chunks(8, 4);
    assert_eq!(chunks, vec![Chunk { offset: 0, len: 4 }, Chunk { offset: 4, len: 4 }]);
}

#[test]
fn small_transfers_use_one_chunk() {
    assert_eq!(transfer_chunks(5, 4096), vec![Chunk { offset: 0, len: 5 }]);
}

#[test]
fn empty_transfers_have_no_chunks() {
    assert_eq!(transfer_chunks(0, 4096), Vec::new());
}

#[test]
fn direct_ranges_are_checked_against_the_window() {
    let window = MemoryArea { base: 0x1000, size: 256 };
    assert_eq!(direct_window_offset(window, 0, 256), Ok(0x1000));
    assert_eq!(direct_window_offset(window, 16, 16), Ok(0x1010));
    assert_eq!(
        direct_window_offset(window, 1, 256),
        Err(Error::OutOfRange { offset: 1, len: 256 })
    );
    assert_eq!(
        direct_window_offset(window, 257, 1),
        Err(Error::OutOfRange { offset: 257, len: 1 })
    );
}
