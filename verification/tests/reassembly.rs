use speakv::reassembly::PendingFile;

fn start_three() -> PendingFile {
    PendingFile::start(
        "notes.txt".to_string(),
        "alice".to_string(),
        None,
        false,
        7_000,
        3,
    )
}

#[test]
fn out_of_order_chunks_reassemble_byte_for_byte() {
    // Chunks arrive 2, 0, 1; the assembly must equal the original payload.
    let mut pf = start_three();
    assert!(!pf.is_complete());
    assert!(pf.add_chunk(2, vec![7, 8, 9]));
    assert!(pf.add_chunk(0, vec![1, 2, 3]));
    assert!(!pf.is_complete());
    assert!(pf.add_chunk(1, vec![4, 5, 6]));
    assert!(pf.is_complete());
    let data = pf.assemble();
    assert_eq!(data, vec![1, 2, 3, 4, 5, 6, 7, 8, 9]);
}

#[test]
fn duplicate_chunk_is_ignored() {
    let mut pf = start_three();
    assert!(pf.add_chunk(1, vec![4, 5, 6]));
    // The same index again must not double-count or corrupt the slot.
    assert!(!pf.add_chunk(1, vec![99, 99, 99]));
    assert_eq!(pf.received_count, 1);
    assert!(pf.add_chunk(0, vec![1]));
    assert!(pf.add_chunk(2, vec![7]));
    assert!(pf.is_complete());
    assert_eq!(pf.assemble(), vec![1, 4, 5, 6, 7]);
}

#[test]
fn out_of_range_chunk_is_ignored() {
    let mut pf = start_three();
    assert!(!pf.add_chunk(3, vec![1]));
    assert!(!pf.add_chunk(100, vec![1]));
    assert_eq!(pf.received_count, 0);
}

#[test]
fn empty_chunks_assemble_to_empty_payload() {
    let mut pf = start_three();
    assert!(pf.add_chunk(0, vec![]));
    assert!(pf.add_chunk(1, vec![]));
    assert!(pf.add_chunk(2, vec![]));
    assert!(pf.is_complete());
    assert_eq!(pf.assemble(), Vec::<u8>::new());
}
