use modelite::bulk::bulk_chunk_size;
use modelite::BulkQueryIterator;

#[test]
fn chunk_size_from_variable_limit() {
    assert_eq!(bulk_chunk_size(32766, 2), 16383);
    assert_eq!(bulk_chunk_size(999, 4), 249);
    assert_eq!(bulk_chunk_size(10, 3), 3);
    assert_eq!(bulk_chunk_size(2, 3), 0);
    assert_eq!(bulk_chunk_size(0, 1), 0);
    assert_eq!(bulk_chunk_size(12, 12), 1);
}

#[test]
fn chunks_in_order() {
    let rows = vec![1u32, 2, 3, 4, 5, 6, 7];
    let mut it = BulkQueryIterator::new(rows, 3);
    assert_eq!(it.next_chunk(), Some(vec![1, 2, 3]));
    assert_eq!(it.next_chunk(), Some(vec![4, 5, 6]));
    assert_eq!(it.next_chunk(), Some(vec![7]));
    assert_eq!(it.next_chunk(), None);
    assert_eq!(it.next_chunk(), None);
}

#[test]
fn chunks_of_exact_fit() {
    let it = BulkQueryIterator::new(vec!['a', 'b', 'c', 'd'], 2);
    assert_eq!(it.into_chunks(), vec![vec!['a', 'b'], vec!['c', 'd']]);
}

#[test]
fn no_rows_no_chunks() {
    let mut it = BulkQueryIterator::<u8>::new(vec![], 5);
    assert_eq!(it.next_chunk(), None);
}

#[test]
fn no_chunk_size_when_a_row_does_not_fit() {
    assert!(BulkQueryIterator::for_variable_limit(vec![1, 2], 2, 3).is_none());
    assert!(BulkQueryIterator::<u8>::for_variable_limit(vec![], 0, 1).is_none());
    let it = BulkQueryIterator::for_variable_limit(vec![1, 2], 3, 3).unwrap();
    assert_eq!(it.into_chunks(), vec![vec![1], vec![2]]);
}

#[test]
fn chunks_respect_variable_limit() {
    let rows: Vec<usize> = (0..10).collect();
    let it = BulkQueryIterator::for_variable_limit(rows.clone(), 7, 2).unwrap();
    let chunks = it.into_chunks();
    assert_eq!(chunks.len(), 4);
    for chunk in &chunks {
        assert!(chunk.len() * 2 <= 7);
        assert!(!chunk.is_empty());
    }
    let flat: Vec<usize> = chunks.into_iter().flatten().collect();
    assert_eq!(flat, rows);
}

#[test]
fn rows_are_references() {
    let names = vec!["a".to_string(), "b".to_string(), "c".to_string()];
    let refs: Vec<&String> = names.iter().collect();
    let mut it = BulkQueryIterator::new(refs, 2);
    let first = it.next_chunk().unwrap();
    assert_eq!(first.len(), 2);
    assert_eq!(first[0], "a");
    assert_eq!(it.next_chunk().unwrap(), vec![&names[2]]);
}
