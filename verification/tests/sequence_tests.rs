//! Sequence assignment tests: 1..N within a batch, 1 for standalone items.

use tg_watchbot::store::Store;

#[test]
fn test_sequence_generation_with_batch() {
    let mut store = Store::new();

    // Create user and batch
    let user_id = store.get_or_create_user(123, Some("test"), Some("Test User"), 0);
    let batch_id = store.open_batch(user_id, 0).unwrap();

    // Insert resources in batch - should get sequence 1, 2, 3
    let r1 = store.insert_resource(user_id, Some(batch_id), "text", "first", 100, 0);
    let r2 = store.insert_resource(user_id, Some(batch_id), "text", "second", 200, 0);
    let r3 = store.insert_resource(user_id, Some(batch_id), "text", "third", 300, 0);

    // Check sequences
    let sequences: Vec<(i64, Option<i64>, i64)> = [r1, r2, r3]
        .iter()
        .map(|rid| {
            let r = &store.resources[(rid - 1) as usize];
            (r.id, r.batch_id, r.sequence)
        })
        .collect();

    println!("Batch resources: {:?}", sequences);

    assert_eq!(sequences.len(), 3);
    assert_eq!(sequences[0].2, 1); // First resource: sequence 1
    assert_eq!(sequences[1].2, 2); // Second resource: sequence 2
    assert_eq!(sequences[2].2, 3); // Third resource: sequence 3

    // All should have the same batch_id
    assert_eq!(sequences[0].1, Some(batch_id));
    assert_eq!(sequences[1].1, Some(batch_id));
    assert_eq!(sequences[2].1, Some(batch_id));
}

#[test]
fn test_sequence_generation_without_batch() {
    let mut store = Store::new();

    // Create user
    let user_id = store.get_or_create_user(456, Some("nobatch"), Some("No Batch User"), 0);

    // Insert resources without batch - should all get sequence 1
    let r1 = store.insert_resource(user_id, None, "text", "standalone1", 400, 0);
    let r2 = store.insert_resource(user_id, None, "text", "standalone2", 500, 0);
    let r3 = store.insert_resource(user_id, None, "text", "standalone3", 600, 0);

    // Check sequences
    let sequences: Vec<(i64, Option<i64>, i64)> = [r1, r2, r3]
        .iter()
        .map(|rid| {
            let r = &store.resources[(rid - 1) as usize];
            (r.id, r.batch_id, r.sequence)
        })
        .collect();

    println!("Standalone resources: {:?}", sequences);

    assert_eq!(sequences.len(), 3);
    assert_eq!(sequences[0].2, 1); // All should have sequence 1
    assert_eq!(sequences[1].2, 1);
    assert_eq!(sequences[2].2, 1);

    // All should have no batch_id
    assert_eq!(sequences[0].1, None);
    assert_eq!(sequences[1].1, None);
    assert_eq!(sequences[2].1, None);
}

#[test]
fn test_sequence_generation_multiple_batches() {
    let mut store = Store::new();

    // Create user
    let user_id = store.get_or_create_user(789, Some("multi"), Some("Multi Batch User"), 0);

    // Create first batch
    let batch1_id = store.open_batch(user_id, 0).unwrap();
    let _r1 = store.insert_resource(user_id, Some(batch1_id), "text", "batch1_item1", 700, 0);
    let _r2 = store.insert_resource(user_id, Some(batch1_id), "text", "batch1_item2", 800, 0);

    // Commit first batch before opening second
    store.commit_batch(user_id, Some("Batch 1"), 0).unwrap();

    // Create second batch
    let batch2_id = store.open_batch(user_id, 0).unwrap();
    let _r3 = store.insert_resource(user_id, Some(batch2_id), "text", "batch2_item1", 900, 0);
    let _r4 = store.insert_resource(user_id, Some(batch2_id), "text", "batch2_item2", 1000, 0);

    // Check sequences
    let batch1_sequences: Vec<(i64, i64)> = store
        .resources
        .iter()
        .filter(|r| r.batch_id == Some(batch1_id))
        .map(|r| (r.id, r.sequence))
        .collect();

    let batch2_sequences: Vec<(i64, i64)> = store
        .resources
        .iter()
        .filter(|r| r.batch_id == Some(batch2_id))
        .map(|r| (r.id, r.sequence))
        .collect();

    println!("Batch 1 sequences: {:?}", batch1_sequences);
    println!("Batch 2 sequences: {:?}", batch2_sequences);

    // Batch 1 should have sequences 1, 2
    assert_eq!(batch1_sequences.len(), 2);
    assert_eq!(batch1_sequences[0].1, 1);
    assert_eq!(batch1_sequences[1].1, 2);

    // Batch 2 should have sequences 1, 2 (starting fresh)
    assert_eq!(batch2_sequences.len(), 2);
    assert_eq!(batch2_sequences[0].1, 1);
    assert_eq!(batch2_sequences[1].1, 2);
}

#[test]
fn sequences_interleave_across_batches_of_different_users() {
    let mut store = Store::new();
    let alice = store.get_or_create_user(1, Some("alice"), None, 0);
    let bob = store.get_or_create_user(2, Some("bob"), None, 0);
    let batch_a = store.open_batch(alice, 0).unwrap();
    let batch_b = store.open_batch(bob, 0).unwrap();

    // Interleave inserts: each batch still numbers its own items 1..N.
    let a1 = store.insert_resource(alice, Some(batch_a), "text", "a1", 1, 0);
    let b1 = store.insert_resource(bob, Some(batch_b), "text", "b1", 2, 0);
    let a2 = store.insert_resource(alice, Some(batch_a), "text", "a2", 3, 0);
    let b2 = store.insert_resource(bob, Some(batch_b), "text", "b2", 4, 0);
    let a3 = store.insert_resource(alice, Some(batch_a), "text", "a3", 5, 0);

    assert_eq!(store.resources[(a1 - 1) as usize].sequence, 1);
    assert_eq!(store.resources[(a2 - 1) as usize].sequence, 2);
    assert_eq!(store.resources[(a3 - 1) as usize].sequence, 3);
    assert_eq!(store.resources[(b1 - 1) as usize].sequence, 1);
    assert_eq!(store.resources[(b2 - 1) as usize].sequence, 2);

    // The helper names the sequence the next insert would get.
    assert_eq!(store.next_resource_sequence(batch_a), 4);
    assert_eq!(store.next_resource_sequence(batch_b), 3);
}
