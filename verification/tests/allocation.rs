use entity_core::allocator::{Allocate, Counter, BLOCK_SIZE};

#[test]
fn first_handle_skips_reserved_batch() {
    let mut counter = Counter::new();
    let mut cursor = Allocate::new();
    let first = cursor.next(&mut counter);
    assert_eq!(first.value(), BLOCK_SIZE);
    assert_ne!(first.value(), 0);
}

#[test]
fn twenty_handles_are_pairwise_distinct_and_nonzero() {
    let mut counter = Counter::new();
    let mut cursor = Allocate::new();
    let mut values = Vec::new();
    for _ in 0..20 {
        let e = cursor.next(&mut counter);
        assert_ne!(e.value(), 0);
        values.push(e.value());
    }
    for i in 0..values.len() {
        for j in 0..i {
            assert_ne!(values[i], values[j]);
        }
    }
}

#[test]
fn handles_from_many_cursors_are_distinct() {
    let mut counter = Counter::new();
    let mut a = Allocate::new();
    let mut b = Allocate::new();
    let mut c = Allocate::new();
    let mut values = Vec::new();
    // Interleave three cursors against one counter.
    for round in 0..12 {
        values.push(a.next(&mut counter).value());
        if round % 2 == 0 {
            values.push(b.next(&mut counter).value());
        }
        if round % 3 == 0 {
            values.push(c.next(&mut counter).value());
        }
    }
    for i in 0..values.len() {
        assert_ne!(values[i], 0);
        for j in 0..i {
            assert_ne!(values[i], values[j]);
        }
    }
}

#[test]
fn single_cursor_increases_by_one_within_a_batch() {
    let mut counter = Counter::new();
    let mut cursor = Allocate::new();
    let mut prev = cursor.next(&mut counter).value();
    // One cursor with the counter to itself: always exactly +1, across
    // batch boundaries too, because its claims stay contiguous.
    for _ in 0..40 {
        let next = cursor.next(&mut counter).value();
        assert_eq!(next, prev + 1);
        prev = next;
    }
}

#[test]
fn batch_boundary_jump_is_a_multiple_of_the_batch_size() {
    let mut counter = Counter::new();
    let mut a = Allocate::new();
    let mut b = Allocate::new();
    // Exhaust a's first batch.
    let mut prev = 0;
    for _ in 0..BLOCK_SIZE {
        prev = a.next(&mut counter).value();
    }
    // Another cursor claims the following batch in between.
    b.next(&mut counter);
    // a's next handle jumps past the stolen batch: the step beyond +1 is a
    // whole number of batches.
    let next = a.next(&mut counter).value();
    assert!(next > prev);
    assert_eq!((next - prev - 1) % BLOCK_SIZE, 0);
    assert_eq!(next - prev - 1, BLOCK_SIZE);
}

#[test]
fn default_cursor_behaves_like_new() {
    let mut counter = Counter::new();
    let mut cursor = Allocate::default();
    assert_eq!(cursor.next(&mut counter).value(), BLOCK_SIZE);
}

#[test]
fn counter_advances_one_batch_per_claim() {
    let mut counter = Counter::new();
    assert_eq!(counter.current(), BLOCK_SIZE);
    let mut cursor = Allocate::new();
    cursor.next(&mut counter);
    assert_eq!(counter.current(), 2 * BLOCK_SIZE);
    // The rest of the batch needs no further claims.
    for _ in 1..BLOCK_SIZE {
        cursor.next(&mut counter);
    }
    assert_eq!(counter.current(), 2 * BLOCK_SIZE);
}
