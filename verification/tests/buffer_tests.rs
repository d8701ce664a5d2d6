use foreign_buffer::buffer::GrowableBuffer;

#[test]
fn asdas() {}

#[test]
fn pushes_keep_insertion_order() {
    let mut buffer: GrowableBuffer<u32> = GrowableBuffer::new();
    for i in 0..100u32 {
        buffer.push(i);
    }
    assert_eq!(buffer.len(), 100);
    for (i, item) in buffer.iter().iter().enumerate() {
        assert_eq!(*item, i as u32);
    }
}

#[test]
fn capture_release_round_trip() {
    let host: Vec<u16> = vec![1, 2, 3, 4];
    let buffer = GrowableBuffer::capture_from(host.clone());
    assert_eq!(buffer.len(), 4);
    assert_eq!(buffer.capacity(), 4);
    let released = buffer.release_to_host();
    assert_eq!(released, host);
}

#[test]
fn push_all_of_nothing_changes_nothing() {
    let mut buffer: GrowableBuffer<u8> = GrowableBuffer::with_capacity(7);
    buffer.push(5);
    let nothing: Vec<u8> = Vec::new();
    buffer.push_all(&nothing);
    assert_eq!(buffer.len(), 1);
    assert_eq!(buffer.capacity(), 7);
    assert_eq!(buffer.reallocs(), 0);
}

#[test]
fn push_all_appends_in_one_reservation() {
    let mut buffer: GrowableBuffer<i32> = GrowableBuffer::new();
    let values: Vec<i32> = vec![10, 20, 30];
    buffer.push_all(&values);
    assert_eq!(buffer.len(), 3);
    assert_eq!(buffer.reallocs(), 1);
    assert!(buffer.capacity() >= 3);
    assert_eq!(*buffer.get(0), 10);
    assert_eq!(*buffer.get(1), 20);
    assert_eq!(*buffer.get(2), 30);
    buffer.push_all(&values);
    assert_eq!(buffer.len(), 6);
    assert_eq!(buffer.iter().as_slice(), &[10, 20, 30, 10, 20, 30]);
}

#[test]
fn growth_is_logarithmic_in_the_element_count() {
    let mut buffer: GrowableBuffer<u64> = GrowableBuffer::new();
    for i in 0..1000u64 {
        buffer.push(i);
    }
    assert_eq!(buffer.len(), 1000);
    // Doubling from nothing: 1, 2, 4, ..., 1024 — eleven reallocations for a
    // thousand elements, not one per element.
    assert_eq!(buffer.capacity(), 1024);
    assert_eq!(buffer.reallocs(), 11);
}

#[test]
fn with_capacity_defers_reallocation() {
    let mut buffer: GrowableBuffer<i64> = GrowableBuffer::with_capacity(8);
    for i in 0..8i64 {
        buffer.push(i);
    }
    assert_eq!(buffer.reallocs(), 0);
    assert_eq!(buffer.capacity(), 8);
    buffer.push(8);
    assert_eq!(buffer.reallocs(), 1);
    assert_eq!(buffer.capacity(), 16);
}

#[test]
fn capture_with_conversion_widens_every_element() {
    let host: Vec<u8> = vec![1, 2, 250];
    let buffer: GrowableBuffer<u64> = GrowableBuffer::capture_converted(host, |b| b as u64 + 1);
    assert_eq!(buffer.len(), 3);
    assert_eq!(buffer.capacity(), 3);
    assert_eq!(buffer.iter().as_slice(), &[2u64, 3, 251]);
}

#[test]
fn iterate_reflects_later_mutation() {
    let mut buffer: GrowableBuffer<u8> = GrowableBuffer::new();
    buffer.push(1);
    assert_eq!(buffer.iter().len(), 1);
    buffer.push(2);
    assert_eq!(buffer.iter().len(), 2);
    assert_eq!(*buffer.get(1), 2);
}
