use foreign_buffer::buffer::GrowableBuffer;
use foreign_buffer::registry::Registry;

#[test]
fn free_of_the_null_handle_is_a_no_op() {
    let mut registry: Registry<u8> = Registry::new();
    registry.free(0);
    assert_eq!(registry.allocation_count(), 0);
    assert_eq!(registry.deallocation_count(), 0);
}

#[test]
fn every_buffer_created_and_freed_is_counted_once() {
    let mut registry: Registry<u32> = Registry::new();
    let mut handles: Vec<usize> = Vec::new();
    for i in 0..5u32 {
        let mut buffer = GrowableBuffer::new();
        buffer.push(i);
        handles.push(registry.into_raw(buffer));
    }
    assert_eq!(registry.allocation_count(), 5);
    assert_eq!(registry.deallocation_count(), 0);
    for handle in handles {
        registry.free(handle);
    }
    assert_eq!(registry.deallocation_count(), 5);
    registry.free(0);
    assert_eq!(registry.deallocation_count(), 5);
}

#[test]
fn nested_buffers_are_freed_exactly_once() {
    let mut registry: Registry<u8> = Registry::new();
    let mut outer: GrowableBuffer<usize> = GrowableBuffer::new();
    for i in 0..4u8 {
        let mut inner: GrowableBuffer<u8> = GrowableBuffer::new();
        inner.push(i);
        outer.push(registry.into_raw(inner));
    }
    let handles: Vec<usize> = outer.iter().clone();
    assert_eq!(registry.allocation_count(), 4);
    registry.free_nested(outer);
    assert_eq!(registry.deallocation_count(), 4);
    for handle in handles {
        assert!(!registry.is_live_handle(handle));
    }
}

#[test]
fn from_raw_reclaims_the_registered_buffer() {
    let mut registry: Registry<u16> = Registry::new();
    let mut buffer: GrowableBuffer<u16> = GrowableBuffer::new();
    buffer.push(42);
    let handle = registry.into_raw(buffer);
    assert!(registry.is_live_handle(handle));
    let reclaimed = registry.from_raw(handle);
    assert_eq!(reclaimed.len(), 1);
    assert_eq!(*reclaimed.get(0), 42);
    assert!(!registry.is_live_handle(handle));
    assert_eq!(registry.deallocation_count(), 0);
    assert_eq!(registry.reclamation_count(), 1);
}

#[test]
fn handles_are_not_reused_after_free() {
    let mut registry: Registry<u8> = Registry::new();
    let first = registry.into_raw(GrowableBuffer::new());
    registry.free(first);
    let second = registry.into_raw(GrowableBuffer::new());
    assert_ne!(first, second);
    assert!(!registry.is_live_handle(first));
    assert!(registry.is_live_handle(second));
}
