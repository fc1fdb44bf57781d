//! Circular-mode behavior: the ring keeps the most recent `capacity`
//! bytes of its write history, in write order, whatever the batching.

use water_buffer::WaterBuffer;

fn ring_collected(b: &WaterBuffer) -> Vec<u8> {
    let mut it = b.iter();
    let mut out: Vec<u8> = Vec::new();
    while let Some(x) = it.next() {
        out.push(x);
    }
    out
}

#[test]
fn test_basic_wrap() {
    let mut b = WaterBuffer::with_capacity_circular(10);
    b.extend_from_slice(b"hello world"); // 11 bytes -> wraps
    // The ring keeps the last 10 bytes written, in write order.
    assert_eq!(b.to_vec(), b"ello world".to_vec());
}

#[test]
fn test_wrap_overwrite() {
    let mut b = WaterBuffer::with_capacity_circular(8);
    b.extend_from_slice(b"12345678");
    assert_eq!(b.to_vec(), b"12345678".to_vec());
    b.extend_from_slice(b"ABCD");
    assert_eq!(b.to_vec(), b"5678ABCD".to_vec());
}

#[test]
fn test_multiple_wraps() {
    let mut b = WaterBuffer::with_capacity_circular(5);
    b.extend_from_slice(b"ABCDE");
    assert_eq!(b.to_vec(), b"ABCDE".to_vec());
    b.extend_from_slice(b"12");
    assert_eq!(b.to_vec(), b"CDE12".to_vec());
    b.extend_from_slice(b"XYZ");
    assert_eq!(b.to_vec(), b"12XYZ".to_vec());
}

#[test]
fn test_exact_capacity_write() {
    let mut b = WaterBuffer::with_capacity_circular(5);
    b.extend_from_slice(b"ABCDE");
    assert_eq!(b.to_vec(), b"ABCDE".to_vec());
    assert_eq!(b.len(), 5);
    assert_eq!(b.start_pos(), 0);
}

#[test]
fn test_wrap_exactly_once() {
    let mut b = WaterBuffer::with_capacity_circular(4);
    b.extend_from_slice(b"ABCD");
    b.extend_from_slice(b"EFGH");
    assert_eq!(b.to_vec(), b"EFGH".to_vec());
    assert_eq!(b.start_pos(), 0);
}

#[test]
fn test_push_with_wrap() {
    let mut b = WaterBuffer::with_capacity_circular(3);
    b.push(b'A');
    b.push(b'B');
    b.push(b'C');
    assert_eq!(b.to_vec(), b"ABC".to_vec());

    b.push(b'X'); // Evicts the oldest byte
    assert_eq!(b.to_vec(), b"BCX".to_vec());
}

#[test]
fn test_push_multiple_wraps() {
    let mut b = WaterBuffer::with_capacity_circular(3);
    for byte in b"ABCDEFGH" {
        b.push(*byte);
    }
    // Last 3 bytes should remain
    assert_eq!(b.to_vec(), b"FGH".to_vec());
}

#[test]
fn test_indexing_after_wrap() {
    let mut b = WaterBuffer::with_capacity_circular(4);
    b.extend_from_slice(b"ABCD");
    b.extend_from_slice(b"Z");

    assert_eq!(b.get(0), b'B');
    assert_eq!(b.get(1), b'C');
    assert_eq!(b.get(2), b'D');
    assert_eq!(b.get(3), b'Z');
}

#[test]
fn not_expand_test_index_mut() {
    let mut b = WaterBuffer::with_capacity_circular(4);
    b.extend_from_slice(b"ABCD");
    b.set(0, b'X');
    b.set(3, b'Y');
    assert_eq!(b.to_vec(), b"XBCY".to_vec());
}

#[test]
fn not_expand_test_range_indexing() {
    let mut b = WaterBuffer::with_capacity_circular(8);
    b.extend_from_slice(b"12345678");
    assert_eq!(b.range_to_vec(2, 5), b"345".to_vec());
    assert_eq!(b.range_to_vec(0, 3), b"123".to_vec());
}

#[test]
fn not_expand_test_range_mut_indexing() {
    let mut b = WaterBuffer::with_capacity_circular(8);
    b.extend_from_slice(b"12345678");
    b.set_range(2, b"XYZ");
    assert_eq!(b.to_vec(), b"12XYZ678".to_vec());
}

#[test]
fn test_iter_after_wrap() {
    let mut b = WaterBuffer::with_capacity_circular(6);
    b.extend_from_slice(b"123456");
    b.extend_from_slice(b"XYZ");

    assert_eq!(ring_collected(&b), b"456XYZ".to_vec());
}

#[test]
fn not_expand_test_iter_mut() {
    let mut b = WaterBuffer::with_capacity_circular(5);
    b.extend_from_slice(b"ABCDE");

    let mut it = b.iter_mut();
    while let Some(i) = it.next_index(&b) {
        let byte = b.get(i);
        b.set(i, byte.to_ascii_lowercase());
    }

    assert_eq!(b.to_vec(), b"abcde".to_vec());
}

#[test]
fn not_expand_test_owned_iter() {
    let mut b = WaterBuffer::with_capacity_circular(4);
    b.extend_from_slice(b"ABCD");

    let mut it = b.into_owned_iter();
    let mut out: Vec<u8> = Vec::new();
    while let Some(x) = it.next() {
        out.push(x);
    }
    assert_eq!(out, b"ABCD".to_vec());
}

#[test]
fn test_owned_iter_after_wrap() {
    let mut b = WaterBuffer::with_capacity_circular(4);
    b.extend_from_slice(b"ABCDEFGH");

    let mut it = b.into_owned_iter();
    let mut out: Vec<u8> = Vec::new();
    while let Some(x) = it.next() {
        out.push(x);
    }
    assert_eq!(out, b"EFGH".to_vec());
}

#[test]
fn test_start_pos_updates() {
    let mut b = WaterBuffer::with_capacity_circular(6);
    b.extend_from_slice(b"HELLO!");
    assert_eq!(b.start_pos(), 0);

    b.extend_from_slice(b"OK");
    assert_eq!(b.circular_position(), Some(2));
}

#[test]
fn test_length_tracking() {
    let mut b = WaterBuffer::with_capacity_circular(5);
    assert_eq!(b.len(), 0);

    b.extend_from_slice(b"ABC");
    assert_eq!(b.len(), 3);

    b.extend_from_slice(b"DEF"); // Wraps
    assert_eq!(b.len(), 5); // Capped at capacity
}

#[test]
fn not_expand_test_reset() {
    let mut b = WaterBuffer::with_capacity_circular(5);
    b.extend_from_slice(b"ABCDE");
    b.reset();

    assert_eq!(b.len(), 0);
    assert_eq!(b.start_pos(), 0);
}

#[test]
fn not_expand_test_clear() {
    let mut b = WaterBuffer::with_capacity_circular(5);
    b.extend_from_slice(b"ABCDE");
    b.clear();

    assert_eq!(b.len(), 0);
    assert_eq!(b.start_pos(), 0);
}

#[test]
fn test_reset_after_wrap() {
    let mut b = WaterBuffer::with_capacity_circular(5);
    b.extend_from_slice(b"ABCDEFGH");
    b.reset();

    b.extend_from_slice(b"123");
    assert_eq!(b.to_vec(), b"123".to_vec());
}

#[test]
fn not_expand_test_advance() {
    let mut b = WaterBuffer::with_capacity_circular(10);
    b.extend_from_slice(b"ABCDEFGH");
    b.advance(3);
    assert_eq!(b.len(), 5);
    assert_eq!(b.start_pos(), 3);
    assert_eq!(b.to_vec(), b"DEFGH".to_vec());
}

#[test]
fn not_expand_test_advance_all() {
    let mut b = WaterBuffer::with_capacity_circular(5);
    b.extend_from_slice(b"ABCDE");

    b.advance(5);
    assert_eq!(b.len(), 0);
}

#[test]
fn not_expand_test_chunk_mut() {
    let mut b = WaterBuffer::with_capacity_circular(10);
    b.extend_from_slice(b"ABCDE");

    assert_eq!(b.un_initialized_remaining(), 5); // 10 - 5 = 5 remaining
}

#[test]
fn not_expand_test_advance_mut() {
    let mut b = WaterBuffer::with_capacity_circular(10);
    b.extend_from_slice(b"ABCDE");

    b.spare_set(0, b'X');
    b.spare_set(1, b'Y');
    b.advance_mut(2);

    assert_eq!(b.len(), 7);
    assert_eq!(b.to_vec(), b"ABCDEXY".to_vec());
}

#[test]
fn not_expand_test_un_initialized_remaining() {
    let mut b = WaterBuffer::with_capacity_circular(10);
    assert_eq!(b.un_initialized_remaining(), 10);

    b.extend_from_slice(b"ABCDE");
    assert_eq!(b.un_initialized_remaining(), 5);
}

#[test]
fn test_un_initialized_remaining_after_wrap() {
    let mut b = WaterBuffer::with_capacity_circular(5);
    b.extend_from_slice(b"ABCDEFGH"); // Wraps

    // A wrapped ring is full: no spare room until bytes are consumed.
    assert_eq!(b.un_initialized_remaining(), 0);
}

#[test]
fn not_expand_test_remaining() {
    let mut b = WaterBuffer::with_capacity_circular(10);
    assert_eq!(b.remaining(), 0);

    b.extend_from_slice(b"ABCDE");
    assert_eq!(b.remaining(), 5);
}

#[test]
fn not_expand_test_empty_buffer() {
    let b = WaterBuffer::with_capacity_circular(5);
    assert_eq!(b.len(), 0);
    assert_eq!(b.to_vec(), b"".to_vec());
}

#[test]
fn not_expand_test_single_byte_capacity() {
    let mut b = WaterBuffer::with_capacity_circular(1);
    b.push(b'A');
    assert_eq!(b.to_vec(), b"A".to_vec());

    b.push(b'B');
    assert_eq!(b.to_vec(), b"B".to_vec());
}

#[test]
fn not_expand_test_extend_empty_slice() {
    let mut b = WaterBuffer::with_capacity_circular(5);
    b.extend_from_slice(b"");
    assert_eq!(b.len(), 0);
}

#[test]
fn test_full_slice_after_wrap() {
    let mut b = WaterBuffer::with_capacity_circular(5);
    b.extend_from_slice(b"aaaaa");
    b.extend_from_slice(b"bbb");
    assert_eq!(b.to_vec(), b"aabbb".to_vec());
}

#[test]
fn test_wrap_with_very_large_write() {
    let mut b = WaterBuffer::with_capacity_circular(5);
    b.extend_from_slice(b"0123456789ABCDEF"); // 16 bytes into 5-byte buffer
    // Should contain last 5 bytes written
    assert_eq!(b.len(), 5);
}

#[test]
fn test_alternating_push_and_wrap() {
    let mut b = WaterBuffer::with_capacity_circular(3);
    b.push(b'A');
    b.push(b'B');
    b.push(b'C');
    assert_eq!(b.to_vec(), b"ABC".to_vec());

    b.push(b'D');
    assert_eq!(b.to_vec(), b"BCD".to_vec());

    b.push(b'E');
    assert_eq!(b.to_vec(), b"CDE".to_vec());
    b.push(b'F');
    assert_eq!(b.to_vec(), b"DEF".to_vec());
}

#[test]
fn test_wrap_reset_wrap() {
    let mut b = WaterBuffer::with_capacity_circular(4);
    b.extend_from_slice(b"ABCDEFGH");
    assert_eq!(b.to_vec(), b"EFGH".to_vec());

    b.reset();
    b.extend_from_slice(b"1234");
    assert_eq!(b.to_vec(), b"1234".to_vec());

    b.extend_from_slice(b"XY");
    assert_eq!(b.to_vec(), b"34XY".to_vec());
}

#[test]
fn test_advance_then_wrap() {
    let mut b = WaterBuffer::with_capacity_circular(8);
    b.extend_from_slice(b"ABCDEFGH");
    b.advance(4);
    assert_eq!(b.to_vec(), b"EFGH".to_vec());

    b.extend_from_slice(b"12345");
    // After advance, we have 4 bytes, adding 5 more should wrap
    assert_eq!(b.len(), 8);
}

#[test]
fn test_wrap_exactly_2x_capacity() {
    let mut b = WaterBuffer::with_capacity_circular(4);
    b.extend_from_slice(b"ABCDEFGH"); // Exactly 2x capacity
    assert_eq!(b.to_vec(), b"EFGH".to_vec());
    assert_eq!(b.len(), 4);
    assert_eq!(b.circular_position(), Some(0));
}

#[test]
fn test_wrap_exactly_3x_capacity() {
    let mut b = WaterBuffer::with_capacity_circular(3);
    b.extend_from_slice(b"ABCDEFGHI"); // Exactly 3x capacity
    assert_eq!(b.to_vec(), b"GHI".to_vec());
    assert_eq!(b.len(), 3);
}

#[test]
fn test_wrap_with_non_zero_start_pos() {
    let mut b = WaterBuffer::with_capacity_circular(8);
    b.extend_from_slice(b"ABCD");
    b.advance(2); // start_pos = 2, remaining = "CD"
    assert_eq!(b.start_pos(), 2);

    b.extend_from_slice(b"EFGHIJKL"); // Add 8 more bytes
    // Total filled would be 10, capacity is 8
    assert_eq!(b.len(), 8);
}

#[test]
fn test_multiple_complete_wraps() {
    let mut b = WaterBuffer::with_capacity_circular(3);
    b.extend_from_slice(b"ABC");
    assert_eq!(b.to_vec(), b"ABC".to_vec());

    b.extend_from_slice(b"123456789"); // 3x capacity
    assert_eq!(b.to_vec(), b"789".to_vec());
    assert_eq!(b.len(), 3);
}

#[test]
fn test_wrap_then_partial_write() {
    let mut b = WaterBuffer::with_capacity_circular(5);
    b.extend_from_slice(b"ABCDEFGH"); // Wrap
    assert_eq!(b.to_vec(), b"DEFGH".to_vec());

    b.extend_from_slice(b"12"); // Partial write after wrap
    assert_eq!(b.to_vec(), b"FGH12".to_vec());
}

#[test]
fn test_advance_after_wrap() {
    let mut b = WaterBuffer::with_capacity_circular(6);
    b.extend_from_slice(b"ABCDEFGHIJ"); // Wrap occurs
    assert_eq!(b.len(), 6);

    b.advance(3);
    assert_eq!(b.len(), 3);
    assert_eq!(b.start_pos(), 3);
}

#[test]
fn test_multiple_advances() {
    let mut b = WaterBuffer::with_capacity_circular(10);
    b.extend_from_slice(b"ABCDEFGH");

    b.advance(2);
    assert_eq!(b.len(), 6);
    assert_eq!(b.start_pos(), 2);

    b.advance(3);
    assert_eq!(b.len(), 3);
    assert_eq!(b.start_pos(), 5);

    b.advance(3);
    assert_eq!(b.len(), 0);
    // Consuming the last byte rewinds the cursors to zero.
    assert_eq!(b.start_pos(), 0);
}

#[test]
fn test_advance_then_extend_after_wrap() {
    let mut b = WaterBuffer::with_capacity_circular(6);
    b.extend_from_slice(b"ABCDEFGHIJ");

    b.advance(4);
    assert_eq!(b.len(), 2);

    b.extend_from_slice(b"12345");
    assert_eq!(b.len(), 6); // Should be at capacity
}

#[test]
fn test_advance_to_exact_length() {
    let mut b = WaterBuffer::with_capacity_circular(5);
    b.extend_from_slice(b"ABCDE");

    b.advance(5);
    assert_eq!(b.len(), 0);
    // Consuming the whole window rewinds the cursors to zero.
    assert_eq!(b.start_pos(), 0);
}

#[test]
fn test_range_indexing_after_wrap() {
    let mut b = WaterBuffer::with_capacity_circular(8);
    b.extend_from_slice(b"ABCDEFGHIJKL");
    // Buffer should contain last 8 bytes: "EFGHIJKL"

    let slice = b.range_to_vec(2, 5);
    assert_eq!(slice.len(), 3);
}

#[test]
fn test_range_mut_after_wrap() {
    let mut b = WaterBuffer::with_capacity_circular(6);
    b.extend_from_slice(b"ABCDEFGH");

    b.set_range(1, b"XYZ");
    let result = b.to_vec();
    assert_eq!(result.len(), 6);
}

#[test]
fn test_full_range_after_multiple_wraps() {
    let mut b = WaterBuffer::with_capacity_circular(4);
    b.extend_from_slice(b"AAAABBBBCCCC"); // Multiple wraps

    let full = b.to_vec();
    assert_eq!(full.len(), 4);
}

#[test]
fn test_chunk_mut_when_full() {
    let mut b = WaterBuffer::with_capacity_circular(5);
    b.extend_from_slice(b"ABCDE");

    assert_eq!(b.un_initialized_remaining(), 0); // No space remaining
}

#[test]
fn test_chunk_mut_after_wrap() {
    let mut b = WaterBuffer::with_capacity_circular(6);
    b.extend_from_slice(b"ABCDEFGH"); // Wraps

    assert_eq!(b.un_initialized_remaining(), 0);
}

#[test]
fn test_multiple_chunk_mut_advance_mut_cycles() {
    let mut b = WaterBuffer::with_capacity_circular(10);

    // First cycle
    b.spare_set(0, b'A');
    b.spare_set(1, b'B');
    b.advance_mut(2);
    assert_eq!(b.len(), 2);

    // Second cycle
    b.spare_set(0, b'C');
    b.spare_set(1, b'D');
    b.advance_mut(2);
    assert_eq!(b.len(), 4);

    assert_eq!(b.to_vec(), b"ABCD".to_vec());
}

#[test]
fn test_chunk_mut_with_start_pos() {
    let mut b = WaterBuffer::with_capacity_circular(10);
    b.extend_from_slice(b"ABCD");
    b.advance(2);

    assert!(b.un_initialized_remaining() > 0);
}

#[test]
fn test_iter_with_non_zero_start_pos() {
    let mut b = WaterBuffer::with_capacity_circular(10);
    b.extend_from_slice(b"ABCDEFGH");
    b.advance(3);
    assert_eq!(ring_collected(&b), b"DEFGH".to_vec());
}

#[test]
fn test_iter_mut_after_wrap() {
    let mut b = WaterBuffer::with_capacity_circular(5);
    b.extend_from_slice(b"ABCDEFGH");

    let mut it = b.iter_mut();
    while let Some(i) = it.next_index(&b) {
        b.set(i, b'X');
    }

    assert!(ring_collected(&b).iter().all(|&x| x == b'X'));
}

#[test]
fn test_iter_empty_buffer() {
    let b = WaterBuffer::with_capacity_circular(5);
    assert_eq!(ring_collected(&b).len(), 0);
}

#[test]
fn test_owned_iter_with_advance() {
    let mut b = WaterBuffer::with_capacity_circular(8);
    b.extend_from_slice(b"ABCDEFGH");
    b.advance(3);

    let mut it = b.into_owned_iter();
    let mut out: Vec<u8> = Vec::new();
    while let Some(x) = it.next() {
        out.push(x);
    }
    assert_eq!(out, b"DEFGH".to_vec());
}

#[test]
fn test_zero_capacity_creation() {
    let b = WaterBuffer::with_capacity_circular(0);
    assert_eq!(b.cap(), 0);
    assert_eq!(b.len(), 0);
}

#[test]
fn test_zero_capacity_operations() {
    let mut b = WaterBuffer::with_capacity_circular(0);
    b.extend_from_slice(b"ABC");
    assert_eq!(b.len(), 0);
}

#[test]
fn test_circular_position_consistency() {
    let mut b = WaterBuffer::with_capacity_circular(5);
    assert_eq!(b.circular_position(), None);

    // The write cursor appears as soon as the ring is full.
    b.extend_from_slice(b"ABCDE");
    assert_eq!(b.circular_position(), Some(0));

    b.extend_from_slice(b"F");
    assert!(b.circular_position().is_some());
}

#[test]
fn test_circular_position_after_multiple_wraps() {
    let mut b = WaterBuffer::with_capacity_circular(4);

    // The write cursor appears as soon as the ring is full.
    b.extend_from_slice(b"ABCD");
    assert_eq!(b.circular_position(), Some(0));

    b.extend_from_slice(b"EFGH");
    assert_eq!(b.circular_position(), Some(0));

    b.extend_from_slice(b"IJ");
    assert_eq!(b.circular_position(), Some(2));
}

#[test]
fn test_start_pos_never_exceeds_capacity() {
    let mut b = WaterBuffer::with_capacity_circular(5);
    b.extend_from_slice(b"ABCDEFGHIJKLMNOP");

    assert!(b.start_pos() < b.cap());
}

#[test]
fn test_len_never_exceeds_capacity() {
    let mut b = WaterBuffer::with_capacity_circular(6);

    for _ in 0..100 {
        b.push(b'X');
        assert!(b.len() <= b.cap());
    }
}

#[test]
fn test_push_advance_push_wrap() {
    let mut b = WaterBuffer::with_capacity_circular(5);

    b.push(b'A');
    b.push(b'B');
    b.push(b'C');
    assert_eq!(b.to_vec(), b"ABC".to_vec());

    b.advance(2);
    assert_eq!(b.to_vec(), b"C".to_vec());

    b.extend_from_slice(b"DEFGH");
    assert_eq!(b.len(), 5);
}

#[test]
fn test_wrap_advance_wrap_advance() {
    let mut b = WaterBuffer::with_capacity_circular(4);

    b.extend_from_slice(b"ABCDEF"); // First wrap
    assert_eq!(b.len(), 4);

    b.advance(2); // Remove 2
    assert_eq!(b.len(), 2);

    b.extend_from_slice(b"GHIJ"); // Second wrap
    assert_eq!(b.len(), 4);

    b.advance(1);
    assert_eq!(b.len(), 3);
}

#[test]
fn test_interleaved_push_and_extend() {
    let mut b = WaterBuffer::with_capacity_circular(6);

    b.push(b'A');
    b.extend_from_slice(b"BC");
    b.push(b'D');
    b.extend_from_slice(b"EF");
    assert_eq!(b.to_vec(), b"ABCDEF".to_vec());
    b.push(b'G'); // Should wrap
    assert_eq!(b.len(), 6);
}

#[test]
fn test_chunk_mut_wrap_advance() {
    let mut b = WaterBuffer::with_capacity_circular(8);

    b.spare_set(0, b'A');
    b.spare_set(1, b'B');
    b.spare_set(2, b'C');
    b.spare_set(3, b'D');
    b.advance_mut(4);

    b.extend_from_slice(b"EFGHIJKL"); // Should wrap
    assert_eq!(b.len(), 8);

    b.advance(4);
    assert_eq!(b.len(), 4);
}

#[test]
fn test_un_initialized_remaining_progression() {
    let mut b = WaterBuffer::with_capacity_circular(5);
    assert_eq!(b.un_initialized_remaining(), 5);

    b.push(b'A');
    assert_eq!(b.un_initialized_remaining(), 4);

    b.extend_from_slice(b"BCDE");
    assert_eq!(b.un_initialized_remaining(), 0);

    b.push(b'F'); // Evicts the oldest byte; the ring stays full.
    assert_eq!(b.un_initialized_remaining(), 0);
}

#[test]
fn test_un_initialized_after_full_wrap() {
    let mut b = WaterBuffer::with_capacity_circular(4);
    b.extend_from_slice(b"ABCDEFGH"); // Complete wrap

    assert_eq!(b.un_initialized_remaining(), 0);
}

#[test]
fn test_write_at_exact_boundary() {
    let mut b = WaterBuffer::with_capacity_circular(5);
    b.extend_from_slice(b"ABCDE"); // Exactly at boundary

    assert_eq!(b.len(), 5);
    // The write cursor appears as soon as the ring is full.
    assert_eq!(b.circular_position(), Some(0));

    b.push(b'F'); // One more keeps the ring full, cursor moved on
    assert_eq!(b.circular_position(), Some(1));
}

#[test]
fn test_advance_at_boundary() {
    let mut b = WaterBuffer::with_capacity_circular(5);
    b.extend_from_slice(b"ABCDE");

    b.advance(5);
    assert_eq!(b.len(), 0);
    // Consuming the whole window rewinds the cursors to zero.
    assert_eq!(b.start_pos(), 0);
}

#[test]
fn test_many_small_writes() {
    let mut b = WaterBuffer::with_capacity_circular(10);

    for i in 0..50 {
        b.push((i % 256) as u8);
    }

    assert_eq!(b.len(), 10);
}

#[test]
fn test_alternating_write_advance() {
    let mut b = WaterBuffer::with_capacity_circular(8);

    for _ in 0..20 {
        b.extend_from_slice(b"ABC");
        if b.len() > 3 {
            b.advance(2);
        }
    }

    assert!(b.len() <= b.cap());
}

#[test]
fn test_reset_after_complex_operations() {
    let mut b = WaterBuffer::with_capacity_circular(6);

    b.extend_from_slice(b"ABCDEF");
    b.advance(3);
    b.extend_from_slice(b"GHIJKL");
    b.push(b'X');

    b.reset();

    assert_eq!(b.len(), 0);
    assert_eq!(b.start_pos(), 0);
    assert_eq!(b.circular_position(), None);

    b.extend_from_slice(b"123");
    assert_eq!(b.to_vec(), b"123".to_vec());
}

#[test]
fn test_index_at_boundaries() {
    let mut b = WaterBuffer::with_capacity_circular(5);
    b.extend_from_slice(b"ABCDE");

    assert_eq!(b.get(0), b'A');
    assert_eq!(b.get(4), b'E');
}

#[test]
fn not_expand_test_index_out_of_bounds() {
    let mut b = WaterBuffer::with_capacity_circular(5);
    b.extend_from_slice(b"ABC");
    // Circular single-index access resolves modulo the window length.
    assert_eq!(b.get(5), b'C');
}

#[test]
fn test_index_mut_boundaries() {
    let mut b = WaterBuffer::with_capacity_circular(5);
    b.extend_from_slice(b"ABCDE");

    b.set(0, b'X');
    b.set(4, b'Y');

    assert_eq!(b.to_vec(), b"XBCDY".to_vec());
}

#[test]
fn test_range_full_buffer() {
    let mut b = WaterBuffer::with_capacity_circular(5);
    b.extend_from_slice(b"ABCDE");

    assert_eq!(b.range_to_vec(0, 5), b"ABCDE".to_vec());
}

#[test]
fn test_range_empty() {
    let mut b = WaterBuffer::with_capacity_circular(5);
    b.extend_from_slice(b"ABCDE");

    assert_eq!(b.range_to_vec(2, 2), b"".to_vec());
}
