use wasm_bridge::archive::{decode, encode, fits_archive, MAX_ARCHIVE_LEN};
use wasm_bridge::channel::ResultBuffer;
use wasm_bridge::error::BridgeError;
use wasm_bridge::guest::{guest_transform, guest_transform_at};
use wasm_bridge::memory::{read_region, write_bytes_into_guest, MemoryHandle};
use wasm_bridge::value::SharedStruct;

fn sample() -> SharedStruct {
    SharedStruct::new(
        "input".to_string(),
        vec!["input1".to_string(), "input2".to_string()],
        vec![1, 2, 3, 4],
    )
}

fn same(a: &SharedStruct, b: &SharedStruct) -> bool {
    a.name == b.name && a.list == b.list && a.other_list == b.other_list
}

#[test]
fn round_trip_keeps_every_field() {
    let v = sample();
    let bytes = encode(&v).unwrap();
    let back = decode(&bytes).unwrap();
    assert!(same(&v, &back));
}

#[test]
fn round_trip_of_empty_value() {
    let v = SharedStruct::new(String::new(), vec![], vec![]);
    let bytes = encode(&v).unwrap();
    assert!(!bytes.is_empty());
    let back = decode(&bytes).unwrap();
    assert!(same(&v, &back));
}

#[test]
fn round_trip_of_long_lists() {
    let list: Vec<String> = (0..300).map(|i| format!("item-{}", i)).collect();
    let other: Vec<u8> = (0..=255).collect();
    let v = SharedStruct::new("\u{fc}n\u{ef}code name".to_string(), list, other);
    let bytes = encode(&v).unwrap();
    let back = decode(&bytes).unwrap();
    assert!(same(&v, &back));
}

#[test]
fn encode_is_deterministic() {
    assert_eq!(encode(&sample()).unwrap(), encode(&sample()).unwrap());
}

#[test]
fn cross_boundary_identity() {
    let v = sample();
    let bytes = encode(&v).unwrap();
    let mut memory = vec![0u8; 4096];
    let h = write_bytes_into_guest(&mut memory, 1000, &bytes).unwrap();
    assert_eq!(h, MemoryHandle { offset: 1000, len: bytes.len() as u32 });
    let read = read_region(&memory, h).unwrap();
    assert_eq!(read, bytes);
    let back = decode(&read).unwrap();
    assert!(same(&v, &back));
}

#[test]
fn boundary_respected_when_neighbours_are_poisoned() {
    let v = sample();
    let bytes = encode(&v).unwrap();
    let mut memory = vec![0u8; 2048];
    let h = write_bytes_into_guest(&mut memory, 64, &bytes).unwrap();
    for i in 0..64 {
        memory[i] = 0xAB;
    }
    for i in (64 + bytes.len())..memory.len() {
        memory[i] = 0xCD;
    }
    let back = decode(&read_region(&memory, h).unwrap()).unwrap();
    assert!(same(&v, &back));
}

#[test]
fn write_leaves_outside_bytes_alone() {
    let mut memory = vec![7u8; 16];
    let h = write_bytes_into_guest(&mut memory, 4, &[1, 2, 3]).unwrap();
    assert_eq!(h, MemoryHandle { offset: 4, len: 3 });
    assert_eq!(memory, vec![7, 7, 7, 7, 1, 2, 3, 7, 7, 7, 7, 7, 7, 7, 7, 7]);
}

#[test]
fn write_past_the_end_is_a_boundary_violation() {
    let mut memory = vec![0u8; 8];
    let r = write_bytes_into_guest(&mut memory, 6, &[1, 2, 3]);
    assert_eq!(r, Err(BridgeError::BoundaryViolation));
    assert_eq!(memory, vec![0u8; 8]);
}

#[test]
fn write_at_negative_pointer_is_a_boundary_violation() {
    let mut memory = vec![0u8; 8];
    assert_eq!(write_bytes_into_guest(&mut memory, -1, &[1]), Err(BridgeError::BoundaryViolation));
}

#[test]
fn write_that_ends_exactly_at_the_end_fits() {
    let mut memory = vec![0u8; 8];
    let h = write_bytes_into_guest(&mut memory, 5, &[9, 9, 9]).unwrap();
    assert_eq!(read_region(&memory, h).unwrap(), vec![9, 9, 9]);
}

#[test]
fn read_outside_memory_is_a_boundary_violation() {
    let memory = vec![0u8; 8];
    assert_eq!(
        read_region(&memory, MemoryHandle { offset: 4, len: 5 }),
        Err(BridgeError::BoundaryViolation)
    );
    assert_eq!(
        read_region(&memory, MemoryHandle { offset: u32::MAX, len: 2 }),
        Err(BridgeError::BoundaryViolation)
    );
    assert_eq!(read_region(&memory, MemoryHandle { offset: 8, len: 0 }), Ok(vec![]));
}

#[test]
fn raw_handles_read_as_unsigned() {
    let h = MemoryHandle::from_raw(-1, 5);
    assert_eq!(h, MemoryHandle { offset: u32::MAX, len: 5 });
    assert_eq!(h.to_raw(), (-1, 5));
    let h = MemoryHandle::from_raw(i32::MIN, 0);
    assert_eq!(h.offset, 0x8000_0000);
    assert_eq!(h.to_raw(), (i32::MIN, 0));
}

#[test]
fn callback_result_is_ready_when_the_call_returns() {
    let result = sample().transform();
    let bytes = encode(&result).unwrap();
    let mut guest_memory = vec![0u8; 1024];
    let h = write_bytes_into_guest(&mut guest_memory, 32, &bytes).unwrap();
    let (ptr, len) = h.to_raw();
    let mut host = ResultBuffer::new();
    assert_eq!(host.set_transform_result(&guest_memory, ptr, len), Ok(()));
    let (stored, value) = host.read_result();
    assert_eq!(stored, bytes);
    assert!(same(&value.unwrap(), &result));
}

#[test]
fn callback_replaces_earlier_contents_and_repeats_harmlessly() {
    let memory: Vec<u8> = (0..32).collect();
    let mut host = ResultBuffer::new();
    host.set_transform_result(&memory, 0, 10).unwrap();
    host.set_transform_result(&memory, 4, 3).unwrap();
    assert_eq!(host.read_result().0, vec![4, 5, 6]);
    host.set_transform_result(&memory, 4, 3).unwrap();
    assert_eq!(host.read_result().0, vec![4, 5, 6]);
}

#[test]
fn callback_with_bad_range_stores_nothing() {
    let mut host = ResultBuffer::new();
    let memory = vec![1u8; 16];
    assert_eq!(host.set_transform_result(&memory, 10, 7), Err(BridgeError::BoundaryViolation));
    assert_eq!(host.set_transform_result(&memory, 0, -1), Err(BridgeError::BoundaryViolation));
    let (stored, value) = host.read_result();
    assert!(stored.is_empty());
    assert_eq!(value.err(), Some(BridgeError::CorruptEncoding));
    host.set_transform_result(&memory, 0, 2).unwrap();
    assert_eq!(host.set_transform_result(&memory, -4, 2), Err(BridgeError::BoundaryViolation));
    assert_eq!(host.read_result().0, vec![1, 1]);
}

#[test]
fn guest_reads_its_input_from_its_memory() {
    let input = encode(&sample()).unwrap();
    let mut memory = vec![0xEEu8; 4096];
    let h = write_bytes_into_guest(&mut memory, 200, &input).unwrap();
    let (ptr, len) = h.to_raw();
    let output = guest_transform_at(&memory, ptr, len).unwrap();
    assert_eq!(output, guest_transform(&input).unwrap());
    let r = decode(&output).unwrap();
    assert_eq!(r.name, "input_updated");
    assert_eq!(guest_transform_at(&memory, 4090, len), Err(BridgeError::BoundaryViolation));
}

#[test]
fn guest_output_is_deterministic() {
    let input = encode(&sample()).unwrap();
    assert_eq!(guest_transform(&input).unwrap(), guest_transform(&input).unwrap());
}

#[test]
fn example_transform() {
    let r = sample().transform();
    assert_eq!(r.name, "input_updated");
    assert_eq!(r.list, vec!["updated_5".to_string(), "input2".to_string()]);
    assert_eq!(r.other_list, vec![15, 3, 4]);
}

#[test]
fn example_transform_through_the_guest_step() {
    let input = encode(&sample()).unwrap();
    let output = guest_transform(&input).unwrap();
    let r = decode(&output).unwrap();
    assert_eq!(r.name, "input_updated");
    assert_eq!(r.list, vec!["updated_5".to_string(), "input2".to_string()]);
    assert_eq!(r.other_list, vec![15, 3, 4]);
}

#[test]
fn transform_of_shortest_accepted_value() {
    let v = SharedStruct::new("a".to_string(), vec!["x".to_string()], vec![8, 9]);
    assert!(v.can_transform());
    let r = v.transform();
    assert_eq!(r.name, "a_updated");
    assert_eq!(r.list, vec!["updated_5".to_string()]);
    assert_eq!(r.other_list, vec![15]);
}

#[test]
fn guest_rejects_value_it_cannot_transform() {
    let v = SharedStruct::new("a".to_string(), vec![], vec![1, 2]);
    assert!(!v.can_transform());
    let input = encode(&v).unwrap();
    assert_eq!(guest_transform(&input), Err(BridgeError::TransformRejected));
    let v = SharedStruct::new("a".to_string(), vec!["x".to_string()], vec![1]);
    let input = encode(&v).unwrap();
    assert_eq!(guest_transform(&input), Err(BridgeError::TransformRejected));
}

#[test]
fn guest_rejects_corrupt_input() {
    assert_eq!(guest_transform(&[]), Err(BridgeError::CorruptEncoding));
}

#[test]
fn decode_rejects_empty_buffer() {
    assert_eq!(decode(&[]).err(), Some(BridgeError::CorruptEncoding));
}

#[test]
fn decode_rejects_truncated_buffers() {
    let bytes = encode(&sample()).unwrap();
    for cut in [1usize, 2, 3, bytes.len() / 2, bytes.len() - 1] {
        let r = decode(&bytes[..bytes.len() - cut]);
        assert_eq!(r.err(), Some(BridgeError::CorruptEncoding), "cut {}", cut);
    }
}

#[test]
fn decode_rejects_corrupted_offsets() {
    let bytes = encode(&sample()).unwrap();
    let mut bad = bytes.clone();
    let n = bad.len();
    for b in &mut bad[n - 24..] {
        *b = 0xFF;
    }
    assert_eq!(decode(&bad).err(), Some(BridgeError::CorruptEncoding));
    let garbage = vec![0xFFu8; 64];
    assert_eq!(decode(&garbage).err(), Some(BridgeError::CorruptEncoding));
}

#[test]
fn decode_rejects_invalid_text() {
    let v = SharedStruct::new("abcd".to_string(), vec![], vec![]);
    let bytes = encode(&v).unwrap();
    // a short string lives inline in the root; make its bytes invalid UTF-8
    let mut bad = bytes.clone();
    let pos = bad.windows(4).position(|w| w == b"abcd").unwrap();
    bad[pos] = 0xFF;
    assert_eq!(decode(&bad).err(), Some(BridgeError::CorruptEncoding));
}

#[test]
fn ordinary_values_fit_an_archive() {
    assert!(fits_archive(&sample()));
    assert!(fits_archive(&SharedStruct::new(String::new(), vec![], vec![])));
    assert!(encode(&sample()).unwrap().len() <= MAX_ARCHIVE_LEN);
}
