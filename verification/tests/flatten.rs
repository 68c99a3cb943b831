//! Tests of the image flattener: segment merging, gap zero-fill, and the
//! errors owed to empty and malformed inputs.

use hf2_flash::image::elf_to_bin;
use hf2_flash::image::flatten_segments;
use hf2_flash::image::ImageError;
use hf2_flash::image::Segment;
use hf2_flash::image::SEGMENT_KIND_LOAD;

fn seg(offset: u64, size: u64, paddr: u64) -> Segment {
    Segment { kind: SEGMENT_KIND_LOAD, file_offset: offset, file_size: size, physical_address: paddr }
}

#[test]
fn single_segment_identity() {
    let buffer: Vec<u8> = vec![9, 8, 7, 6, 5, 4, 3, 2, 1, 0];
    let segments = vec![seg(2, 5, 0x2000_0000)];
    let flat = flatten_segments(&buffer, &segments).unwrap();
    assert_eq!(flat.bytes, vec![7, 6, 5, 4, 3]);
    assert_eq!(flat.bytes.len(), 5);
    assert_eq!(flat.base_address, 0x2000_0000);
}

#[test]
fn gap_zero_fill() {
    let buffer: Vec<u8> = vec![1, 2, 3, 4, 5, 6, 7, 8];
    // First segment ends at 0x1003; second starts at 0x1006: a 3-byte gap.
    let segments = vec![seg(0, 3, 0x1000), seg(4, 2, 0x1006)];
    let flat = flatten_segments(&buffer, &segments).unwrap();
    assert_eq!(flat.bytes, vec![1, 2, 3, 0, 0, 0, 5, 6]);
    assert_eq!(flat.base_address, 0x1000);
}

#[test]
fn adjacent_segments_no_gap() {
    let buffer: Vec<u8> = vec![1, 2, 3, 4, 5, 6];
    let segments = vec![seg(0, 3, 0x100), seg(3, 3, 0x103)];
    let flat = flatten_segments(&buffer, &segments).unwrap();
    assert_eq!(flat.bytes, vec![1, 2, 3, 4, 5, 6]);
    assert_eq!(flat.base_address, 0x100);
}

#[test]
fn flatten_deterministic() {
    let buffer: Vec<u8> = vec![10, 20, 30, 40, 50, 60, 70, 80];
    let segments = vec![seg(0, 4, 0x400), seg(6, 2, 0x406)];
    let first = flatten_segments(&buffer, &segments).unwrap();
    let second = flatten_segments(&buffer, &segments).unwrap();
    assert_eq!(first.bytes, second.bytes);
    assert_eq!(first.base_address, second.base_address);
}

#[test]
fn non_load_and_empty_segments_are_skipped() {
    let buffer: Vec<u8> = vec![1, 2, 3, 4, 5, 6];
    let segments = vec![
        Segment { kind: 6, file_offset: 0, file_size: 6, physical_address: 0 },
        Segment { kind: SEGMENT_KIND_LOAD, file_offset: 0, file_size: 0, physical_address: 0 },
        seg(1, 2, 0x10),
    ];
    let flat = flatten_segments(&buffer, &segments).unwrap();
    assert_eq!(flat.bytes, vec![2, 3]);
    assert_eq!(flat.base_address, 0x10);
}

#[test]
fn no_qualifying_segment_is_empty_error() {
    let buffer: Vec<u8> = vec![1, 2, 3];
    let segments = vec![
        Segment { kind: 6, file_offset: 0, file_size: 3, physical_address: 0 },
        Segment { kind: SEGMENT_KIND_LOAD, file_offset: 0, file_size: 0, physical_address: 0 },
    ];
    assert_eq!(flatten_segments(&buffer, &segments), Err(ImageError::Empty));
}

#[test]
fn overlapping_segments_are_malformed() {
    let buffer: Vec<u8> = vec![0; 16];
    let segments = vec![seg(0, 8, 0x100), seg(8, 8, 0x104)];
    assert_eq!(flatten_segments(&buffer, &segments), Err(ImageError::MalformedContainer));
}

#[test]
fn segment_beyond_address_space_is_malformed() {
    let buffer: Vec<u8> = vec![0; 8];
    let segments = vec![seg(0, 8, 0x1_0000_0000)];
    assert_eq!(flatten_segments(&buffer, &segments), Err(ImageError::MalformedContainer));
    let nearly = vec![seg(0, 8, u64::from(u32::MAX) - 3)];
    assert_eq!(flatten_segments(&buffer, &nearly), Err(ImageError::MalformedContainer));
}

#[test]
fn segment_ending_at_top_of_address_space_flattens() {
    let buffer: Vec<u8> = vec![1, 2, 3, 4];
    let segments = vec![seg(0, 4, u64::from(u32::MAX) - 4)];
    let flat = flatten_segments(&buffer, &segments).unwrap();
    assert_eq!(flat.bytes, vec![1, 2, 3, 4]);
    assert_eq!(flat.base_address, u32::MAX - 4);
}

#[test]
fn segment_outside_file_is_malformed() {
    let buffer: Vec<u8> = vec![0; 4];
    let segments = vec![seg(2, 8, 0x100)];
    assert_eq!(flatten_segments(&buffer, &segments), Err(ImageError::MalformedContainer));
}

/// Builds a little-endian 64-bit executable container with the given program
/// header entries and trailing payload bytes.
fn build_elf(entries: &[(u32, u64, u64, u64)], payload: &[u8]) -> Vec<u8> {
    let mut b: Vec<u8> = Vec::new();
    // identification
    b.extend_from_slice(&[0x7F, b'E', b'L', b'F', 2, 1, 1, 0]);
    b.extend_from_slice(&[0; 8]);
    b.extend_from_slice(&2u16.to_le_bytes()); // executable
    b.extend_from_slice(&0x28u16.to_le_bytes()); // machine
    b.extend_from_slice(&1u32.to_le_bytes()); // version
    b.extend_from_slice(&0u64.to_le_bytes()); // entry
    let phoff: u64 = if entries.is_empty() { 0 } else { 64 };
    b.extend_from_slice(&phoff.to_le_bytes());
    b.extend_from_slice(&0u64.to_le_bytes()); // no section headers
    b.extend_from_slice(&0u32.to_le_bytes()); // flags
    b.extend_from_slice(&64u16.to_le_bytes()); // header size
    b.extend_from_slice(&56u16.to_le_bytes()); // program header entry size
    b.extend_from_slice(&(entries.len() as u16).to_le_bytes());
    b.extend_from_slice(&64u16.to_le_bytes());
    b.extend_from_slice(&0u16.to_le_bytes());
    b.extend_from_slice(&0u16.to_le_bytes());
    for &(p_type, p_offset, p_filesz, p_paddr) in entries {
        b.extend_from_slice(&p_type.to_le_bytes());
        b.extend_from_slice(&5u32.to_le_bytes()); // flags: read + execute
        b.extend_from_slice(&p_offset.to_le_bytes());
        b.extend_from_slice(&p_paddr.to_le_bytes()); // virtual address
        b.extend_from_slice(&p_paddr.to_le_bytes());
        b.extend_from_slice(&p_filesz.to_le_bytes());
        b.extend_from_slice(&p_filesz.to_le_bytes()); // memory size
        b.extend_from_slice(&4u64.to_le_bytes()); // alignment
    }
    b.extend_from_slice(payload);
    b
}

#[test]
fn elf_with_one_load_segment_flattens_to_its_bytes() {
    // One entry: 56 bytes at offset 64, so the payload starts at 120.
    let payload: Vec<u8> = (0u8..16).collect();
    let buffer = build_elf(&[(1, 120, 16, 0x2000_0000)], &payload);
    let flat = elf_to_bin(&buffer).unwrap();
    assert_eq!(flat.bytes, payload);
    assert_eq!(flat.base_address, 0x2000_0000);
}

#[test]
fn elf_with_gap_zero_fills_between_segments() {
    // Two entries: payload starts at 64 + 2 * 56 = 176.
    let payload: Vec<u8> = vec![1, 2, 3, 4, 9, 9];
    let buffer = build_elf(
        &[(1, 176, 4, 0x100), (1, 180, 2, 0x106)],
        &payload,
    );
    let flat = elf_to_bin(&buffer).unwrap();
    assert_eq!(flat.bytes, vec![1, 2, 3, 4, 0, 0, 9, 9]);
    assert_eq!(flat.base_address, 0x100);
}

#[test]
fn empty_image_scenario() {
    // A container whose only entries do not qualify: nothing to flash, and
    // the failure comes before any device interaction.
    let buffer = build_elf(&[(6, 120, 0, 0), (1, 120, 0, 0x100)], &[]);
    assert_eq!(elf_to_bin(&buffer), Err(ImageError::Empty));
}

#[test]
fn garbage_container_is_malformed() {
    let buffer: Vec<u8> = vec![1, 2, 3, 4, 5, 6, 7, 8];
    assert_eq!(elf_to_bin(&buffer), Err(ImageError::MalformedContainer));
}
