//! Tests of the flash orchestrator: the write/verify protocol sequence, the
//! verify success and failure scenarios, and the error owed to each failing
//! stage.

use hf2_flash::checksum::page_checksums;
use hf2_flash::flash::Action;
use hf2_flash::flash::DeviceDescriptor;
use hf2_flash::flash::DeviceMode;
use hf2_flash::flash::Event;
use hf2_flash::flash::FlashError;
use hf2_flash::flash::FlashStage;
use hf2_flash::flash::Orchestrator;
use hf2_flash::image::FlatImage;

const BASE: u32 = 0x1000;

fn descriptor(mode: DeviceMode) -> DeviceDescriptor {
    DeviceDescriptor { mode, flash_page_size: 8, max_message_size: 10 }
}

fn image(len: u8) -> FlatImage {
    FlatImage { bytes: (0..len).collect(), base_address: BASE }
}

/// Drives a run against a simulated device that acknowledges every command
/// and reports the given checksums. Returns whether `start_flash` and
/// `reset_into_app` were issued, and how many pages were written.
fn run(o: &mut Orchestrator, device_checksums: &[u16]) -> (bool, bool, usize) {
    let mut saw_start = false;
    let mut saw_reset = false;
    let mut writes = 0usize;
    let mut guard = 0usize;
    while let Some(action) = o.current_action() {
        guard += 1;
        assert!(guard < 1000, "the run does not terminate");
        match action {
            Action::StartFlash => {
                saw_start = true;
                o.step(Event::Ack);
            }
            Action::WritePage { address, page_index, data } => {
                assert_eq!(address, BASE + 8 * page_index as u32);
                assert_eq!(data.len(), 8);
                assert_eq!(data, o.binary[page_index * 8..page_index * 8 + 8].to_vec());
                assert_eq!(page_index, writes);
                writes += 1;
                o.step(Event::Ack);
            }
            Action::ChecksumPages { address, page_count } => {
                assert!(page_count >= 1 && page_count <= 3);
                let first = ((address - BASE) / 8) as usize;
                let cs = device_checksums[first..first + page_count as usize].to_vec();
                o.step(Event::Checksums { checksums: cs });
            }
            Action::ResetIntoApp => {
                saw_reset = true;
                o.step(Event::Ack);
            }
        }
    }
    (saw_start, saw_reset, writes)
}

#[test]
fn verify_success_scenario() {
    // 37 bytes pad to 40: five 8-byte pages; max_message_size 10 gives
    // checksum batches of 10 / 2 - 2 = 3 pages.
    let mut o = Orchestrator::new(image(37), &descriptor(DeviceMode::Application)).unwrap();
    assert_eq!(o.binary.len(), 40);
    let local = page_checksums(&o.binary, 8);
    let (saw_start, saw_reset, writes) = run(&mut o, &local);
    assert!(saw_start);
    assert!(saw_reset);
    assert_eq!(writes, 5);
    assert_eq!(o.stage, FlashStage::Done);
    assert_eq!(o.failure, None);
}

#[test]
fn verify_failure_scenario() {
    // The device reports a wrong checksum on page 3: the run fails with a
    // mismatch naming index 3 and never reaches the reset stage.
    let mut o = Orchestrator::new(image(37), &descriptor(DeviceMode::Application)).unwrap();
    let mut reported = page_checksums(&o.binary, 8);
    reported[3] = reported[3].wrapping_add(1);
    let (_, saw_reset, writes) = run(&mut o, &reported);
    assert!(!saw_reset);
    assert_eq!(writes, 5);
    assert_eq!(o.stage, FlashStage::Failed);
    assert_eq!(o.failure, Some(FlashError::VerifyMismatch { indices: vec![3] }));
}

#[test]
fn all_mismatches_are_collected() {
    let mut o = Orchestrator::new(image(37), &descriptor(DeviceMode::Application)).unwrap();
    let mut reported = page_checksums(&o.binary, 8);
    reported[0] = reported[0].wrapping_add(1);
    reported[4] = reported[4].wrapping_add(1);
    let (_, saw_reset, _) = run(&mut o, &reported);
    assert!(!saw_reset);
    assert_eq!(o.failure, Some(FlashError::VerifyMismatch { indices: vec![0, 4] }));
}

#[test]
fn bootloader_mode_skips_start_flash() {
    let mut o = Orchestrator::new(image(16), &descriptor(DeviceMode::Bootloader)).unwrap();
    let local = page_checksums(&o.binary, 8);
    let (saw_start, saw_reset, writes) = run(&mut o, &local);
    assert!(!saw_start);
    assert!(saw_reset);
    assert_eq!(writes, 2);
    assert_eq!(o.stage, FlashStage::Done);
}

#[test]
fn empty_image_is_rejected() {
    let flat = FlatImage { bytes: Vec::new(), base_address: BASE };
    let r = Orchestrator::new(flat, &descriptor(DeviceMode::Bootloader));
    assert_eq!(r.err(), Some(FlashError::EmptyImage));
}

#[test]
fn start_flash_failure_aborts() {
    let mut o = Orchestrator::new(image(16), &descriptor(DeviceMode::Application)).unwrap();
    assert_eq!(o.current_action(), Some(Action::StartFlash));
    o.step(Event::Failure);
    assert_eq!(o.stage, FlashStage::Failed);
    assert_eq!(o.failure, Some(FlashError::ProtocolError));
    assert_eq!(o.current_action(), None);
}

#[test]
fn write_failure_names_the_page() {
    let mut o = Orchestrator::new(image(24), &descriptor(DeviceMode::Bootloader)).unwrap();
    // First page writes fine; the second write fails.
    match o.current_action() {
        Some(Action::WritePage { page_index: 0, .. }) => o.step(Event::Ack),
        other => panic!("unexpected action {:?}", other),
    }
    match o.current_action() {
        Some(Action::WritePage { page_index: 1, .. }) => o.step(Event::Failure),
        other => panic!("unexpected action {:?}", other),
    }
    assert_eq!(o.stage, FlashStage::Failed);
    assert_eq!(o.failure, Some(FlashError::WriteFailed { page_index: 1 }));
}

#[test]
fn short_checksum_response_is_protocol_error() {
    let mut o = Orchestrator::new(image(16), &descriptor(DeviceMode::Bootloader)).unwrap();
    o.step(Event::Ack);
    o.step(Event::Ack);
    assert_eq!(o.stage, FlashStage::Verifying { next_page: 0 });
    // The device answers the only batch with a single checksum for two pages.
    o.step(Event::Checksums { checksums: vec![0] });
    assert_eq!(o.stage, FlashStage::Failed);
    assert_eq!(o.failure, Some(FlashError::ProtocolError));
}

#[test]
fn checksum_query_failure_aborts() {
    let mut o = Orchestrator::new(image(16), &descriptor(DeviceMode::Bootloader)).unwrap();
    o.step(Event::Ack);
    o.step(Event::Ack);
    o.step(Event::Failure);
    assert_eq!(o.stage, FlashStage::Failed);
    assert_eq!(o.failure, Some(FlashError::ProtocolError));
}

#[test]
fn reset_failure_is_protocol_error() {
    let mut o = Orchestrator::new(image(8), &descriptor(DeviceMode::Bootloader)).unwrap();
    let local = page_checksums(&o.binary, 8);
    o.step(Event::Ack);
    assert_eq!(o.stage, FlashStage::Verifying { next_page: 0 });
    o.step(Event::Checksums { checksums: local });
    assert_eq!(o.stage, FlashStage::ResettingToApp);
    o.step(Event::Failure);
    assert_eq!(o.stage, FlashStage::Failed);
    assert_eq!(o.failure, Some(FlashError::ProtocolError));
}

#[test]
fn flash_near_top_of_address_space() {
    // The last page ends exactly at the top of the 32-bit address space.
    let base = u32::MAX - 16;
    let flat = FlatImage { bytes: (0u8..12).collect(), base_address: base };
    let mut o = Orchestrator::new(flat, &descriptor(DeviceMode::Bootloader)).unwrap();
    assert_eq!(o.binary.len(), 16);
    let local = page_checksums(&o.binary, 8);
    let mut writes: Vec<u32> = Vec::new();
    while let Some(action) = o.current_action() {
        match action {
            Action::StartFlash => o.step(Event::Ack),
            Action::WritePage { address, .. } => {
                writes.push(address);
                o.step(Event::Ack);
            }
            Action::ChecksumPages { address, page_count } => {
                let first = ((address - base) / 8) as usize;
                o.step(Event::Checksums {
                    checksums: local[first..first + page_count as usize].to_vec(),
                });
            }
            Action::ResetIntoApp => o.step(Event::Ack),
        }
    }
    assert_eq!(writes, vec![base, base + 8]);
    assert_eq!(o.stage, FlashStage::Done);
}

#[test]
fn checksum_batches_stride_three_pages() {
    // Seven pages with a batch size of three: queries cover 3, 3 and 1
    // pages at strides of three pages from the base address.
    let mut o = Orchestrator::new(image(56), &descriptor(DeviceMode::Bootloader)).unwrap();
    let local = page_checksums(&o.binary, 8);
    for _ in 0..7 {
        o.step(Event::Ack);
    }
    let mut queries: Vec<(u32, u32)> = Vec::new();
    while let Some(Action::ChecksumPages { address, page_count }) = o.current_action() {
        queries.push((address, page_count));
        let first = ((address - BASE) / 8) as usize;
        o.step(Event::Checksums {
            checksums: local[first..first + page_count as usize].to_vec(),
        });
    }
    assert_eq!(
        queries,
        vec![(BASE, 3), (BASE + 24, 3), (BASE + 48, 1)]
    );
    assert_eq!(o.stage, FlashStage::ResettingToApp);
}
