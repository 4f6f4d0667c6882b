//! The plain (uncompressed) segment path.

use espflash::chip::{Chip, FlashSize};
use espflash::command::{Command, CommandType, ProgressEvent, Step, TimeoutRule};
use espflash::command::SpiAttachParams;
use espflash::esp32::Esp32Target;
use espflash::segment::Segment;

fn pattern_bytes(len: usize) -> Vec<u8> {
    (0..len).map(|i| (i % 251) as u8).collect()
}

#[test]
fn plain_segment_three_blocks() {
    let target = Esp32Target::new(
        Chip::Esp32,
        SpiAttachParams::default(),
        FlashSize::Size4Mb,
        false,
        false,
    );
    let data = pattern_bytes(10000);
    let segment = Segment::new(0x1_0000, data.clone());
    let steps = target.write_segment(&segment, 4096, false).unwrap();

    assert_eq!(steps.len(), 1 + 1 + 2 * 3 + 1);
    assert_eq!(
        steps[0],
        Step::Issue {
            command: Command::FlashBegin {
                size: 12288,
                blocks: 3,
                block_size: 4096,
                offset: 0x1_0000,
                supports_encryption: false,
                encrypt: false,
            },
            timeout: Some(TimeoutRule::Scaled { kind: CommandType::FlashBegin, size: 12288 }),
        }
    );
    assert_eq!(
        steps[1],
        Step::Notify { event: ProgressEvent::Init { addr: 0x1_0000, total_blocks: 3 } }
    );
    for i in 0..3usize {
        let lo = i * 4096;
        let hi = if lo + 4096 < 10000 { lo + 4096 } else { 10000 };
        assert_eq!(
            steps[2 + 2 * i],
            Step::Issue {
                command: Command::FlashData {
                    sequence: i as u32,
                    pad_to: 4096,
                    pad_byte: 0xFF,
                    data: data[lo..hi].to_vec(),
                },
                timeout: Some(
                    TimeoutRule::Scaled { kind: CommandType::FlashData, size: (hi - lo) as u32 }
                ),
            }
        );
        assert_eq!(
            steps[3 + 2 * i],
            Step::Notify { event: ProgressEvent::Update { completed: i + 1 } }
        );
    }
    assert_eq!(steps[8], Step::Notify { event: ProgressEvent::Finish });
}

#[test]
fn plain_blocks_reassemble_to_segment() {
    let target = Esp32Target::new(
        Chip::Esp32s3,
        SpiAttachParams::default(),
        FlashSize::Size16Mb,
        true,
        false,
    );
    let data = pattern_bytes(3000);
    let segment = Segment::new(0, data.clone());
    let steps = target.write_segment(&segment, 1024, false).unwrap();

    let mut rebuilt: Vec<u8> = Vec::new();
    let mut sequences: Vec<u32> = Vec::new();
    for step in &steps {
        if let Step::Issue { command: Command::FlashData { sequence, data: block, .. }, .. } = step
        {
            sequences.push(*sequence);
            rebuilt.extend_from_slice(block);
        }
    }
    assert_eq!(sequences, vec![0, 1, 2]);
    assert_eq!(rebuilt, data);
}

#[test]
fn plain_empty_segment_has_no_blocks() {
    let target = Esp32Target::new(
        Chip::Esp32,
        SpiAttachParams::default(),
        FlashSize::Size4Mb,
        false,
        false,
    );
    let segment = Segment::new(0x8000, Vec::new());
    let steps = target.write_segment(&segment, 4096, false).unwrap();
    assert_eq!(steps.len(), 3);
    assert_eq!(
        steps[0],
        Step::Issue {
            command: Command::FlashBegin {
                size: 0,
                blocks: 0,
                block_size: 4096,
                offset: 0x8000,
                supports_encryption: false,
                encrypt: false,
            },
            timeout: Some(TimeoutRule::Scaled { kind: CommandType::FlashBegin, size: 0 }),
        }
    );
    assert_eq!(
        steps[1],
        Step::Notify { event: ProgressEvent::Init { addr: 0x8000, total_blocks: 0 } }
    );
    assert_eq!(steps[2], Step::Notify { event: ProgressEvent::Finish });
}

#[test]
fn encrypted_baseline_chip_uses_encrypt_data_command() {
    let target = Esp32Target::new(
        Chip::Esp32,
        SpiAttachParams::default(),
        FlashSize::Size4Mb,
        false,
        true,
    );
    let data = pattern_bytes(100);
    let segment = Segment::new(0x1000, data.clone());
    let steps = target.write_segment(&segment, 4096, false).unwrap();
    match &steps[0] {
        Step::Issue { command: Command::FlashBegin { supports_encryption, encrypt, size, .. }, .. } => {
            assert!(!supports_encryption);
            assert!(encrypt);
            assert_eq!(*size, 4096);
            assert_eq!(size % 32, 0);
        }
        other => panic!("unexpected first step: {:?}", other),
    }
    match &steps[2] {
        Step::Issue { command: Command::FlashEncryptData { sequence, pad_to, pad_byte, data: block }, timeout } => {
            assert_eq!(*sequence, 0);
            assert_eq!(*pad_to, 4096);
            assert_eq!(*pad_byte, 0xFF);
            assert_eq!(*block, data);
            assert_eq!(
                *timeout,
                Some(TimeoutRule::Scaled { kind: CommandType::FlashEncryptData, size: 100 })
            );
        }
        other => panic!("unexpected block step: {:?}", other),
    }
}

#[test]
fn encrypted_stub_session_uses_encrypt_data_command() {
    let target = Esp32Target::new(
        Chip::Esp32c3,
        SpiAttachParams::default(),
        FlashSize::Size4Mb,
        true,
        true,
    );
    let segment = Segment::new(0, pattern_bytes(10));
    let steps = target.write_segment(&segment, 4096, false).unwrap();
    assert!(matches!(
        steps[2],
        Step::Issue { command: Command::FlashEncryptData { .. }, .. }
    ));
}

#[test]
fn encrypted_quirked_chip_without_stub_uses_plain_data_command() {
    let target = Esp32Target::new(
        Chip::Esp32c3,
        SpiAttachParams::default(),
        FlashSize::Size4Mb,
        false,
        true,
    );
    let segment = Segment::new(0, pattern_bytes(10));
    let steps = target.write_segment(&segment, 4096, false).unwrap();
    match &steps[0] {
        Step::Issue { command: Command::FlashBegin { supports_encryption, encrypt, .. }, .. } => {
            assert!(supports_encryption);
            assert!(encrypt);
        }
        other => panic!("unexpected first step: {:?}", other),
    }
    assert!(matches!(steps[2], Step::Issue { command: Command::FlashData { .. }, .. }));
}
