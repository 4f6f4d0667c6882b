//! The compressed (deflate) segment path.

use espflash::chip::{Chip, FlashSize};
use espflash::command::{Command, CommandType, ProgressEvent, SpiAttachParams, Step, TimeoutRule};
use espflash::esp32::Esp32Target;
use espflash::segment::Segment;

fn noisy_bytes(len: usize) -> Vec<u8> {
    let mut state: u32 = 0x1234_5678;
    (0..len)
        .map(|_| {
            state = state.wrapping_mul(1_664_525).wrapping_add(1_013_904_223);
            (state >> 24) as u8
        })
        .collect()
}

fn decompress(stream: &[u8]) -> Vec<u8> {
    let mut decoder = flate2::write::ZlibDecoder::new(Vec::new());
    std::io::Write::write_all(&mut decoder, stream).unwrap();
    decoder.finish().unwrap()
}

#[test]
fn deflate_segment_single_block() {
    let target = Esp32Target::new(
        Chip::Esp32c3,
        SpiAttachParams::default(),
        FlashSize::Size4Mb,
        false,
        false,
    );
    let data = vec![0u8; 10000];
    let segment = Segment::new(0x2000, data.clone());
    let steps = target.write_segment(&segment, 4096, true).unwrap();

    assert_eq!(steps.len(), 1 + 1 + 2 * 1 + 1);
    match &steps[0] {
        Step::Issue {
            command:
                Command::FlashDeflateBegin { size, blocks, block_size, offset, supports_encryption },
            timeout,
        } => {
            assert_eq!(*size, 10000);
            assert_eq!(*blocks, 1);
            assert_eq!(*block_size, 4096);
            assert_eq!(*offset, 0x2000);
            assert!(*supports_encryption);
            assert_eq!(
                *timeout,
                Some(TimeoutRule::Scaled { kind: CommandType::FlashDeflateBegin, size: 12288 })
            );
        }
        other => panic!("unexpected first step: {:?}", other),
    }
    assert_eq!(
        steps[1],
        Step::Notify { event: ProgressEvent::Init { addr: 0x2000, total_blocks: 1 } }
    );
    match &steps[2] {
        Step::Issue {
            command: Command::FlashDeflateData { sequence, pad_to, pad_byte, data: block },
            timeout,
        } => {
            assert_eq!(*sequence, 0);
            assert_eq!(*pad_to, 0);
            assert_eq!(*pad_byte, 0xFF);
            assert!(block.len() < 4096);
            // the one block stands for the whole decoded segment
            assert_eq!(
                *timeout,
                Some(TimeoutRule::Scaled { kind: CommandType::FlashDeflateData, size: 10000 })
            );
            assert_eq!(decompress(block), data);
        }
        other => panic!("unexpected block step: {:?}", other),
    }
    assert_eq!(steps[3], Step::Notify { event: ProgressEvent::Update { completed: 1 } });
    assert_eq!(steps[4], Step::Notify { event: ProgressEvent::Finish });
}

#[test]
fn deflate_decoded_deltas_sum_to_segment_length() {
    let target = Esp32Target::new(
        Chip::Esp32,
        SpiAttachParams::default(),
        FlashSize::Size4Mb,
        false,
        false,
    );
    let data = noisy_bytes(20000);
    let segment = Segment::new(0x4000, data.clone());
    let steps = target.write_segment(&segment, 1024, true).unwrap();

    let mut wire: Vec<u8> = Vec::new();
    let mut sequences: Vec<u32> = Vec::new();
    let mut delta_sum: u64 = 0;
    let mut updates: Vec<usize> = Vec::new();
    let mut inits = 0;
    let mut finishes = 0;
    let mut finish_is_last = false;
    for step in &steps {
        finish_is_last = false;
        match step {
            Step::Issue {
                command: Command::FlashDeflateData { sequence, data: block, .. },
                timeout,
            } => {
                sequences.push(*sequence);
                wire.extend_from_slice(block);
                match timeout {
                    Some(TimeoutRule::Scaled { kind: CommandType::FlashDeflateData, size }) => {
                        delta_sum += u64::from(*size);
                    }
                    other => panic!("unexpected timeout rule: {:?}", other),
                }
            }
            Step::Notify { event: ProgressEvent::Init { addr, total_blocks } } => {
                inits += 1;
                assert_eq!(*addr, 0x4000);
                assert!(*total_blocks > 1, "noisy data should span several blocks");
            }
            Step::Notify { event: ProgressEvent::Update { completed } } => {
                updates.push(*completed);
            }
            Step::Notify { event: ProgressEvent::Finish } => {
                finishes += 1;
                finish_is_last = true;
            }
            _ => {}
        }
    }

    // compressed blocks carry contiguous sequence numbers from zero
    let expected: Vec<u32> = (0..sequences.len() as u32).collect();
    assert_eq!(sequences, expected);
    // every block but the last is full, and the wire bytes decode to the segment
    assert_eq!(decompress(&wire), data);
    // the reported decoded-byte deltas sum to the decompressed length
    assert_eq!(delta_sum, 20000);
    // the observer sees one init, counts 1..=n, one finish, finish last
    assert_eq!(inits, 1);
    let expected_updates: Vec<usize> = (1..=sequences.len()).collect();
    assert_eq!(updates, expected_updates);
    assert_eq!(finishes, 1);
    assert!(finish_is_last);
}

#[test]
fn deflate_begin_flags_follow_stub_and_chip() {
    let data = vec![7u8; 50];
    let segment = Segment::new(0, data);
    let stub_target = Esp32Target::new(
        Chip::Esp32s3,
        SpiAttachParams::default(),
        FlashSize::Size4Mb,
        true,
        false,
    );
    let steps = stub_target.write_segment(&segment, 4096, true).unwrap();
    match &steps[0] {
        Step::Issue { command: Command::FlashDeflateBegin { supports_encryption, .. }, .. } => {
            assert!(!supports_encryption);
        }
        other => panic!("unexpected first step: {:?}", other),
    }
}
