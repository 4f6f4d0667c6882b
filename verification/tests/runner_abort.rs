//! The step runner: in-order delivery and the all-or-nothing abort rule.

use espflash::chip::{Chip, FlashSize};
use espflash::command::{Command, ProgressEvent, SpiAttachParams, Step};
use espflash::error::FlashError;
use espflash::esp32::Esp32Target;
use espflash::runner::StepRunner;
use espflash::segment::Segment;

fn three_block_plan() -> Vec<Step> {
    let target = Esp32Target::new(
        Chip::Esp32,
        SpiAttachParams::default(),
        FlashSize::Size4Mb,
        false,
        false,
    );
    let data: Vec<u8> = (0..10000).map(|i| (i % 13) as u8).collect();
    let segment = Segment::new(0x1000, data);
    target.write_segment(&segment, 4096, false).unwrap()
}

#[test]
fn runner_emits_all_steps_in_order_when_nothing_fails() {
    let plan = three_block_plan();
    let mut runner = StepRunner::new(plan.clone());
    let mut emitted: Vec<Step> = Vec::new();
    while let Some(step) = runner.next_step() {
        emitted.push(step);
    }
    assert_eq!(emitted, plan);
    assert_eq!(runner.next_step(), None);
}

#[test]
fn abort_on_second_block_stops_run_without_finish() {
    let plan = three_block_plan();
    let mut runner = StepRunner::new(plan);
    let mut commands = 0;
    let mut finishes = 0;
    while let Some(step) = runner.next_step() {
        match &step {
            Step::Issue { command, .. } => {
                commands += 1;
                // the device reports an error on block 2 of 3 (sequence 1)
                if let Command::FlashData { sequence: 1, .. } = command {
                    runner.mark_failed(FlashError::Device);
                }
            }
            Step::Notify { event: ProgressEvent::Finish } => {
                finishes += 1;
            }
            _ => {}
        }
    }
    // flash-begin, block 0, block 1 — then nothing further
    assert_eq!(commands, 3);
    // the finish callback is never delivered after a failure
    assert_eq!(finishes, 0);
    assert_eq!(runner.failure, Some(FlashError::Device));
    assert_eq!(runner.next_step(), None);
}

#[test]
fn mark_failed_before_start_emits_nothing() {
    let plan = three_block_plan();
    let mut runner = StepRunner::new(plan);
    runner.mark_failed(FlashError::Timeout);
    assert_eq!(runner.next_step(), None);
    // a later failure does not displace the first recorded error
    runner.mark_failed(FlashError::Transport);
    assert_eq!(runner.failure, Some(FlashError::Timeout));
}
