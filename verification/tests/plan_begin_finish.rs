//! The session prologue (`begin`) and epilogue (`finish`).

use espflash::chip::{Chip, FlashSize};
use espflash::command::{Command, CommandType, SpiAttachParams, Step, TimeoutRule};
use espflash::esp32::{Esp32Target, USB_SERIAL_JTAG_PID};

fn spi_set_params_step(size: u32) -> Step {
    Step::Issue {
        command: Command::SpiSetParams {
            flash_id: 0,
            size,
            block_size: 0x1_0000,
            sector_size: 0x1000,
            page_size: 0x100,
            status_mask: 0xFFFF,
        },
        timeout: Some(TimeoutRule::Fixed { kind: CommandType::SpiSetParams }),
    }
}

fn write_reg_step(address: u32, value: u32) -> Step {
    Step::Issue { command: Command::WriteReg { address, value, mask: None }, timeout: None }
}

#[test]
fn begin_without_quirk() {
    let target = Esp32Target::new(
        Chip::Esp32,
        SpiAttachParams::default(),
        FlashSize::Size4Mb,
        false,
        false,
    );
    let steps = target.begin(0x6010);
    assert_eq!(steps.len(), 2);
    assert_eq!(steps[0], spi_set_params_step(0x40_0000));
    assert_eq!(
        steps[1],
        Step::Issue {
            command: Command::SpiAttach { spi_params: SpiAttachParams::default() },
            timeout: Some(TimeoutRule::Fixed { kind: CommandType::SpiAttach }),
        }
    );
}

#[test]
fn begin_baseline_chip_over_serial_jtag_has_no_quirk() {
    let target = Esp32Target::new(
        Chip::Esp32,
        SpiAttachParams::default(),
        FlashSize::Size8Mb,
        false,
        false,
    );
    let steps = target.begin(USB_SERIAL_JTAG_PID);
    assert_eq!(steps.len(), 2);
}

#[test]
fn begin_quirked_chip_off_serial_jtag_has_no_quirk() {
    let target = Esp32Target::new(
        Chip::Esp32c3,
        SpiAttachParams::default(),
        FlashSize::Size8Mb,
        false,
        false,
    );
    let steps = target.begin(0x6001);
    assert_eq!(steps.len(), 2);
}

#[test]
fn begin_with_stub_attaches_through_stub() {
    let target = Esp32Target::new(
        Chip::Esp32s2,
        SpiAttachParams::default(),
        FlashSize::Size2Mb,
        true,
        false,
    );
    let steps = target.begin(0x6010);
    assert_eq!(steps.len(), 2);
    assert_eq!(steps[0], spi_set_params_step(0x20_0000));
    assert_eq!(
        steps[1],
        Step::Issue {
            command: Command::SpiAttachStub { spi_params: SpiAttachParams::default() },
            timeout: Some(TimeoutRule::Fixed { kind: CommandType::SpiAttach }),
        }
    );
}

#[test]
fn begin_quirk_esp32c3_over_serial_jtag() {
    let target = Esp32Target::new(
        Chip::Esp32c3,
        SpiAttachParams::default(),
        FlashSize::Size4Mb,
        false,
        false,
    );
    let steps = target.begin(USB_SERIAL_JTAG_PID);
    assert_eq!(steps.len(), 5);
    assert_eq!(steps[2], write_reg_step(0x6000_80A8, 0x50D8_3AA1));
    assert_eq!(steps[3], write_reg_step(0x6000_8090, 0));
    assert_eq!(steps[4], write_reg_step(0x6000_80A8, 0));
}

#[test]
fn begin_quirk_esp32s3_over_serial_jtag() {
    let target = Esp32Target::new(
        Chip::Esp32s3,
        SpiAttachParams::default(),
        FlashSize::Size4Mb,
        true,
        false,
    );
    let steps = target.begin(USB_SERIAL_JTAG_PID);
    assert_eq!(steps.len(), 5);
    assert_eq!(steps[2], write_reg_step(0x6000_80B0, 0x50D8_3AA1));
    assert_eq!(steps[3], write_reg_step(0x6000_8098, 0));
    assert_eq!(steps[4], write_reg_step(0x6000_80B0, 0));
}

#[test]
fn begin_quirk_esp32c6_over_serial_jtag() {
    let target = Esp32Target::new(
        Chip::Esp32c6,
        SpiAttachParams::default(),
        FlashSize::Size4Mb,
        false,
        false,
    );
    let steps = target.begin(USB_SERIAL_JTAG_PID);
    assert_eq!(steps.len(), 5);
    assert_eq!(steps[2], write_reg_step(0x600B_1C18, 0x50D8_3AA1));
    assert_eq!(steps[3], write_reg_step(0x600B_1C00, 0));
    assert_eq!(steps[4], write_reg_step(0x600B_1C18, 0));
}

#[test]
fn finish_plain_without_reboot() {
    let target = Esp32Target::new(
        Chip::Esp32,
        SpiAttachParams::default(),
        FlashSize::Size4Mb,
        false,
        false,
    );
    let steps = target.finish(false, false);
    assert_eq!(
        steps,
        vec![Step::Issue {
            command: Command::FlashEnd { reboot: false },
            timeout: Some(TimeoutRule::Fixed { kind: CommandType::FlashEnd }),
        }]
    );
}

#[test]
fn finish_compressed_with_reboot_resets_separately() {
    let target = Esp32Target::new(
        Chip::Esp32c6,
        SpiAttachParams::default(),
        FlashSize::Size4Mb,
        true,
        false,
    );
    let steps = target.finish(true, true);
    assert_eq!(
        steps,
        vec![
            Step::Issue {
                command: Command::FlashDeflateEnd { reboot: false },
                timeout: Some(TimeoutRule::Fixed { kind: CommandType::FlashDeflateEnd }),
            },
            Step::Reset,
        ]
    );
}
