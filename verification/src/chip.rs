//! Chip identities, flash-size configuration, and the per-chip watchdog quirk
//! table.

use vstd::prelude::*;

verus! {

/// The magic value that, written to a chip's write-protect register, unlocks
/// the RTC watchdog configuration registers.
pub const WDT_WP_UNLOCK: u32 = 0x50D8_3AA1;

/// The chip variants of the ESP32 family that this engine can drive.
#[derive(Clone, Copy, Debug, PartialEq, Eq, Structural)]
pub enum Chip {
    /// The baseline ESP32.
    Esp32,
    /// ESP32-C2
    Esp32c2,
    /// ESP32-C3
    Esp32c3,
    /// ESP32-C6
    Esp32c6,
    /// ESP32-H2
    Esp32h2,
    /// ESP32-S2
    Esp32s2,
    /// ESP32-S3
    Esp32s3,
}

/// The configured size of the target's flash chip.
#[derive(Clone, Copy, Debug, PartialEq, Eq, Structural)]
pub enum FlashSize {
    /// 256 KiB
    Size256Kb,
    /// 512 KiB
    Size512Kb,
    /// 1 MiB
    Size1Mb,
    /// 2 MiB
    Size2Mb,
    /// 4 MiB
    Size4Mb,
    /// 8 MiB
    Size8Mb,
    /// 16 MiB
    Size16Mb,
    /// 32 MiB
    Size32Mb,
    /// 64 MiB
    Size64Mb,
    /// 128 MiB
    Size128Mb,
}

/// The number of bytes that a [`FlashSize`] stands for.
pub open spec fn spec_flash_size_bytes(size: FlashSize) -> u32 {
    match size {
        FlashSize::Size256Kb => 0x4_0000,
        FlashSize::Size512Kb => 0x8_0000,
        FlashSize::Size1Mb => 0x10_0000,
        FlashSize::Size2Mb => 0x20_0000,
        FlashSize::Size4Mb => 0x40_0000,
        FlashSize::Size8Mb => 0x80_0000,
        FlashSize::Size16Mb => 0x100_0000,
        FlashSize::Size32Mb => 0x200_0000,
        FlashSize::Size64Mb => 0x400_0000,
        FlashSize::Size128Mb => 0x800_0000,
    }
}

impl FlashSize {
    /// The number of bytes this flash size stands for.
    pub fn size(self) -> (r: u32)
        ensures
            r == spec_flash_size_bytes(self),
    {
        match self {
            FlashSize::Size256Kb => 0x4_0000,
            FlashSize::Size512Kb => 0x8_0000,
            FlashSize::Size1Mb => 0x10_0000,
            FlashSize::Size2Mb => 0x20_0000,
            FlashSize::Size4Mb => 0x40_0000,
            FlashSize::Size8Mb => 0x80_0000,
            FlashSize::Size16Mb => 0x100_0000,
            FlashSize::Size32Mb => 0x200_0000,
            FlashSize::Size64Mb => 0x400_0000,
            FlashSize::Size128Mb => 0x800_0000,
        }
    }
}

/// The two RTC watchdog registers of a chip that needs the explicit
/// unlock/clear/relock sequence before a transfer over USB serial-JTAG.
#[derive(Clone, Copy, Debug, PartialEq, Eq, Structural)]
pub struct WatchdogRegs {
    /// The write-protect register guarding the watchdog configuration.
    pub write_protect: u32,
    /// The watchdog-enable register that is cleared to disable the timer.
    pub wdt_config: u32,
}

/// The watchdog quirk table: which chips need their RTC watchdog disabled by
/// the host, and through which registers.  Chips without an entry rely on the
/// ROM or the stub to keep the watchdog quiet.
pub open spec fn spec_watchdog_regs(chip: Chip) -> Option<WatchdogRegs> {
    match chip {
        Chip::Esp32c3 => Some(WatchdogRegs { write_protect: 0x6000_80A8, wdt_config: 0x6000_8090 }),
        Chip::Esp32s3 => Some(WatchdogRegs { write_protect: 0x6000_80B0, wdt_config: 0x6000_8098 }),
        Chip::Esp32c6 => Some(WatchdogRegs { write_protect: 0x600B_1C18, wdt_config: 0x600B_1C00 }),
        _ => None,
    }
}

/// Looks a chip up in the watchdog quirk table.
pub fn watchdog_regs(chip: Chip) -> (r: Option<WatchdogRegs>)
    ensures
        r == spec_watchdog_regs(chip),
{
    match chip {
        Chip::Esp32c3 => Some(WatchdogRegs { write_protect: 0x6000_80A8, wdt_config: 0x6000_8090 }),
        Chip::Esp32s3 => Some(WatchdogRegs { write_protect: 0x6000_80B0, wdt_config: 0x6000_8098 }),
        Chip::Esp32c6 => Some(WatchdogRegs { write_protect: 0x600B_1C18, wdt_config: 0x600B_1C00 }),
        _ => None,
    }
}

} // verus!
