//! The transfer engine for flash-resident applications on ESP32-family chips:
//! `begin` once per session, `write_segment` once per memory segment, `finish`
//! once at the end.  Each call plans the exact step sequence the transport
//! must carry out.

use vstd::prelude::*;
use vstd::arithmetic::div_mod::{
    lemma_div_is_ordered, lemma_fundamental_div_mod_converse, lemma_mod_multiples_basic,
};
use vstd::arithmetic::mul::lemma_mul_inequality;
use crate::chip::{
    spec_flash_size_bytes, spec_watchdog_regs, watchdog_regs, Chip, FlashSize, WDT_WP_UNLOCK,
};
use crate::chunk::{
    block_at, block_count, block_end, lemma_block_count_bounds, lemma_block_start,
    spec_block_at, spec_block_count, spec_block_prefix_len,
};
use crate::codec::{zlib_compress, zlib_decoded_len, zlib_decoded_prefix_len, zlib_deflate};
use crate::codec::zlib_inflate;
use crate::command::{
    lemma_data_sequences_concat, lemma_data_sequences_cons2, lemma_progress_events_concat,
    lemma_progress_events_cons2, spec_data_sequence_of, spec_data_sequences,
    spec_progress_event_of, spec_progress_events, views_of, Command, CommandType, CommandView,
    ProgressEvent, SpiAttachParams, Step, StepView, TimeoutRule,
};
use crate::error::FlashError;
use crate::segment::Segment;

verus! {

/// The flash sector size that erase regions are first rounded up to.
pub const FLASH_SECTOR_SIZE: usize = 0x1000;

/// The USB product id that identifies the built-in serial-JTAG interface.
pub const USB_SERIAL_JTAG_PID: u16 = 0x1001;

/// The largest segment length the engine accepts: the largest one whose
/// sector-rounded erase size still fits the protocol's 32-bit size fields.
pub const MAX_SEGMENT_LEN: usize = 0xFFFF_F000;

/// The fill byte that short final blocks are padded with.
pub const PAD_FILL_BYTE: u8 = 0xFF;

/// A flash-transfer session for an application running from an ESP32-family
/// chip's flash.
#[derive(Clone, Copy, Debug, PartialEq, Eq, Structural)]
pub struct Esp32Target {
    /// The chip variant on the other end of the link.
    pub chip: Chip,
    /// SPI pin assignment passed through to the attach command.
    pub spi_attach_params: SpiAttachParams,
    /// The configured total flash size.
    pub flash_size: FlashSize,
    /// Whether a RAM stub is in use instead of the bare ROM loader.
    pub use_stub: bool,
    /// Whether written data is to be hardware-encrypted on the device.
    pub encrypt_flash: bool,
}

/// `x` rounded up to the next multiple of `m`.
pub open spec fn spec_align_up(x: int, m: int) -> int
    recommends
        0 <= x,
        1 <= m,
{
    spec_block_count(x, m) * m
}

/// `len` rounded up to a whole number of flash sectors.
pub open spec fn spec_sector_rounded(len: int) -> int {
    spec_block_count(len, FLASH_SECTOR_SIZE as int) * (FLASH_SECTOR_SIZE as int)
}

/// The size of the erase region for a segment of `len` bytes: the length
/// rounded up to whole sectors, then aligned to 32 bytes when encryption is
/// active and to 4 bytes otherwise.
pub open spec fn spec_erase_size(len: int, encrypt: bool) -> int {
    if encrypt {
        spec_align_up(spec_sector_rounded(len), 32)
    } else {
        spec_align_up(spec_sector_rounded(len), 4)
    }
}

/// Computes the erase-region size for a segment of `data_len` bytes.
pub fn erase_size(data_len: usize, encrypt: bool) -> (r: u32)
    requires
        data_len <= MAX_SEGMENT_LEN,
    ensures
        r == spec_erase_size(data_len as int, encrypt),
        r as int % 4 == 0,
        encrypt ==> r as int % 32 == 0,
        data_len <= spec_sector_rounded(data_len as int) <= r,
{
    proof {
        lemma_erase_arith(data_len as int);
    }
    let erase_count = block_count(data_len, FLASH_SECTOR_SIZE);
    let sector_rounded = erase_count * FLASH_SECTOR_SIZE;
    if encrypt {
        proof {
            lemma_block_count_bounds(sector_rounded as int, 32);
            lemma_mod_multiples_basic(spec_block_count(sector_rounded as int, 32), 32);
            let q = spec_block_count(sector_rounded as int, 32);
            assert(q * 32 == (q * 8) * 4) by (nonlinear_arith);
            lemma_mod_multiples_basic(q * 8, 4);
        }
        (((sector_rounded + 31) / 32) * 32) as u32
    } else {
        proof {
            lemma_block_count_bounds(sector_rounded as int, 4);
            lemma_mod_multiples_basic(spec_block_count(sector_rounded as int, 4), 4);
        }
        (((sector_rounded + 3) / 4) * 4) as u32
    }
}

/// The sector-rounded size of any segment the engine accepts stays under the
/// 32-bit limit.
proof fn lemma_erase_arith(len: int)
    requires
        0 <= len <= MAX_SEGMENT_LEN,
    ensures
        0 <= spec_block_count(len, FLASH_SECTOR_SIZE as int) <= 0xFFFFF,
        len <= spec_sector_rounded(len) <= 0xFFFF_F000,
{
    let sect = FLASH_SECTOR_SIZE as int;
    lemma_block_count_bounds(len, sect);
    lemma_div_is_ordered(len + sect - 1, 0xFFFF_FFFF, sect);
    lemma_fundamental_div_mod_converse(0xFFFF_FFFF, sect, 0xFFFFF, 0xFFF);
    lemma_mul_inequality(spec_block_count(len, sect), 0xFFFFF, sect);
}

/// Whether the begin command advertises encryption support: only for chips
/// other than the baseline ESP32 and only when no RAM stub is active — the
/// baseline chip and stub mode handle encryption through the dedicated
/// encrypted-data command instead.
pub open spec fn spec_supports_encryption(t: Esp32Target) -> bool {
    t.chip != Chip::Esp32 && !t.use_stub
}

/// One register write of the watchdog quirk sequence, issued without an
/// explicit timeout budget.
pub open spec fn spec_write_reg_step(address: u32, value: u32) -> StepView {
    StepView::Issue { command: CommandView::WriteReg { address, value, mask: None }, timeout: None }
}

/// The watchdog quirk: over the USB serial-JTAG interface, a chip with a
/// quirk-table entry gets its RTC watchdog disabled by three register writes —
/// unlock the write-protect register, clear the watchdog-enable register,
/// re-lock — even when a stub is active, since the stub's own watchdog
/// handling does not cover these chips.
pub open spec fn spec_watchdog_steps(chip: Chip, usb_pid: u16) -> Seq<StepView> {
    if usb_pid == USB_SERIAL_JTAG_PID {
        match spec_watchdog_regs(chip) {
            Some(regs) => seq![
                spec_write_reg_step(regs.write_protect, WDT_WP_UNLOCK),
                spec_write_reg_step(regs.wdt_config, 0),
                spec_write_reg_step(regs.write_protect, 0),
            ],
            None => Seq::empty(),
        }
    } else {
        Seq::empty()
    }
}

/// The step sequence `begin` plans: the SPI-parameters command with the
/// protocol's fixed geometry and the configured flash size, the attach command
/// (through the stub when one is in use), then the watchdog quirk writes when
/// they apply.
pub open spec fn spec_begin_steps(t: Esp32Target, usb_pid: u16) -> Seq<StepView> {
    seq![
        StepView::Issue {
            command: CommandView::SpiSetParams {
                flash_id: 0,
                size: spec_flash_size_bytes(t.flash_size),
                block_size: 0x1_0000,
                sector_size: 0x1000,
                page_size: 0x100,
                status_mask: 0xFFFF,
            },
            timeout: Some(TimeoutRule::Fixed { kind: CommandType::SpiSetParams }),
        },
        StepView::Issue {
            command: if t.use_stub {
                CommandView::SpiAttachStub { spi_params: t.spi_attach_params }
            } else {
                CommandView::SpiAttach { spi_params: t.spi_attach_params }
            },
            timeout: Some(TimeoutRule::Fixed { kind: CommandType::SpiAttach }),
        },
    ] + spec_watchdog_steps(t.chip, usb_pid)
}

/// The step sequence `finish` plans: the end command matching the negotiated
/// compression capability, with the protocol-level reboot flag always false,
/// then — only when the caller asked to reboot — the transport's separate
/// reset action.
pub open spec fn spec_finish_steps(use_compression: bool, reboot: bool) -> Seq<StepView> {
    let end_step = if use_compression {
        StepView::Issue {
            command: CommandView::FlashDeflateEnd { reboot: false },
            timeout: Some(TimeoutRule::Fixed { kind: CommandType::FlashDeflateEnd }),
        }
    } else {
        StepView::Issue {
            command: CommandView::FlashEnd { reboot: false },
            timeout: Some(TimeoutRule::Fixed { kind: CommandType::FlashEnd }),
        }
    };
    if reboot {
        seq![end_step, StepView::Reset]
    } else {
        seq![end_step]
    }
}

/// Whether the plain path sends blocks with the dedicated encrypted-data
/// command: only when encryption is requested and either the chip is the
/// baseline ESP32 or a RAM stub is active — exactly the sessions whose begin
/// command does not advertise encryption support.
pub open spec fn spec_uses_encrypt_data_cmd(t: Esp32Target) -> bool {
    t.encrypt_flash && (t.chip == Chip::Esp32 || t.use_stub)
}

/// The per-block steps of the plain path from block `i` on: each block's data
/// command — padded to a whole block with the fill byte, sized by its raw
/// length for the timeout policy — followed by its progress update.
pub open spec fn spec_plain_block_steps(
    data: Seq<u8>,
    block_size: int,
    encrypted_cmd: bool,
    i: int,
) -> Seq<StepView>
    decreases spec_block_count(data.len() as int, block_size) - i,
{
    let bc = spec_block_count(data.len() as int, block_size);
    if 1 <= block_size && 0 <= i && i < bc {
        let block = spec_block_at(data, block_size, i);
        let kind = if encrypted_cmd {
            CommandType::FlashEncryptData
        } else {
            CommandType::FlashData
        };
        let command = if encrypted_cmd {
            CommandView::FlashEncryptData {
                sequence: i as u32,
                pad_to: block_size as usize,
                pad_byte: PAD_FILL_BYTE,
                data: block,
            }
        } else {
            CommandView::FlashData {
                sequence: i as u32,
                pad_to: block_size as usize,
                pad_byte: PAD_FILL_BYTE,
                data: block,
            }
        };
        seq![
            StepView::Issue {
                command,
                timeout: Some(TimeoutRule::Scaled { kind, size: block.len() as u32 }),
            },
            StepView::Notify { event: ProgressEvent::Update { completed: (i + 1) as usize } },
        ] + spec_plain_block_steps(data, block_size, encrypted_cmd, i + 1)
    } else {
        Seq::empty()
    }
}

/// The step sequence `write_segment` plans on the plain path: a flash-begin
/// carrying the erase size and block accounting, the observer's init, every
/// raw block with its update, and the observer's finish.
pub open spec fn spec_plain_segment_steps(
    t: Esp32Target,
    addr: u32,
    data: Seq<u8>,
    block_size: int,
) -> Seq<StepView> {
    let esize = spec_erase_size(data.len() as int, t.encrypt_flash);
    let bc = spec_block_count(data.len() as int, block_size);
    seq![
        StepView::Issue {
            command: CommandView::FlashBegin {
                size: esize as u32,
                blocks: bc as u32,
                block_size: block_size as u32,
                offset: addr,
                supports_encryption: spec_supports_encryption(t),
                encrypt: t.encrypt_flash,
            },
            timeout: Some(
                TimeoutRule::Scaled { kind: CommandType::FlashBegin, size: esize as u32 },
            ),
        },
        StepView::Notify { event: ProgressEvent::Init { addr, total_blocks: bc as usize } },
    ] + spec_plain_block_steps(data, block_size, spec_uses_encrypt_data_cmd(t), 0) + seq![
        StepView::Notify { event: ProgressEvent::Finish },
    ]
}

/// How many bytes the device-side decoder has emitted once it has consumed the
/// compressed stream up to block boundary `i`.
pub open spec fn spec_decoded_upto(stream: Seq<u8>, block_size: int, i: int) -> int {
    zlib_decoded_len(
        stream.take(spec_block_prefix_len(stream.len() as int, block_size, i)),
    ) as int
}

/// The decoded bytes that compressed block `i` alone stands for: the growth of
/// the decoder's output over that block.  This is what the device-side write
/// work — and so the block's timeout budget — scales with.
pub open spec fn spec_decoded_delta(stream: Seq<u8>, block_size: int, i: int) -> int {
    spec_decoded_upto(stream, block_size, i + 1) - spec_decoded_upto(stream, block_size, i)
}

/// The per-block steps of the compressed path from block `i` on: each
/// compressed block's deflate-data command — unpadded, sized by its decoded
/// bytes for the timeout policy — followed by its progress update.
pub open spec fn spec_deflate_block_steps(stream: Seq<u8>, block_size: int, i: int) -> Seq<
    StepView,
>
    decreases spec_block_count(stream.len() as int, block_size) - i,
{
    let bc = spec_block_count(stream.len() as int, block_size);
    if 1 <= block_size && 0 <= i && i < bc {
        seq![
            StepView::Issue {
                command: CommandView::FlashDeflateData {
                    sequence: i as u32,
                    pad_to: 0,
                    pad_byte: PAD_FILL_BYTE,
                    data: spec_block_at(stream, block_size, i),
                },
                timeout: Some(
                    TimeoutRule::Scaled {
                        kind: CommandType::FlashDeflateData,
                        size: spec_decoded_delta(stream, block_size, i) as u32,
                    },
                ),
            },
            StepView::Notify { event: ProgressEvent::Update { completed: (i + 1) as usize } },
        ] + spec_deflate_block_steps(stream, block_size, i + 1)
    } else {
        Seq::empty()
    }
}

/// The step sequence `write_segment` plans on the compressed path: a
/// deflate-begin carrying the uncompressed length and the block accounting of
/// the compressed stream, the observer's init, every compressed block with its
/// update, and the observer's finish.
pub open spec fn spec_deflate_segment_steps(
    t: Esp32Target,
    addr: u32,
    data_len: int,
    stream: Seq<u8>,
    block_size: int,
) -> Seq<StepView> {
    let esize = spec_erase_size(data_len, t.encrypt_flash);
    let bc = spec_block_count(stream.len() as int, block_size);
    seq![
        StepView::Issue {
            command: CommandView::FlashDeflateBegin {
                size: data_len as u32,
                blocks: bc as u32,
                block_size: block_size as u32,
                offset: addr,
                supports_encryption: spec_supports_encryption(t),
            },
            timeout: Some(
                TimeoutRule::Scaled { kind: CommandType::FlashDeflateBegin, size: esize as u32 },
            ),
        },
        StepView::Notify { event: ProgressEvent::Init { addr, total_blocks: bc as usize } },
    ] + spec_deflate_block_steps(stream, block_size, 0) + seq![
        StepView::Notify { event: ProgressEvent::Finish },
    ]
}

impl Esp32Target {
    /// Gathers the session parameters for one device session.
    pub fn new(
        chip: Chip,
        spi_attach_params: SpiAttachParams,
        flash_size: FlashSize,
        use_stub: bool,
        encrypt_flash: bool,
    ) -> (r: Self)
        ensures
            r == (Esp32Target { chip, spi_attach_params, flash_size, use_stub, encrypt_flash }),
    {
        Esp32Target { chip, spi_attach_params, flash_size, use_stub, encrypt_flash }
    }

    /// Plans the session prologue.  `usb_pid` is the transport's USB product
    /// id, which decides whether the watchdog quirk applies.
    pub fn begin(&self, usb_pid: u16) -> (steps: Vec<Step>)
        ensures
            views_of(steps@) == spec_begin_steps(*self, usb_pid),
    {
        let mut steps: Vec<Step> = Vec::new();
        steps.push(
            Step::Issue {
                command: Command::SpiSetParams {
                    flash_id: 0,
                    size: self.flash_size.size(),
                    block_size: 0x1_0000,
                    sector_size: 0x1000,
                    page_size: 0x100,
                    status_mask: 0xFFFF,
                },
                timeout: Some(TimeoutRule::Fixed { kind: CommandType::SpiSetParams }),
            },
        );
        let attach_command = if self.use_stub {
            Command::SpiAttachStub { spi_params: self.spi_attach_params }
        } else {
            Command::SpiAttach { spi_params: self.spi_attach_params }
        };
        steps.push(
            Step::Issue {
                command: attach_command,
                timeout: Some(TimeoutRule::Fixed { kind: CommandType::SpiAttach }),
            },
        );
        if usb_pid == USB_SERIAL_JTAG_PID {
            if let Some(regs) = watchdog_regs(self.chip) {
                steps.push(
                    Step::Issue {
                        command: Command::WriteReg {
                            address: regs.write_protect,
                            value: WDT_WP_UNLOCK,
                            mask: None,
                        },
                        timeout: None,
                    },
                );
                steps.push(
                    Step::Issue {
                        command: Command::WriteReg { address: regs.wdt_config, value: 0, mask: None },
                        timeout: None,
                    },
                );
                steps.push(
                    Step::Issue {
                        command: Command::WriteReg {
                            address: regs.write_protect,
                            value: 0,
                            mask: None,
                        },
                        timeout: None,
                    },
                );
            }
        }
        proof {
            assert(views_of(steps@) =~= spec_begin_steps(*self, usb_pid));
        }
        steps
    }

    /// Whether this session's begin commands advertise encryption support.
    pub fn supports_encryption(&self) -> (r: bool)
        ensures
            r == spec_supports_encryption(*self),
    {
        self.chip != Chip::Esp32 && !self.use_stub
    }

    /// Plans the transfer of one memory segment.  `flash_write_size` is the
    /// per-block payload size the chip descriptor reports; `use_compression`
    /// is the transport's negotiated compression capability.  The plan always
    /// succeeds, with one exception: a compressed stream whose block count
    /// does not fit the protocol's 32-bit block accounting (possible only at
    /// degenerate block sizes of a few bytes) is rejected as a codec failure
    /// rather than sent with wrapped sequence numbers.
    pub fn write_segment(
        &self,
        segment: &Segment,
        flash_write_size: usize,
        use_compression: bool,
    ) -> (r: Result<Vec<Step>, FlashError>)
        requires
            1 <= flash_write_size <= 0xFFFF_FFFF,
            segment.data@.len() <= MAX_SEGMENT_LEN,
        ensures
            use_compression ==> (r is Ok <==> spec_block_count(
                zlib_deflate(segment.data@).len() as int,
                flash_write_size as int,
            ) <= 0xFFFF_FFFF),
            use_compression ==> (r matches Ok(steps) ==> views_of(steps@)
                == spec_deflate_segment_steps(
                *self,
                segment.addr,
                segment.data@.len() as int,
                zlib_deflate(segment.data@),
                flash_write_size as int,
            )),
            !use_compression ==> (r matches Ok(steps) && views_of(steps@)
                == spec_plain_segment_steps(
                *self,
                segment.addr,
                segment.data@,
                flash_write_size as int,
            )),
            r matches Err(e) ==> e == FlashError::Codec,
    {
        if use_compression {
            let compressed = zlib_compress(&segment.data);
            proof {
                assert(exists|d: Seq<u8>| compressed@ == zlib_deflate(d)) by {
                    assert(compressed@ == zlib_deflate(segment.data@));
                }
                assert(zlib_decoded_len(compressed@.take(0)) == 0);
            }
            self.deflate_steps(segment.addr, segment.data.len(), &compressed, flash_write_size)
        } else {
            Ok(self.plain_steps(segment.addr, &segment.data, flash_write_size))
        }
    }

    /// Plans the plain path of one segment.
    #[verifier::loop_isolation(false)]
    fn plain_steps(&self, addr: u32, data: &Vec<u8>, flash_write_size: usize) -> (steps: Vec<
        Step,
    >)
        requires
            1 <= flash_write_size <= 0xFFFF_FFFF,
            data@.len() <= MAX_SEGMENT_LEN,
        ensures
            views_of(steps@) == spec_plain_segment_steps(
                *self,
                addr,
                data@,
                flash_write_size as int,
            ),
    {
        let ghost goal = spec_plain_segment_steps(*self, addr, data@, flash_write_size as int);
        let ghost finish_part = seq![StepView::Notify { event: ProgressEvent::Finish }];
        let len = data.len();
        let esize = erase_size(len, self.encrypt_flash);
        let bc = block_count(len, flash_write_size);
        proof {
            lemma_block_count_bounds(len as int, flash_write_size as int);
        }
        let encrypted_cmd = self.encrypt_flash && (self.chip == Chip::Esp32 || self.use_stub);
        let mut steps: Vec<Step> = Vec::new();
        steps.push(
            Step::Issue {
                command: Command::FlashBegin {
                    size: esize,
                    blocks: bc as u32,
                    block_size: flash_write_size as u32,
                    offset: addr,
                    supports_encryption: self.supports_encryption(),
                    encrypt: self.encrypt_flash,
                },
                timeout: Some(TimeoutRule::Scaled { kind: CommandType::FlashBegin, size: esize }),
            },
        );
        steps.push(Step::Notify { event: ProgressEvent::Init { addr, total_blocks: bc } });
        proof {
            assert(views_of(steps@) + spec_plain_block_steps(
                data@,
                flash_write_size as int,
                encrypted_cmd,
                0,
            ) + finish_part =~= goal);
        }
        let mut i: usize = 0;
        while i < bc
            invariant
                i <= bc,
                views_of(steps@) + spec_plain_block_steps(
                    data@,
                    flash_write_size as int,
                    encrypted_cmd,
                    i as int,
                ) + finish_part == goal,
            decreases bc - i,
        {
            let ghost prev = steps@;
            let block = block_at(data, flash_write_size, i);
            let block_len = block.len();
            let kind = if encrypted_cmd {
                CommandType::FlashEncryptData
            } else {
                CommandType::FlashData
            };
            let command = if encrypted_cmd {
                Command::FlashEncryptData {
                    sequence: i as u32,
                    pad_to: flash_write_size,
                    pad_byte: PAD_FILL_BYTE,
                    data: block,
                }
            } else {
                Command::FlashData {
                    sequence: i as u32,
                    pad_to: flash_write_size,
                    pad_byte: PAD_FILL_BYTE,
                    data: block,
                }
            };
            let issue = Step::Issue {
                command,
                timeout: Some(TimeoutRule::Scaled { kind, size: block_len as u32 }),
            };
            let notify = Step::Notify { event: ProgressEvent::Update { completed: i + 1 } };
            steps.push(issue);
            steps.push(notify);
            proof {
                assert(views_of(steps@) + spec_plain_block_steps(
                    data@,
                    flash_write_size as int,
                    encrypted_cmd,
                    i as int + 1,
                ) + finish_part =~= goal);
            }
            i += 1;
        }
        steps.push(Step::Notify { event: ProgressEvent::Finish });
        proof {
            assert(views_of(steps@) =~= goal);
        }
        steps
    }

    /// Plans the compressed path of one segment over its compressed stream.
    /// The decoded-byte facts in the preconditions are exactly what the codec
    /// guarantees of a stream it produced.  The plan fails only when the
    /// stream's block count does not fit the protocol's 32-bit accounting.
    #[verifier::loop_isolation(false)]
    fn deflate_steps(
        &self,
        addr: u32,
        data_len: usize,
        stream: &Vec<u8>,
        flash_write_size: usize,
    ) -> (r: Result<Vec<Step>, FlashError>)
        requires
            1 <= flash_write_size <= 0xFFFF_FFFF,
            data_len <= MAX_SEGMENT_LEN,
            exists|d: Seq<u8>| stream@ == zlib_deflate(d),
            zlib_decoded_len(stream@.take(0)) == 0,
            forall|j: int| 0 <= j <= stream@.len() ==> zlib_decoded_len(stream@.take(j)) <= data_len,
        ensures
            r is Ok <==> spec_block_count(stream@.len() as int, flash_write_size as int)
                <= 0xFFFF_FFFF,
            r matches Ok(steps) ==> views_of(steps@) == spec_deflate_segment_steps(
                *self,
                addr,
                data_len as int,
                stream@,
                flash_write_size as int,
            ),
            r matches Err(e) ==> e == FlashError::Codec,
    {
        let ghost goal = spec_deflate_segment_steps(
            *self,
            addr,
            data_len as int,
            stream@,
            flash_write_size as int,
        );
        let ghost finish_part = seq![StepView::Notify { event: ProgressEvent::Finish }];
        let clen = stream.len();
        let esize = erase_size(data_len, self.encrypt_flash);
        let bc = block_count(clen, flash_write_size);
        if bc > 0xFFFF_FFFF {
            return Err(FlashError::Codec);
        }
        let mut steps: Vec<Step> = Vec::new();
        steps.push(
            Step::Issue {
                command: Command::FlashDeflateBegin {
                    size: data_len as u32,
                    blocks: bc as u32,
                    block_size: flash_write_size as u32,
                    offset: addr,
                    supports_encryption: self.supports_encryption(),
                },
                timeout: Some(
                    TimeoutRule::Scaled { kind: CommandType::FlashDeflateBegin, size: esize },
                ),
            },
        );
        steps.push(Step::Notify { event: ProgressEvent::Init { addr, total_blocks: bc } });
        let mut decoded_total: usize = 0;
        proof {
            assert(0 * flash_write_size as int == 0) by (nonlinear_arith);
            assert(stream@.take(
                spec_block_prefix_len(clen as int, flash_write_size as int, 0),
            ) =~= stream@.take(0));
            assert(views_of(steps@) + spec_deflate_block_steps(
                stream@,
                flash_write_size as int,
                0,
            ) + finish_part =~= goal);
        }
        let mut i: usize = 0;
        while i < bc
            invariant
                i <= bc,
                decoded_total <= data_len,
                decoded_total == spec_decoded_upto(stream@, flash_write_size as int, i as int),
                views_of(steps@) + spec_deflate_block_steps(
                    stream@,
                    flash_write_size as int,
                    i as int,
                ) + finish_part == goal,
            decreases bc - i,
        {
            let ghost prev = steps@;
            proof {
                lemma_block_start(clen as int, flash_write_size as int, i as int);
            }
            let block = block_at(stream, flash_write_size, i);
            let end = block_end(clen, flash_write_size, i);
            let n = zlib_decoded_prefix_len(stream, end);
            let delta = n - decoded_total;
            let issue = Step::Issue {
                command: Command::FlashDeflateData {
                    sequence: i as u32,
                    pad_to: 0,
                    pad_byte: PAD_FILL_BYTE,
                    data: block,
                },
                timeout: Some(
                    TimeoutRule::Scaled { kind: CommandType::FlashDeflateData, size: delta as u32 },
                ),
            };
            let notify = Step::Notify { event: ProgressEvent::Update { completed: i + 1 } };
            steps.push(issue);
            steps.push(notify);
            decoded_total = n;
            proof {
                assert(views_of(steps@) + spec_deflate_block_steps(
                    stream@,
                    flash_write_size as int,
                    i as int + 1,
                ) + finish_part =~= goal);
            }
            i += 1;
        }
        steps.push(Step::Notify { event: ProgressEvent::Finish });
        proof {
            assert(views_of(steps@) =~= goal);
        }
        Ok(steps)
    }

    /// Plans the session epilogue.  `use_compression` must be the transport's
    /// negotiated compression capability, the same one every segment was
    /// written under.
    pub fn finish(&self, use_compression: bool, reboot: bool) -> (steps: Vec<Step>)
        ensures
            views_of(steps@) == spec_finish_steps(use_compression, reboot),
    {
        let mut steps: Vec<Step> = Vec::new();
        if use_compression {
            steps.push(
                Step::Issue {
                    command: Command::FlashDeflateEnd { reboot: false },
                    timeout: Some(TimeoutRule::Fixed { kind: CommandType::FlashDeflateEnd }),
                },
            );
        } else {
            steps.push(
                Step::Issue {
                    command: Command::FlashEnd { reboot: false },
                    timeout: Some(TimeoutRule::Fixed { kind: CommandType::FlashEnd }),
                },
            );
        }
        if reboot {
            steps.push(Step::Reset);
        }
        proof {
            assert(views_of(steps@) =~= spec_finish_steps(use_compression, reboot));
        }
        steps
    }
}

proof fn lemma_plain_block_projections(data: Seq<u8>, block_size: int, encrypted_cmd: bool, i: int)
    requires
        1 <= block_size,
        0 <= i <= spec_block_count(data.len() as int, block_size),
    ensures
        spec_data_sequences(spec_plain_block_steps(data, block_size, encrypted_cmd, i))
            == Seq::new(
            (spec_block_count(data.len() as int, block_size) - i) as nat,
            |k: int| (i + k) as u32,
        ),
        spec_progress_events(spec_plain_block_steps(data, block_size, encrypted_cmd, i))
            == Seq::new(
            (spec_block_count(data.len() as int, block_size) - i) as nat,
            |k: int| ProgressEvent::Update { completed: (i + k + 1) as usize },
        ),
    decreases spec_block_count(data.len() as int, block_size) - i,
{
    let bc = spec_block_count(data.len() as int, block_size);
    let steps = spec_plain_block_steps(data, block_size, encrypted_cmd, i);
    if i == bc {
        assert(spec_data_sequences(Seq::<StepView>::empty()) == Seq::<u32>::empty());
        assert(spec_progress_events(Seq::<StepView>::empty()) == Seq::<ProgressEvent>::empty());
        assert(spec_data_sequences(steps) =~= Seq::new(0, |k: int| (i + k) as u32));
        assert(spec_progress_events(steps) =~= Seq::new(
            0,
            |k: int| ProgressEvent::Update { completed: (i + k + 1) as usize },
        ));
    } else {
        lemma_plain_block_projections(data, block_size, encrypted_cmd, i + 1);
        let rest = spec_plain_block_steps(data, block_size, encrypted_cmd, i + 1);
        let a = steps[0];
        let b = steps[1];
        assert(steps =~= seq![a, b] + rest);
        lemma_data_sequences_cons2(a, b, rest);
        lemma_progress_events_cons2(a, b, rest);
        assert(spec_data_sequence_of(a) =~= seq![i as u32]);
        assert(spec_data_sequence_of(b) =~= Seq::<u32>::empty());
        assert(spec_progress_event_of(a) =~= Seq::<ProgressEvent>::empty());
        assert(spec_progress_event_of(b) =~= seq![
            ProgressEvent::Update { completed: (i + 1) as usize },
        ]);
        assert(spec_data_sequences(steps) =~= Seq::new(
            (bc - i) as nat,
            |k: int| (i + k) as u32,
        ));
        assert(spec_progress_events(steps) =~= Seq::new(
            (bc - i) as nat,
            |k: int| ProgressEvent::Update { completed: (i + k + 1) as usize },
        ));
    }
}

proof fn lemma_deflate_block_projections(stream: Seq<u8>, block_size: int, i: int)
    requires
        1 <= block_size,
        0 <= i <= spec_block_count(stream.len() as int, block_size),
    ensures
        spec_data_sequences(spec_deflate_block_steps(stream, block_size, i)) == Seq::new(
            (spec_block_count(stream.len() as int, block_size) - i) as nat,
            |k: int| (i + k) as u32,
        ),
        spec_progress_events(spec_deflate_block_steps(stream, block_size, i)) == Seq::new(
            (spec_block_count(stream.len() as int, block_size) - i) as nat,
            |k: int| ProgressEvent::Update { completed: (i + k + 1) as usize },
        ),
    decreases spec_block_count(stream.len() as int, block_size) - i,
{
    let bc = spec_block_count(stream.len() as int, block_size);
    let steps = spec_deflate_block_steps(stream, block_size, i);
    if i == bc {
        assert(spec_data_sequences(Seq::<StepView>::empty()) == Seq::<u32>::empty());
        assert(spec_progress_events(Seq::<StepView>::empty()) == Seq::<ProgressEvent>::empty());
        assert(spec_data_sequences(steps) =~= Seq::new(0, |k: int| (i + k) as u32));
        assert(spec_progress_events(steps) =~= Seq::new(
            0,
            |k: int| ProgressEvent::Update { completed: (i + k + 1) as usize },
        ));
    } else {
        lemma_deflate_block_projections(stream, block_size, i + 1);
        let rest = spec_deflate_block_steps(stream, block_size, i + 1);
        let a = steps[0];
        let b = steps[1];
        assert(steps =~= seq![a, b] + rest);
        lemma_data_sequences_cons2(a, b, rest);
        lemma_progress_events_cons2(a, b, rest);
        assert(spec_data_sequence_of(a) =~= seq![i as u32]);
        assert(spec_data_sequence_of(b) =~= Seq::<u32>::empty());
        assert(spec_progress_event_of(a) =~= Seq::<ProgressEvent>::empty());
        assert(spec_progress_event_of(b) =~= seq![
            ProgressEvent::Update { completed: (i + 1) as usize },
        ]);
        assert(spec_data_sequences(steps) =~= Seq::new(
            (bc - i) as nat,
            |k: int| (i + k) as u32,
        ));
        assert(spec_progress_events(steps) =~= Seq::new(
            (bc - i) as nat,
            |k: int| ProgressEvent::Update { completed: (i + k + 1) as usize },
        ));
    }
}

/// Law: the sequence numbers sent for one segment on the plain path form the
/// contiguous range `0 .. block_count - 1`, in order, with no gaps or
/// repeats, whichever data-command variant the session uses.
pub proof fn lemma_plain_sequence_numbers(
    t: Esp32Target,
    addr: u32,
    data: Seq<u8>,
    block_size: int,
)
    requires
        1 <= block_size,
    ensures
        spec_data_sequences(spec_plain_segment_steps(t, addr, data, block_size)) == Seq::new(
            spec_block_count(data.len() as int, block_size) as nat,
            |k: int| k as u32,
        ),
{
    lemma_block_count_bounds(data.len() as int, block_size);
    let steps = spec_plain_segment_steps(t, addr, data, block_size);
    let blocks = spec_plain_block_steps(data, block_size, spec_uses_encrypt_data_cmd(t), 0);
    let fin = seq![StepView::Notify { event: ProgressEvent::Finish }];
    let a = steps[0];
    let b = steps[1];
    assert(steps =~= (seq![a, b] + blocks) + fin);
    lemma_data_sequences_concat(seq![a, b] + blocks, fin);
    lemma_data_sequences_cons2(a, b, blocks);
    lemma_plain_block_projections(data, block_size, spec_uses_encrypt_data_cmd(t), 0);
    assert(spec_data_sequence_of(a) =~= Seq::<u32>::empty());
    assert(spec_data_sequence_of(b) =~= Seq::<u32>::empty());
    assert(fin.drop_first() =~= Seq::<StepView>::empty());
    assert(spec_data_sequences(Seq::<StepView>::empty()) == Seq::<u32>::empty());
    assert(spec_data_sequences(fin) =~= Seq::<u32>::empty());
    assert(spec_data_sequences(steps) =~= Seq::new(
        spec_block_count(data.len() as int, block_size) as nat,
        |k: int| k as u32,
    ));
}

/// Law: the sequence numbers sent for one segment on the compressed path form
/// the contiguous range `0 .. block_count - 1` over the compressed blocks, in
/// order, with no gaps or repeats — the same shape as the plain path.
pub proof fn lemma_deflate_sequence_numbers(
    t: Esp32Target,
    addr: u32,
    data_len: int,
    stream: Seq<u8>,
    block_size: int,
)
    requires
        1 <= block_size,
    ensures
        spec_data_sequences(spec_deflate_segment_steps(t, addr, data_len, stream, block_size))
            == Seq::new(
            spec_block_count(stream.len() as int, block_size) as nat,
            |k: int| k as u32,
        ),
{
    lemma_block_count_bounds(stream.len() as int, block_size);
    let steps = spec_deflate_segment_steps(t, addr, data_len, stream, block_size);
    let blocks = spec_deflate_block_steps(stream, block_size, 0);
    let fin = seq![StepView::Notify { event: ProgressEvent::Finish }];
    let a = steps[0];
    let b = steps[1];
    assert(steps =~= (seq![a, b] + blocks) + fin);
    lemma_data_sequences_concat(seq![a, b] + blocks, fin);
    lemma_data_sequences_cons2(a, b, blocks);
    lemma_deflate_block_projections(stream, block_size, 0);
    assert(spec_data_sequence_of(a) =~= Seq::<u32>::empty());
    assert(spec_data_sequence_of(b) =~= Seq::<u32>::empty());
    assert(fin.drop_first() =~= Seq::<StepView>::empty());
    assert(spec_data_sequences(Seq::<StepView>::empty()) == Seq::<u32>::empty());
    assert(spec_data_sequences(fin) =~= Seq::<u32>::empty());
    assert(spec_data_sequences(steps) =~= Seq::new(
        spec_block_count(stream.len() as int, block_size) as nat,
        |k: int| k as u32,
    ));
}

/// Law: a successful plain-path segment notifies the progress observer of
/// exactly one init carrying the segment's address and block count, then one
/// update per block with the strictly increasing 1-based completion count,
/// then exactly one finish — in that order and nothing else.
pub proof fn lemma_plain_progress_events(
    t: Esp32Target,
    addr: u32,
    data: Seq<u8>,
    block_size: int,
)
    requires
        1 <= block_size,
    ensures
        spec_progress_events(spec_plain_segment_steps(t, addr, data, block_size)) == seq![
            ProgressEvent::Init {
                addr,
                total_blocks: spec_block_count(data.len() as int, block_size) as usize,
            },
        ] + Seq::new(
            spec_block_count(data.len() as int, block_size) as nat,
            |k: int| ProgressEvent::Update { completed: (k + 1) as usize },
        ) + seq![ProgressEvent::Finish],
{
    lemma_block_count_bounds(data.len() as int, block_size);
    let steps = spec_plain_segment_steps(t, addr, data, block_size);
    let blocks = spec_plain_block_steps(data, block_size, spec_uses_encrypt_data_cmd(t), 0);
    let fin = seq![StepView::Notify { event: ProgressEvent::Finish }];
    let a = steps[0];
    let b = steps[1];
    assert(steps =~= (seq![a, b] + blocks) + fin);
    lemma_progress_events_concat(seq![a, b] + blocks, fin);
    lemma_progress_events_cons2(a, b, blocks);
    lemma_plain_block_projections(data, block_size, spec_uses_encrypt_data_cmd(t), 0);
    assert(spec_progress_event_of(a) =~= Seq::<ProgressEvent>::empty());
    assert(spec_progress_event_of(b) =~= seq![
        ProgressEvent::Init {
            addr,
            total_blocks: spec_block_count(data.len() as int, block_size) as usize,
        },
    ]);
    assert(fin.drop_first() =~= Seq::<StepView>::empty());
    assert(spec_progress_events(Seq::<StepView>::empty()) == Seq::<ProgressEvent>::empty());
    assert(spec_progress_events(fin) =~= seq![ProgressEvent::Finish]);
    assert(spec_progress_events(steps) =~= seq![
        ProgressEvent::Init {
            addr,
            total_blocks: spec_block_count(data.len() as int, block_size) as usize,
        },
    ] + Seq::new(
        spec_block_count(data.len() as int, block_size) as nat,
        |k: int| ProgressEvent::Update { completed: (k + 1) as usize },
    ) + seq![ProgressEvent::Finish]);
}

/// Law: a successful compressed-path segment notifies the progress observer
/// exactly as the plain path does, with the block count taken over the
/// compressed stream.
pub proof fn lemma_deflate_progress_events(
    t: Esp32Target,
    addr: u32,
    data_len: int,
    stream: Seq<u8>,
    block_size: int,
)
    requires
        1 <= block_size,
    ensures
        spec_progress_events(spec_deflate_segment_steps(t, addr, data_len, stream, block_size))
            == seq![
            ProgressEvent::Init {
                addr,
                total_blocks: spec_block_count(stream.len() as int, block_size) as usize,
            },
        ] + Seq::new(
            spec_block_count(stream.len() as int, block_size) as nat,
            |k: int| ProgressEvent::Update { completed: (k + 1) as usize },
        ) + seq![ProgressEvent::Finish],
{
    lemma_block_count_bounds(stream.len() as int, block_size);
    let steps = spec_deflate_segment_steps(t, addr, data_len, stream, block_size);
    let blocks = spec_deflate_block_steps(stream, block_size, 0);
    let fin = seq![StepView::Notify { event: ProgressEvent::Finish }];
    let a = steps[0];
    let b = steps[1];
    assert(steps =~= (seq![a, b] + blocks) + fin);
    lemma_progress_events_concat(seq![a, b] + blocks, fin);
    lemma_progress_events_cons2(a, b, blocks);
    lemma_deflate_block_projections(stream, block_size, 0);
    assert(spec_progress_event_of(a) =~= Seq::<ProgressEvent>::empty());
    assert(spec_progress_event_of(b) =~= seq![
        ProgressEvent::Init {
            addr,
            total_blocks: spec_block_count(stream.len() as int, block_size) as usize,
        },
    ]);
    assert(fin.drop_first() =~= Seq::<StepView>::empty());
    assert(spec_progress_events(Seq::<StepView>::empty()) == Seq::<ProgressEvent>::empty());
    assert(spec_progress_events(fin) =~= seq![ProgressEvent::Finish]);
    assert(spec_progress_events(steps) =~= seq![
        ProgressEvent::Init {
            addr,
            total_blocks: spec_block_count(stream.len() as int, block_size) as usize,
        },
    ] + Seq::new(
        spec_block_count(stream.len() as int, block_size) as nat,
        |k: int| ProgressEvent::Update { completed: (k + 1) as usize },
    ) + seq![ProgressEvent::Finish]);
}

/// The decoded-byte deltas of compressed blocks `i` and onward, summed.
pub open spec fn spec_sum_decoded_deltas_from(stream: Seq<u8>, block_size: int, i: int) -> int
    decreases spec_block_count(stream.len() as int, block_size) - i,
{
    if 1 <= block_size && 0 <= i && i < spec_block_count(stream.len() as int, block_size) {
        spec_decoded_delta(stream, block_size, i) + spec_sum_decoded_deltas_from(
            stream,
            block_size,
            i + 1,
        )
    } else {
        0
    }
}

proof fn lemma_sum_decoded_suffix(stream: Seq<u8>, block_size: int, i: int)
    requires
        1 <= block_size,
        0 <= i <= spec_block_count(stream.len() as int, block_size),
    ensures
        spec_sum_decoded_deltas_from(stream, block_size, i) == spec_decoded_upto(
            stream,
            block_size,
            spec_block_count(stream.len() as int, block_size),
        ) - spec_decoded_upto(stream, block_size, i),
    decreases spec_block_count(stream.len() as int, block_size) - i,
{
    if i < spec_block_count(stream.len() as int, block_size) {
        lemma_sum_decoded_suffix(stream, block_size, i + 1);
    }
}

/// Law: the decoded-byte deltas of all compressed blocks telescope — their
/// sum is the decoder's output over the whole stream, less its output over
/// nothing.
pub proof fn lemma_decoded_deltas_total(stream: Seq<u8>, block_size: int)
    requires
        1 <= block_size,
    ensures
        spec_sum_decoded_deltas_from(stream, block_size, 0) == zlib_decoded_len(stream)
            - zlib_decoded_len(stream.take(0)),
{
    let len = stream.len() as int;
    let bc = spec_block_count(len, block_size);
    lemma_sum_decoded_suffix(stream, block_size, 0);
    lemma_block_count_bounds(len, block_size);
    assert(stream.take(spec_block_prefix_len(len, block_size, bc)) =~= stream);
    assert(0 * block_size == 0) by (nonlinear_arith);
    assert(stream.take(spec_block_prefix_len(len, block_size, 0)) =~= stream.take(0));
}

/// Law: summing each compressed block's reported decoded-byte delta yields the
/// total decompressed length of the segment, given what the codec guarantees
/// of a stream it produced — decoding the whole stream yields the segment
/// again, and decoding nothing yields nothing.
pub proof fn lemma_decoded_accounting(data: Seq<u8>, stream: Seq<u8>, block_size: int)
    requires
        1 <= block_size,
    ensures
        zlib_inflate(stream) == data && zlib_inflate(stream.take(0)) == Seq::<u8>::empty()
            ==> spec_sum_decoded_deltas_from(stream, block_size, 0) == data.len(),
{
    lemma_decoded_deltas_total(stream, block_size);
}

} // verus!
