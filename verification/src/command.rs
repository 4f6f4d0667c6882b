//! The protocol steps that the engine plans: framed bootloader commands, the
//! timeout rule each is issued under, and progress notifications.
//!
//! The exact byte layout of a command on the wire is owned by the transport;
//! this module fixes the field sets that the transport encodes.

use vstd::prelude::*;

verus! {

/// SPI flash attach parameters, passed through to the device unchanged.
#[derive(Clone, Copy, Debug, PartialEq, Eq, Structural)]
pub struct SpiAttachParams {
    /// Clock pin.
    pub clk: u8,
    /// Q (MISO) pin.
    pub q: u8,
    /// D (MOSI) pin.
    pub d: u8,
    /// HD (hold) pin.
    pub hd: u8,
    /// CS (chip select) pin.
    pub cs: u8,
}

impl Default for SpiAttachParams {
    /// All-zero pins: the chip's default SPI flash wiring.
    fn default() -> (r: Self)
        ensures
            r == (SpiAttachParams { clk: 0, q: 0, d: 0, hd: 0, cs: 0 }),
    {
        SpiAttachParams { clk: 0, q: 0, d: 0, hd: 0, cs: 0 }
    }
}

/// The command kinds that the timeout policy distinguishes.
#[derive(Clone, Copy, Debug, PartialEq, Eq, Structural)]
pub enum CommandType {
    /// Set SPI flash parameters.
    SpiSetParams,
    /// Attach the SPI flash (plain or through the stub).
    SpiAttach,
    /// Write a device register.
    WriteReg,
    /// Start a plain flash write.
    FlashBegin,
    /// One plain data block.
    FlashData,
    /// One hardware-encrypted data block.
    FlashEncryptData,
    /// End a plain flash write.
    FlashEnd,
    /// Start a compressed flash write.
    FlashDeflateBegin,
    /// One compressed data block.
    FlashDeflateData,
    /// End a compressed flash write.
    FlashDeflateEnd,
}

/// How the timeout budget for one issued command is computed by the timeout
/// policy of the transport.
#[derive(Clone, Copy, Debug, PartialEq, Eq, Structural)]
pub enum TimeoutRule {
    /// The fixed per-kind budget, `timeout_for(kind)`.
    Fixed {
        /// The command kind the budget is looked up for.
        kind: CommandType,
    },
    /// The size-scaled budget, `timeout_for_size(kind, size)`.  For begin
    /// commands `size` is the erase size; for plain data blocks the raw block
    /// length; for compressed blocks the number of bytes the device decodes.
    Scaled {
        /// The command kind the budget is looked up for.
        kind: CommandType,
        /// The size, in bytes, that the budget scales with.
        size: u32,
    },
}

/// A framed bootloader command, with the field sets this engine fixes.
#[derive(Clone, Debug, PartialEq, Eq)]
pub enum Command {
    /// Configure the SPI flash geometry.
    SpiSetParams {
        /// Flash chip id (always 0 here).
        flash_id: u32,
        /// Total flash size in bytes.
        size: u32,
        /// Flash block size in bytes.
        block_size: u32,
        /// Flash sector size in bytes.
        sector_size: u32,
        /// Flash page size in bytes.
        page_size: u32,
        /// Status mask.
        status_mask: u32,
    },
    /// Attach the SPI flash through the ROM loader.
    SpiAttach {
        /// Pass-through SPI pin assignment.
        spi_params: SpiAttachParams,
    },
    /// Attach the SPI flash through the RAM stub.
    SpiAttachStub {
        /// Pass-through SPI pin assignment.
        spi_params: SpiAttachParams,
    },
    /// Write a device register.
    WriteReg {
        /// Register address.
        address: u32,
        /// Value to write.
        value: u32,
        /// Optional read-modify-write mask.
        mask: Option<u32>,
    },
    /// Start a plain flash write.
    FlashBegin {
        /// The erase size in bytes.
        size: u32,
        /// How many data blocks follow.
        blocks: u32,
        /// The per-block payload size.
        block_size: u32,
        /// The target flash offset.
        offset: u32,
        /// Whether the begin command advertises encryption support.
        supports_encryption: bool,
        /// Whether the written data is to be hardware-encrypted.
        encrypt: bool,
    },
    /// One plain data block.
    FlashData {
        /// Zero-based block index.
        sequence: u32,
        /// The length the transport pads the block to.
        pad_to: usize,
        /// The fill byte used for padding.
        pad_byte: u8,
        /// The block's bytes, unpadded.
        data: Vec<u8>,
    },
    /// One data block to be hardware-encrypted by the device.
    FlashEncryptData {
        /// Zero-based block index.
        sequence: u32,
        /// The length the transport pads the block to.
        pad_to: usize,
        /// The fill byte used for padding.
        pad_byte: u8,
        /// The block's bytes, unpadded.
        data: Vec<u8>,
    },
    /// End a plain flash write.
    FlashEnd {
        /// Whether the end command itself asks the bootloader to reboot.
        reboot: bool,
    },
    /// Start a compressed flash write.
    FlashDeflateBegin {
        /// The uncompressed length of the segment.
        size: u32,
        /// How many compressed blocks follow.
        blocks: u32,
        /// The per-block payload size.
        block_size: u32,
        /// The target flash offset.
        offset: u32,
        /// Whether the begin command advertises encryption support.
        supports_encryption: bool,
    },
    /// One compressed data block.
    FlashDeflateData {
        /// Zero-based block index.
        sequence: u32,
        /// The length the transport pads the block to (0: no padding).
        pad_to: usize,
        /// The fill byte used for padding.
        pad_byte: u8,
        /// The block's compressed bytes.
        data: Vec<u8>,
    },
    /// End a compressed flash write.
    FlashDeflateEnd {
        /// Whether the end command itself asks the bootloader to reboot.
        reboot: bool,
    },
}

/// The mathematical model of a [`Command`]: the same fields with block data as
/// a byte sequence.
pub enum CommandView {
    /// Model of [`Command::SpiSetParams`].
    SpiSetParams { flash_id: u32, size: u32, block_size: u32, sector_size: u32, page_size: u32, status_mask: u32 },
    /// Model of [`Command::SpiAttach`].
    SpiAttach { spi_params: SpiAttachParams },
    /// Model of [`Command::SpiAttachStub`].
    SpiAttachStub { spi_params: SpiAttachParams },
    /// Model of [`Command::WriteReg`].
    WriteReg { address: u32, value: u32, mask: Option<u32> },
    /// Model of [`Command::FlashBegin`].
    FlashBegin { size: u32, blocks: u32, block_size: u32, offset: u32, supports_encryption: bool, encrypt: bool },
    /// Model of [`Command::FlashData`].
    FlashData { sequence: u32, pad_to: usize, pad_byte: u8, data: Seq<u8> },
    /// Model of [`Command::FlashEncryptData`].
    FlashEncryptData { sequence: u32, pad_to: usize, pad_byte: u8, data: Seq<u8> },
    /// Model of [`Command::FlashEnd`].
    FlashEnd { reboot: bool },
    /// Model of [`Command::FlashDeflateBegin`].
    FlashDeflateBegin { size: u32, blocks: u32, block_size: u32, offset: u32, supports_encryption: bool },
    /// Model of [`Command::FlashDeflateData`].
    FlashDeflateData { sequence: u32, pad_to: usize, pad_byte: u8, data: Seq<u8> },
    /// Model of [`Command::FlashDeflateEnd`].
    FlashDeflateEnd { reboot: bool },
}

impl View for Command {
    type V = CommandView;

    open spec fn view(&self) -> CommandView {
        match *self {
            Command::SpiSetParams { flash_id, size, block_size, sector_size, page_size, status_mask } =>
                CommandView::SpiSetParams { flash_id, size, block_size, sector_size, page_size, status_mask },
            Command::SpiAttach { spi_params } => CommandView::SpiAttach { spi_params },
            Command::SpiAttachStub { spi_params } => CommandView::SpiAttachStub { spi_params },
            Command::WriteReg { address, value, mask } => CommandView::WriteReg { address, value, mask },
            Command::FlashBegin { size, blocks, block_size, offset, supports_encryption, encrypt } =>
                CommandView::FlashBegin { size, blocks, block_size, offset, supports_encryption, encrypt },
            Command::FlashData { sequence, pad_to, pad_byte, ref data } =>
                CommandView::FlashData { sequence, pad_to, pad_byte, data: data@ },
            Command::FlashEncryptData { sequence, pad_to, pad_byte, ref data } =>
                CommandView::FlashEncryptData { sequence, pad_to, pad_byte, data: data@ },
            Command::FlashEnd { reboot } => CommandView::FlashEnd { reboot },
            Command::FlashDeflateBegin { size, blocks, block_size, offset, supports_encryption } =>
                CommandView::FlashDeflateBegin { size, blocks, block_size, offset, supports_encryption },
            Command::FlashDeflateData { sequence, pad_to, pad_byte, ref data } =>
                CommandView::FlashDeflateData { sequence, pad_to, pad_byte, data: data@ },
            Command::FlashDeflateEnd { reboot } => CommandView::FlashDeflateEnd { reboot },
        }
    }
}

/// One notification handed to the caller-supplied progress observer.
#[derive(Clone, Copy, Debug, PartialEq, Eq, Structural)]
pub enum ProgressEvent {
    /// Called exactly once before the first block of a segment.
    Init {
        /// The segment's target flash offset.
        addr: u32,
        /// The total number of blocks the segment is sent in.
        total_blocks: usize,
    },
    /// Called exactly once after each block, with the 1-based count of blocks
    /// completed so far.
    Update {
        /// Blocks completed so far, starting at 1.
        completed: usize,
    },
    /// Called exactly once after the last block, only if every block
    /// succeeded.
    Finish,
}

/// One planned protocol step.
#[derive(Clone, Debug, PartialEq, Eq)]
pub enum Step {
    /// Issue a command over the transport and await its response.
    Issue {
        /// The command to frame and send.
        command: Command,
        /// The timeout rule the command is issued under; `None` leaves the
        /// transport's default budget in place.
        timeout: Option<TimeoutRule>,
    },
    /// Notify the progress observer, if the caller supplied one.
    Notify {
        /// The notification to deliver.
        event: ProgressEvent,
    },
    /// Perform the transport-level reset action.
    Reset,
}

/// The mathematical model of a [`Step`].
pub enum StepView {
    /// Model of [`Step::Issue`].
    Issue {
        /// The planned command.
        command: CommandView,
        /// The timeout rule it is issued under.
        timeout: Option<TimeoutRule>,
    },
    /// Model of [`Step::Notify`].
    Notify {
        /// The notification to deliver.
        event: ProgressEvent,
    },
    /// Model of [`Step::Reset`].
    Reset,
}

impl View for Step {
    type V = StepView;

    open spec fn view(&self) -> StepView {
        match *self {
            Step::Issue { ref command, timeout } => StepView::Issue { command: command@, timeout },
            Step::Notify { event } => StepView::Notify { event },
            Step::Reset => StepView::Reset,
        }
    }
}

/// The models of a planned step sequence, element by element.
pub open spec fn views_of(steps: Seq<Step>) -> Seq<StepView> {
    Seq::new(steps.len(), |i: int| steps[i]@)
}

/// The sequence number a single step carries, if it issues a data-block
/// command of any of the three variants.
pub open spec fn spec_data_sequence_of(step: StepView) -> Seq<u32> {
    match step {
        StepView::Issue { command: CommandView::FlashData { sequence, .. }, .. } => seq![sequence],
        StepView::Issue { command: CommandView::FlashEncryptData { sequence, .. }, .. } => seq![
            sequence,
        ],
        StepView::Issue { command: CommandView::FlashDeflateData { sequence, .. }, .. } => seq![
            sequence,
        ],
        _ => Seq::empty(),
    }
}

/// The notification a single step delivers, if it is one.
pub open spec fn spec_progress_event_of(step: StepView) -> Seq<ProgressEvent> {
    match step {
        StepView::Notify { event } => seq![event],
        _ => Seq::empty(),
    }
}

/// The zero-based sequence numbers of the data-block commands in a plan, in
/// order of issue, across all three data command variants.
pub open spec fn spec_data_sequences(steps: Seq<StepView>) -> Seq<u32>
    decreases steps.len(),
{
    if steps.len() == 0 {
        Seq::empty()
    } else {
        spec_data_sequence_of(steps[0]) + spec_data_sequences(steps.drop_first())
    }
}

/// The notifications a plan delivers to the progress observer, in order.
pub open spec fn spec_progress_events(steps: Seq<StepView>) -> Seq<ProgressEvent>
    decreases steps.len(),
{
    if steps.len() == 0 {
        Seq::empty()
    } else {
        spec_progress_event_of(steps[0]) + spec_progress_events(steps.drop_first())
    }
}

/// The data-command sequence numbers of two plans in a row are those of each
/// plan, in a row.
pub proof fn lemma_data_sequences_concat(a: Seq<StepView>, b: Seq<StepView>)
    ensures
        spec_data_sequences(a + b) == spec_data_sequences(a) + spec_data_sequences(b),
    decreases a.len(),
{
    if a.len() == 0 {
        assert(a + b =~= b);
        assert(spec_data_sequences(a) + spec_data_sequences(b) =~= spec_data_sequences(b));
    } else {
        lemma_data_sequences_concat(a.drop_first(), b);
        assert((a + b).drop_first() =~= a.drop_first() + b);
        assert((a + b)[0] == a[0]);
        assert(spec_data_sequences(a + b) =~= spec_data_sequences(a) + spec_data_sequences(b));
    }
}

/// The progress notifications of two plans in a row are those of each plan,
/// in a row.
pub proof fn lemma_progress_events_concat(a: Seq<StepView>, b: Seq<StepView>)
    ensures
        spec_progress_events(a + b) == spec_progress_events(a) + spec_progress_events(b),
    decreases a.len(),
{
    if a.len() == 0 {
        assert(a + b =~= b);
        assert(spec_progress_events(a) + spec_progress_events(b) =~= spec_progress_events(b));
    } else {
        lemma_progress_events_concat(a.drop_first(), b);
        assert((a + b).drop_first() =~= a.drop_first() + b);
        assert((a + b)[0] == a[0]);
        assert(spec_progress_events(a + b) =~= spec_progress_events(a) + spec_progress_events(b));
    }
}

/// Unrolls the data-sequence projection over a plan that starts with two known
/// steps.
pub(crate) proof fn lemma_data_sequences_cons2(a: StepView, b: StepView, rest: Seq<StepView>)
    ensures
        spec_data_sequences(seq![a, b] + rest) == spec_data_sequence_of(a)
            + spec_data_sequence_of(b) + spec_data_sequences(rest),
{
    assert((seq![a, b] + rest).drop_first() =~= seq![b] + rest);
    assert((seq![b] + rest).drop_first() =~= rest);
    assert(spec_data_sequences(seq![b] + rest) == spec_data_sequence_of(b)
        + spec_data_sequences(rest));
    assert(spec_data_sequences(seq![a, b] + rest) =~= spec_data_sequence_of(a)
        + spec_data_sequence_of(b) + spec_data_sequences(rest));
}

/// Unrolls the progress-event projection over a plan that starts with two
/// known steps.
pub(crate) proof fn lemma_progress_events_cons2(a: StepView, b: StepView, rest: Seq<StepView>)
    ensures
        spec_progress_events(seq![a, b] + rest) == spec_progress_event_of(a)
            + spec_progress_event_of(b) + spec_progress_events(rest),
{
    assert((seq![a, b] + rest).drop_first() =~= seq![b] + rest);
    assert((seq![b] + rest).drop_first() =~= rest);
    assert(spec_progress_events(seq![b] + rest) == spec_progress_event_of(b)
        + spec_progress_events(rest));
    assert(spec_progress_events(seq![a, b] + rest) =~= spec_progress_event_of(a)
        + spec_progress_event_of(b) + spec_progress_events(rest));
}

} // verus!
