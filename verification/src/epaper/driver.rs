//! The panel protocol driver, expressed as verified plans of bus operations.
//!
//! The physical panel is driven through four control lines and a write-only
//! serial bus. Every decision the protocol makes — framing, the vendor
//! calibration sequence, row streaming, power sequencing, busy-wait budgets —
//! is computed here and proved against a specification-level plan. A thin
//! hardware executor outside the library replays a plan operation by
//! operation, aborting at the first bus failure, and runs each `WaitIdle`
//! through the [`BusyWait`] state machine below.

use vstd::prelude::*;

use crate::epaper::buffer::DisplayBuffer;
use crate::epaper::Color;
use crate::{EPD_7IN3F_HEIGHT, EPD_7IN3F_WIDTH};

verus! {

/// Milliseconds the driver is willing to wait for the busy line during panel
/// power and refresh steps.
pub const BUSY_BUDGET_MS: u32 = 50000;

/// Interval at which the busy line is polled.
pub const POLL_INTERVAL_MS: u32 = 10;

/// Bytes in one streamed row: two pixels per byte.
pub const ROW_BYTES: usize = EPD_7IN3F_WIDTH / 2;

/// The protocol states of the panel. `Idle` and `Sleeping` are the only
/// states a plan may end in; every other state is transient and completes
/// within the plan that entered it.
#[derive(Clone, Copy, Debug, PartialEq, Eq, Structural)]
pub enum DriverState {
    Uninitialized,
    Resetting,
    Initializing,
    Idle,
    Transferring,
    Refreshing,
    Sleeping,
}

/// One hardware operation of a plan. The executor performs these strictly in
/// order and aborts the whole plan at the first bus failure.
#[derive(Debug, Clone, PartialEq, Eq)]
pub enum PanelOp {
    /// Marks the protocol state the panel enters at this point of the plan.
    Phase(DriverState),
    /// Drive the reset line high (true) or low (false).
    Reset(bool),
    /// Drive the data/command select line: false selects command framing,
    /// true selects data framing.
    DataCommand(bool),
    /// Drive the chip-select line: false asserts it, true releases it.
    ChipSelect(bool),
    /// Clock the bytes out on the serial bus.
    Write(Vec<u8>),
    /// Pause for the given number of milliseconds.
    DelayMs(u32),
    /// Poll the busy line every [`POLL_INTERVAL_MS`] until it clears, feeding
    /// the watchdog between polls, and fail with `Error::Timeout` once the
    /// given budget in milliseconds is spent.
    WaitIdle(u32),
    /// Reset the external watchdog countdown.
    FeedWatchdog,
}

/// The specification-level image of one operation, with byte payloads as
/// sequences.
pub ghost enum OpModel {
    Phase(DriverState),
    Reset(bool),
    DataCommand(bool),
    ChipSelect(bool),
    Write(Seq<u8>),
    DelayMs(u32),
    WaitIdle(u32),
    FeedWatchdog,
}

impl View for PanelOp {
    type V = OpModel;

    open spec fn view(&self) -> OpModel {
        match self {
            PanelOp::Phase(s) => OpModel::Phase(*s),
            PanelOp::Reset(b) => OpModel::Reset(*b),
            PanelOp::DataCommand(b) => OpModel::DataCommand(*b),
            PanelOp::ChipSelect(b) => OpModel::ChipSelect(*b),
            PanelOp::Write(d) => OpModel::Write(d@),
            PanelOp::DelayMs(ms) => OpModel::DelayMs(*ms),
            PanelOp::WaitIdle(ms) => OpModel::WaitIdle(*ms),
            PanelOp::FeedWatchdog => OpModel::FeedWatchdog,
        }
    }
}

/// The specification image of a whole plan.
pub open spec fn plan_model(ops: Seq<PanelOp>) -> Seq<OpModel> {
    ops.map_values(|op: PanelOp| op@)
}

/// Concatenation of sequences is associative; used to re-group plans chunk by
/// chunk.
proof fn lemma_concat_assoc<A>(a: Seq<A>, b: Seq<A>, c: Seq<A>)
    ensures
        (a + b) + c == a + (b + c),
{
    assert((a + b) + c =~= a + (b + c));
}

/// A byte whose two pixel nibbles both hold the given palette index.
pub open spec fn spec_dup_nibble(idx: u8) -> u8 {
    (idx << 4) | idx
}

/// One streamed row of a solid color.
pub open spec fn spec_solid_row(color: Color) -> Seq<u8> {
    Seq::new(ROW_BYTES as nat, |i: int| spec_dup_nibble(color.spec_index()))
}

/// Command framing: select command mode, assert chip-select, clock the single
/// command byte, release chip-select.
pub open spec fn spec_framed_command(cmd: u8) -> Seq<OpModel> {
    seq![
        OpModel::DataCommand(false),
        OpModel::ChipSelect(false),
        OpModel::Write(seq![cmd]),
        OpModel::ChipSelect(true),
    ]
}

/// Data framing: select data mode, assert chip-select, clock the payload,
/// release chip-select.
pub open spec fn spec_framed_data(data: Seq<u8>) -> Seq<OpModel> {
    seq![
        OpModel::DataCommand(true),
        OpModel::ChipSelect(false),
        OpModel::Write(data),
        OpModel::ChipSelect(true),
    ]
}

/// The hardware reset pulse: high, low, high, with the panel's fixed delays.
pub open spec fn spec_reset_sequence() -> Seq<OpModel> {
    seq![
        OpModel::Reset(true),
        OpModel::DelayMs(20),
        OpModel::Reset(false),
        OpModel::DelayMs(5),
        OpModel::Reset(true),
        OpModel::DelayMs(20),
    ]
}

/// Power on, refresh, power off, each waiting for the busy line to clear.
pub open spec fn spec_display_frame() -> Seq<OpModel> {
    spec_framed_command(0x04) + seq![OpModel::WaitIdle(BUSY_BUDGET_MS)] + spec_framed_command(0x12)
        + spec_framed_data(seq![0x00u8]) + seq![OpModel::WaitIdle(BUSY_BUDGET_MS)]
        + spec_framed_command(0x02) + spec_framed_data(seq![0x00u8]) + seq![
        OpModel::WaitIdle(BUSY_BUDGET_MS),
    ]
}

/// The full initialization plan: the reset pulse, a wait for the busy line,
/// then the panel-specific calibration sequence. The command and parameter
/// bytes are opaque vendor data reproduced byte-for-byte from the panel
/// datasheet; they are not derivable from first principles.
pub open spec fn spec_init_plan() -> Seq<OpModel> {
    seq![OpModel::Phase(DriverState::Resetting)] + spec_reset_sequence() + seq![
        OpModel::WaitIdle(BUSY_BUDGET_MS),
    ] + seq![OpModel::DelayMs(30)] + seq![OpModel::Phase(DriverState::Initializing)]
        + spec_framed_command(0xAA) + spec_framed_data(
        seq![0x49u8, 0x55u8, 0x20u8, 0x08u8, 0x09u8, 0x18u8],
    ) + spec_framed_command(0x01) + spec_framed_data(
        seq![0x3Fu8, 0x00u8, 0x32u8, 0x2Au8, 0x0Eu8, 0x2Au8],
    ) + spec_framed_command(0x00) + spec_framed_data(seq![0x5Fu8, 0x69u8]) + spec_framed_command(
        0x03,
    ) + spec_framed_data(seq![0x00u8, 0x54u8, 0x00u8, 0x44u8]) + spec_framed_command(0x05)
        + spec_framed_data(seq![0x40u8, 0x1Fu8, 0x1Fu8, 0x2Cu8]) + spec_framed_command(0x06)
        + spec_framed_data(seq![0x6Fu8, 0x1Fu8, 0x1Fu8, 0x22u8]) + spec_framed_command(0x08)
        + spec_framed_data(seq![0x6Fu8, 0x1Fu8, 0x1Fu8, 0x22u8]) + spec_framed_command(0x13)
        + spec_framed_data(seq![0x00u8, 0x04u8]) + spec_framed_command(0x30) + spec_framed_data(
        seq![0x3Cu8],
    ) + spec_framed_command(0x41) + spec_framed_data(seq![0x00u8]) + spec_framed_command(0x50)
        + spec_framed_data(seq![0x3Fu8]) + spec_framed_command(0x60) + spec_framed_data(
        seq![0x02u8, 0x00u8],
    ) + spec_framed_command(0x61) + spec_framed_data(seq![0x03u8, 0x20u8, 0x01u8, 0xE0u8])
        + spec_framed_command(0x82) + spec_framed_data(seq![0x1Eu8]) + spec_framed_command(0x84)
        + spec_framed_data(seq![0x00u8]) + spec_framed_command(0x86) + spec_framed_data(
        seq![0x00u8],
    ) + spec_framed_command(0xE3) + spec_framed_data(seq![0x2Fu8]) + spec_framed_command(0xE0)
        + spec_framed_data(seq![0x00u8]) + spec_framed_command(0xE6) + spec_framed_data(
        seq![0x00u8],
    ) + seq![OpModel::Phase(DriverState::Idle)]
}

/// The row-streaming section of an image transfer: each of the first `y` rows
/// of the frame is sent with data framing, and the watchdog is fed after
/// every row so long transfers cannot trip a hardware reset.
pub open spec fn spec_image_rows(bytes: Seq<u8>, y: int) -> Seq<OpModel>
    decreases y,
{
    if y <= 0 {
        Seq::empty()
    } else {
        spec_image_rows(bytes, y - 1) + (spec_framed_data(
            bytes.subrange((y - 1) * ROW_BYTES, (y - 1) * ROW_BYTES + ROW_BYTES),
        ) + seq![OpModel::FeedWatchdog])
    }
}

/// The full image-transfer plan: the data-transfer command, every frame row
/// in order, then the power-on / refresh / power-off sequence.
pub open spec fn spec_show_image_plan(bytes: Seq<u8>) -> Seq<OpModel> {
    seq![OpModel::Phase(DriverState::Transferring)] + spec_framed_command(0x10) + spec_image_rows(
        bytes,
        EPD_7IN3F_HEIGHT as int,
    ) + seq![OpModel::Phase(DriverState::Refreshing)] + spec_display_frame() + seq![
        OpModel::Phase(DriverState::Idle),
    ]
}

/// `y` rows of one solid color, streamed with data framing.
pub open spec fn spec_solid_rows(color: Color, y: int) -> Seq<OpModel>
    decreases y,
{
    if y <= 0 {
        Seq::empty()
    } else {
        spec_solid_rows(color, y - 1) + spec_framed_data(spec_solid_row(color))
    }
}

/// The bulk-erase plan: stream a whole frame of one color directly, without
/// touching the framebuffer, then refresh.
pub open spec fn spec_clear_plan(color: Color) -> Seq<OpModel> {
    seq![OpModel::Phase(DriverState::Transferring)] + spec_framed_command(0x10) + spec_solid_rows(
        color,
        EPD_7IN3F_HEIGHT as int,
    ) + seq![OpModel::Phase(DriverState::Refreshing)] + spec_display_frame() + seq![
        OpModel::Phase(DriverState::Idle),
    ]
}

/// The color shown in the `i`-th horizontal test band (eight bands).
pub open spec fn spec_band_color(i: int) -> Color {
    if i == 0 {
        Color::White
    } else if i == 1 {
        Color::Black
    } else if i == 2 {
        Color::Blue
    } else if i == 3 {
        Color::Green
    } else if i == 4 {
        Color::Orange
    } else if i == 5 {
        Color::Red
    } else if i == 6 {
        Color::Yellow
    } else {
        Color::White
    }
}

/// `y` rows of the seven-color test pattern: each row is solid in the color
/// of its band of sixty rows.
pub open spec fn spec_band_rows(y: int) -> Seq<OpModel>
    decreases y,
{
    if y <= 0 {
        Seq::empty()
    } else {
        spec_band_rows(y - 1) + spec_framed_data(spec_solid_row(spec_band_color((y - 1) / 60)))
    }
}

/// The test-pattern plan: eight solid color bands streamed directly, then a
/// refresh.
pub open spec fn spec_blocks_plan() -> Seq<OpModel> {
    seq![OpModel::Phase(DriverState::Transferring)] + spec_framed_command(0x10) + spec_band_rows(
        EPD_7IN3F_HEIGHT as int,
    ) + seq![OpModel::Phase(DriverState::Refreshing)] + spec_display_frame() + seq![
        OpModel::Phase(DriverState::Idle),
    ]
}

/// The deep-sleep plan: the vendor sleep command; only a full
/// re-initialization wakes the panel afterwards.
pub open spec fn spec_deep_sleep_plan() -> Seq<OpModel> {
    spec_framed_command(0x07) + spec_framed_data(seq![0xA5u8]) + seq![
        OpModel::Phase(DriverState::Sleeping),
    ]
}

/// Appends one operation to a plan.
fn push_single(plan: &mut Vec<PanelOp>, op: PanelOp)
    ensures
        plan_model(final(plan)@) == plan_model(old(plan)@) + seq![op@],
{
    let ghost m0 = plan_model(plan@);
    plan.push(op);
    proof {
        assert(plan_model(plan@) =~= m0 + seq![op@]);
    }
}

/// Appends a framed command.
fn push_framed_command(plan: &mut Vec<PanelOp>, cmd: u8)
    ensures
        plan_model(final(plan)@) == plan_model(old(plan)@) + spec_framed_command(cmd),
{
    let ghost m0 = plan_model(plan@);
    plan.push(PanelOp::DataCommand(false));
    plan.push(PanelOp::ChipSelect(false));
    let mut payload: Vec<u8> = Vec::new();
    payload.push(cmd);
    proof {
        assert(payload@ =~= seq![cmd]);
    }
    plan.push(PanelOp::Write(payload));
    plan.push(PanelOp::ChipSelect(true));
    proof {
        assert(plan_model(plan@) =~= m0 + spec_framed_command(cmd));
    }
}

/// Appends framed data.
fn push_framed_data(plan: &mut Vec<PanelOp>, data: Vec<u8>)
    ensures
        plan_model(final(plan)@) == plan_model(old(plan)@) + spec_framed_data(data@),
{
    let ghost m0 = plan_model(plan@);
    let ghost d = data@;
    plan.push(PanelOp::DataCommand(true));
    plan.push(PanelOp::ChipSelect(false));
    plan.push(PanelOp::Write(data));
    plan.push(PanelOp::ChipSelect(true));
    proof {
        assert(plan_model(plan@) =~= m0 + spec_framed_data(d));
    }
}

/// Appends the hardware reset pulse.
fn push_reset_sequence(plan: &mut Vec<PanelOp>)
    ensures
        plan_model(final(plan)@) == plan_model(old(plan)@) + spec_reset_sequence(),
{
    let ghost m0 = plan_model(plan@);
    plan.push(PanelOp::Reset(true));
    plan.push(PanelOp::DelayMs(20));
    plan.push(PanelOp::Reset(false));
    plan.push(PanelOp::DelayMs(5));
    plan.push(PanelOp::Reset(true));
    plan.push(PanelOp::DelayMs(20));
    proof {
        assert(plan_model(plan@) =~= m0 + spec_reset_sequence());
    }
}

/// Appends the power-on / refresh / power-off sequence.
fn push_display_frame(plan: &mut Vec<PanelOp>)
    ensures
        plan_model(final(plan)@) == plan_model(old(plan)@) + spec_display_frame(),
{
    let ghost m0 = plan_model(plan@);
    push_framed_command(plan, 0x04);
    push_single(plan, PanelOp::WaitIdle(BUSY_BUDGET_MS));
    push_framed_command(plan, 0x12);
    let mut zero: Vec<u8> = Vec::new();
    zero.push(0x00);
    proof {
        assert(zero@ =~= seq![0x00u8]);
    }
    push_framed_data(plan, zero);
    push_single(plan, PanelOp::WaitIdle(BUSY_BUDGET_MS));
    push_framed_command(plan, 0x02);
    let mut zero2: Vec<u8> = Vec::new();
    zero2.push(0x00);
    proof {
        assert(zero2@ =~= seq![0x00u8]);
    }
    push_framed_data(plan, zero2);
    push_single(plan, PanelOp::WaitIdle(BUSY_BUDGET_MS));
    proof {
        assert(plan_model(plan@) =~= m0 + spec_display_frame());
    }
}

/// Appends a framed command followed by its framed parameter bytes.
fn push_cmd_data(plan: &mut Vec<PanelOp>, cmd: u8, data: Vec<u8>)
    ensures
        plan_model(final(plan)@) == plan_model(old(plan)@) + spec_framed_command(cmd)
            + spec_framed_data(data@),
{
    push_framed_command(plan, cmd);
    push_framed_data(plan, data);
}

/// Builds one solid row of the given color.
fn make_solid_row(color: Color) -> (r: Vec<u8>)
    ensures
        r@ == spec_solid_row(color),
{
    let idx = color.index();
    let b = (idx << 4) | idx;
    let mut row: Vec<u8> = Vec::new();
    let mut k: usize = 0;
    while k < ROW_BYTES
        invariant
            k <= ROW_BYTES,
            row@.len() == k,
            b == spec_dup_nibble(color.spec_index()),
            forall|i: int| 0 <= i < k ==> row@[i] == b,
        decreases ROW_BYTES - k,
    {
        row.push(b);
        k = k + 1;
    }
    proof {
        assert(row@ =~= spec_solid_row(color));
    }
    row
}

/// Returns the test-band color for band `i`.
fn band_color(i: usize) -> (c: Color)
    ensures
        c == spec_band_color(i as int),
{
    if i == 0 {
        Color::White
    } else if i == 1 {
        Color::Black
    } else if i == 2 {
        Color::Blue
    } else if i == 3 {
        Color::Green
    } else if i == 4 {
        Color::Orange
    } else if i == 5 {
        Color::Red
    } else if i == 6 {
        Color::Yellow
    } else {
        Color::White
    }
}

/// The protocol driver for the seven-color panel. It owns no hardware: each
/// operation returns the exact plan of bus operations for the executor to
/// replay, and the struct tracks the resting state the panel is left in, so
/// that callers cannot stream an image to an uninitialized or sleeping panel.
///
/// A plan is not retried: if the executor reports a failure, the caller must
/// run [`Self::init`] again before anything else, as the panel may be left
/// mid-sequence.
pub struct EPaper7In3F {
    state: DriverState,
}

impl EPaper7In3F {
    /// The resting state the panel was left in by the last plan.
    pub closed spec fn state(self) -> DriverState {
        self.state
    }

    /// A fresh driver for a panel whose state is unknown; only [`Self::init`]
    /// is meaningful next.
    pub fn new() -> (r: EPaper7In3F)
        ensures
            r.state() == DriverState::Uninitialized,
    {
        EPaper7In3F { state: DriverState::Uninitialized }
    }

    /// Reads the resting state the panel was left in.
    pub fn current_state(&self) -> (s: DriverState)
        ensures
            s == self.state(),
    {
        self.state
    }

    /// After a plan failed partway, the panel must be treated as
    /// uninitialized; only a fresh [`Self::init`] may follow.
    pub fn mark_failed(&mut self)
        ensures
            final(self).state() == DriverState::Uninitialized,
    {
        self.state = DriverState::Uninitialized;
    }

    /// The initialization plan: reset pulse, busy wait, then the vendor
    /// calibration sequence, leaving the panel idle. May be run from any
    /// state; it is the only way out of `Uninitialized` and `Sleeping`.
    pub fn init(&mut self) -> (plan: Vec<PanelOp>)
        ensures
            final(self).state() == DriverState::Idle,
            plan_model(plan@) == spec_init_plan(),
    {
        self.state = DriverState::Idle;
        let mut plan: Vec<PanelOp> = Vec::new();
        push_single(&mut plan, PanelOp::Phase(DriverState::Resetting));
        proof {
            assert(plan_model(plan@) =~= seq![OpModel::Phase(DriverState::Resetting)]);
        }
        push_reset_sequence(&mut plan);
        push_single(&mut plan, PanelOp::WaitIdle(BUSY_BUDGET_MS));
        push_single(&mut plan, PanelOp::DelayMs(30));
        push_single(&mut plan, PanelOp::Phase(DriverState::Initializing));

        let d = vec![0x49u8, 0x55u8, 0x20u8, 0x08u8, 0x09u8, 0x18u8];
        proof {
            assert(d@ =~= seq![0x49u8, 0x55u8, 0x20u8, 0x08u8, 0x09u8, 0x18u8]);
        }
        push_cmd_data(&mut plan, 0xAA, d);
        let d = vec![0x3Fu8, 0x00u8, 0x32u8, 0x2Au8, 0x0Eu8, 0x2Au8];
        proof {
            assert(d@ =~= seq![0x3Fu8, 0x00u8, 0x32u8, 0x2Au8, 0x0Eu8, 0x2Au8]);
        }
        push_cmd_data(&mut plan, 0x01, d);
        let d = vec![0x5Fu8, 0x69u8];
        proof {
            assert(d@ =~= seq![0x5Fu8, 0x69u8]);
        }
        push_cmd_data(&mut plan, 0x00, d);
        let d = vec![0x00u8, 0x54u8, 0x00u8, 0x44u8];
        proof {
            assert(d@ =~= seq![0x00u8, 0x54u8, 0x00u8, 0x44u8]);
        }
        push_cmd_data(&mut plan, 0x03, d);
        let d = vec![0x40u8, 0x1Fu8, 0x1Fu8, 0x2Cu8];
        proof {
            assert(d@ =~= seq![0x40u8, 0x1Fu8, 0x1Fu8, 0x2Cu8]);
        }
        push_cmd_data(&mut plan, 0x05, d);
        let d = vec![0x6Fu8, 0x1Fu8, 0x1Fu8, 0x22u8];
        proof {
            assert(d@ =~= seq![0x6Fu8, 0x1Fu8, 0x1Fu8, 0x22u8]);
        }
        push_cmd_data(&mut plan, 0x06, d);
        let d = vec![0x6Fu8, 0x1Fu8, 0x1Fu8, 0x22u8];
        proof {
            assert(d@ =~= seq![0x6Fu8, 0x1Fu8, 0x1Fu8, 0x22u8]);
        }
        push_cmd_data(&mut plan, 0x08, d);
        let d = vec![0x00u8, 0x04u8];
        proof {
            assert(d@ =~= seq![0x00u8, 0x04u8]);
        }
        push_cmd_data(&mut plan, 0x13, d);
        let d = vec![0x3Cu8];
        proof {
            assert(d@ =~= seq![0x3Cu8]);
        }
        push_cmd_data(&mut plan, 0x30, d);
        let d = vec![0x00u8];
        proof {
            assert(d@ =~= seq![0x00u8]);
        }
        push_cmd_data(&mut plan, 0x41, d);
        let d = vec![0x3Fu8];
        proof {
            assert(d@ =~= seq![0x3Fu8]);
        }
        push_cmd_data(&mut plan, 0x50, d);
        let d = vec![0x02u8, 0x00u8];
        proof {
            assert(d@ =~= seq![0x02u8, 0x00u8]);
        }
        push_cmd_data(&mut plan, 0x60, d);
        let d = vec![0x03u8, 0x20u8, 0x01u8, 0xE0u8];
        proof {
            assert(d@ =~= seq![0x03u8, 0x20u8, 0x01u8, 0xE0u8]);
        }
        push_cmd_data(&mut plan, 0x61, d);
        let d = vec![0x1Eu8];
        proof {
            assert(d@ =~= seq![0x1Eu8]);
        }
        push_cmd_data(&mut plan, 0x82, d);
        let d = vec![0x00u8];
        proof {
            assert(d@ =~= seq![0x00u8]);
        }
        push_cmd_data(&mut plan, 0x84, d);
        let d = vec![0x00u8];
        proof {
            assert(d@ =~= seq![0x00u8]);
        }
        push_cmd_data(&mut plan, 0x86, d);
        let d = vec![0x2Fu8];
        proof {
            assert(d@ =~= seq![0x2Fu8]);
        }
        push_cmd_data(&mut plan, 0xE3, d);
        let d = vec![0x00u8];
        proof {
            assert(d@ =~= seq![0x00u8]);
        }
        push_cmd_data(&mut plan, 0xE0, d);
        let d = vec![0x00u8];
        proof {
            assert(d@ =~= seq![0x00u8]);
        }
        push_cmd_data(&mut plan, 0xE6, d);
        push_single(&mut plan, PanelOp::Phase(DriverState::Idle));
        plan
    }

    /// The image-transfer plan: issues the data-transfer command, streams the
    /// frame row by row (feeding the watchdog between rows), then powers on,
    /// refreshes and powers off the panel.
    pub fn show_image(&mut self, image: &DisplayBuffer) -> (plan: Vec<PanelOp>)
        requires
            old(self).state() == DriverState::Idle,
            image.wf(),
        ensures
            final(self).state() == DriverState::Idle,
            plan_model(plan@) == spec_show_image_plan(image.bytes()),
    {
        let mut plan: Vec<PanelOp> = Vec::new();
        push_single(&mut plan, PanelOp::Phase(DriverState::Transferring));
        proof {
            assert(plan_model(plan@) =~= seq![OpModel::Phase(DriverState::Transferring)]);
        }
        push_framed_command(&mut plan, 0x10);
        let ghost prefix = plan_model(plan@);
        let mut y: usize = 0;
        while y < EPD_7IN3F_HEIGHT
            invariant
                y <= EPD_7IN3F_HEIGHT,
                image.wf(),
                prefix == seq![OpModel::Phase(DriverState::Transferring)] + spec_framed_command(
                    0x10,
                ),
                plan_model(plan@) == prefix + spec_image_rows(image.bytes(), y as int),
            decreases EPD_7IN3F_HEIGHT - y,
        {
            proof {
                assert(spec_image_rows(image.bytes(), 0) == Seq::<OpModel>::empty());
                assert(prefix + Seq::<OpModel>::empty() =~= prefix);
            }
            let row = image.row_bytes(y);
            let ghost m_y = plan_model(plan@);
            let ghost chunk = spec_framed_data(row@) + seq![OpModel::FeedWatchdog];
            push_framed_data(&mut plan, row);
            push_single(&mut plan, PanelOp::FeedWatchdog);
            proof {
                lemma_concat_assoc(m_y, spec_framed_data(row@), seq![OpModel::FeedWatchdog]);
                lemma_concat_assoc(prefix, spec_image_rows(image.bytes(), y as int), chunk);
                assert(spec_image_rows(image.bytes(), y as int + 1) == spec_image_rows(
                    image.bytes(),
                    y as int,
                ) + chunk);
            }
            y = y + 1;
        }
        proof {
            assert(spec_image_rows(image.bytes(), 0) == Seq::<OpModel>::empty());
            assert(prefix + Seq::<OpModel>::empty() =~= prefix);
        }
        push_single(&mut plan, PanelOp::Phase(DriverState::Refreshing));
        push_display_frame(&mut plan);
        push_single(&mut plan, PanelOp::Phase(DriverState::Idle));
        plan
    }

    /// The bulk-erase plan: streams a full frame of the given color directly,
    /// bypassing the framebuffer, then refreshes. Every streamed row consists
    /// of the color's index in both nibbles of every byte.
    pub fn clear(&mut self, color: Color) -> (plan: Vec<PanelOp>)
        requires
            old(self).state() == DriverState::Idle,
        ensures
            final(self).state() == DriverState::Idle,
            plan_model(plan@) == spec_clear_plan(color),
    {
        let mut plan: Vec<PanelOp> = Vec::new();
        push_single(&mut plan, PanelOp::Phase(DriverState::Transferring));
        proof {
            assert(plan_model(plan@) =~= seq![OpModel::Phase(DriverState::Transferring)]);
        }
        push_framed_command(&mut plan, 0x10);
        let ghost prefix = plan_model(plan@);
        let mut y: usize = 0;
        while y < EPD_7IN3F_HEIGHT
            invariant
                y <= EPD_7IN3F_HEIGHT,
                prefix == seq![OpModel::Phase(DriverState::Transferring)] + spec_framed_command(
                    0x10,
                ),
                plan_model(plan@) == prefix + spec_solid_rows(color, y as int),
            decreases EPD_7IN3F_HEIGHT - y,
        {
            proof {
                assert(spec_solid_rows(color, 0) == Seq::<OpModel>::empty());
                assert(prefix + Seq::<OpModel>::empty() =~= prefix);
            }
            let row = make_solid_row(color);
            let ghost m_y = plan_model(plan@);
            push_framed_data(&mut plan, row);
            proof {
                lemma_concat_assoc(prefix, spec_solid_rows(color, y as int), spec_framed_data(
                    spec_solid_row(color),
                ));
                assert(spec_solid_rows(color, y as int + 1) == spec_solid_rows(color, y as int)
                    + spec_framed_data(spec_solid_row(color)));
            }
            y = y + 1;
        }
        proof {
            assert(spec_solid_rows(color, 0) == Seq::<OpModel>::empty());
            assert(prefix + Seq::<OpModel>::empty() =~= prefix);
        }
        push_single(&mut plan, PanelOp::Phase(DriverState::Refreshing));
        push_display_frame(&mut plan);
        push_single(&mut plan, PanelOp::Phase(DriverState::Idle));
        plan
    }

    /// The test-pattern plan: eight horizontal bands, one per palette entry,
    /// streamed directly to the panel, then a refresh.
    pub fn show_seven_color_blocks(&mut self) -> (plan: Vec<PanelOp>)
        requires
            old(self).state() == DriverState::Idle,
        ensures
            final(self).state() == DriverState::Idle,
            plan_model(plan@) == spec_blocks_plan(),
    {
        let mut plan: Vec<PanelOp> = Vec::new();
        push_single(&mut plan, PanelOp::Phase(DriverState::Transferring));
        proof {
            assert(plan_model(plan@) =~= seq![OpModel::Phase(DriverState::Transferring)]);
        }
        push_framed_command(&mut plan, 0x10);
        let ghost prefix = plan_model(plan@);
        let mut y: usize = 0;
        while y < EPD_7IN3F_HEIGHT
            invariant
                y <= EPD_7IN3F_HEIGHT,
                prefix == seq![OpModel::Phase(DriverState::Transferring)] + spec_framed_command(
                    0x10,
                ),
                plan_model(plan@) == prefix + spec_band_rows(y as int),
            decreases EPD_7IN3F_HEIGHT - y,
        {
            proof {
                assert(spec_band_rows(0) == Seq::<OpModel>::empty());
                assert(prefix + Seq::<OpModel>::empty() =~= prefix);
            }
            let color = band_color(y / 60);
            let row = make_solid_row(color);
            push_framed_data(&mut plan, row);
            proof {
                lemma_concat_assoc(prefix, spec_band_rows(y as int), spec_framed_data(
                    spec_solid_row(color),
                ));
                assert(spec_band_rows(y as int + 1) == spec_band_rows(y as int) + spec_framed_data(
                    spec_solid_row(spec_band_color(y as int / 60)),
                ));
            }
            y = y + 1;
        }
        proof {
            assert(spec_band_rows(0) == Seq::<OpModel>::empty());
            assert(prefix + Seq::<OpModel>::empty() =~= prefix);
        }
        push_single(&mut plan, PanelOp::Phase(DriverState::Refreshing));
        push_display_frame(&mut plan);
        push_single(&mut plan, PanelOp::Phase(DriverState::Idle));
        plan
    }

    /// The deep-sleep plan: the vendor sleep command. Every later operation
    /// requires a full [`Self::init`] first.
    pub fn deep_sleep(&mut self) -> (plan: Vec<PanelOp>)
        requires
            old(self).state() == DriverState::Idle,
        ensures
            final(self).state() == DriverState::Sleeping,
            plan_model(plan@) == spec_deep_sleep_plan(),
    {
        self.state = DriverState::Sleeping;
        let mut plan: Vec<PanelOp> = Vec::new();
        push_framed_command(&mut plan, 0x07);
        proof {
            assert(plan_model(plan@) =~= spec_framed_command(0x07));
        }
        let d = vec![0xA5u8];
        proof {
            assert(d@ =~= seq![0xA5u8]);
        }
        push_framed_data(&mut plan, d);
        push_single(&mut plan, PanelOp::Phase(DriverState::Sleeping));
        plan
    }
}

/// The cooperative busy-wait: the executor samples the busy line, hands the
/// level to [`BusyWait::step`], and on [`WaitStep::PollAgain`] sleeps one
/// poll interval and feeds the watchdog before sampling again. The elapsed
/// time accumulates against a fixed budget, so no wait can stall forever.
pub struct BusyWait {
    pub elapsed_ms: u32,
    pub budget_ms: u32,
    pub poll_ms: u32,
}

/// The decision after one busy-line sample.
#[derive(Clone, Copy, Debug, PartialEq, Eq, Structural)]
pub enum WaitStep {
    /// The busy line is clear; the wait is over.
    Idle,
    /// Still busy and within budget: sleep one poll interval, feed the
    /// watchdog, sample again.
    PollAgain,
    /// Still busy and the budget is spent: fail with `Error::Timeout`.
    TimedOut,
}

/// How one busy-line sample advances the wait: a clear line ends it
/// unchanged; a busy line consumes one poll interval, timing out as soon as
/// the accumulated time would reach the budget.
pub open spec fn spec_wait_step(w: BusyWait, busy: bool) -> (BusyWait, WaitStep) {
    if !busy {
        (w, WaitStep::Idle)
    } else if w.budget_ms - w.elapsed_ms <= w.poll_ms {
        (BusyWait { elapsed_ms: w.budget_ms, ..w }, WaitStep::TimedOut)
    } else {
        (BusyWait { elapsed_ms: (w.elapsed_ms + w.poll_ms) as u32, ..w }, WaitStep::PollAgain)
    }
}

/// The wait state after `k` polls of a busy line that never clears.
pub open spec fn spec_all_busy(w: BusyWait, k: nat) -> BusyWait
    decreases k,
{
    if k == 0 {
        w
    } else {
        spec_wait_step(spec_all_busy(w, (k - 1) as nat), true).0
    }
}

impl BusyWait {
    /// A wait is well-formed when its poll interval is positive (so time
    /// always advances) and its elapsed time has not passed the budget.
    pub open spec fn wf(self) -> bool {
        self.poll_ms > 0 && self.elapsed_ms <= self.budget_ms
    }

    /// Starts a wait with the given budget.
    pub fn new(budget_ms: u32, poll_ms: u32) -> (w: BusyWait)
        requires
            poll_ms > 0,
        ensures
            w == (BusyWait { elapsed_ms: 0, budget_ms, poll_ms }),
            w.wf(),
    {
        BusyWait { elapsed_ms: 0, budget_ms, poll_ms }
    }

    /// Advances the wait by one busy-line sample.
    pub fn step(&mut self, busy: bool) -> (r: WaitStep)
        requires
            old(self).wf(),
        ensures
            final(self).wf(),
            (*final(self), r) == spec_wait_step(*old(self), busy),
    {
        if !busy {
            WaitStep::Idle
        } else if self.budget_ms - self.elapsed_ms <= self.poll_ms {
            self.elapsed_ms = self.budget_ms;
            WaitStep::TimedOut
        } else {
            self.elapsed_ms = self.elapsed_ms + self.poll_ms;
            WaitStep::PollAgain
        }
    }
}

/// After `k` polls of a line that never clears, the accumulated time is
/// `k` poll intervals, capped at the budget.
proof fn lemma_all_busy_elapsed(w: BusyWait, k: nat)
    requires
        w.wf(),
        w.elapsed_ms == 0,
    ensures
        spec_all_busy(w, k).wf(),
        spec_all_busy(w, k).budget_ms == w.budget_ms,
        spec_all_busy(w, k).poll_ms == w.poll_ms,
        spec_all_busy(w, k).elapsed_ms == if k * w.poll_ms <= w.budget_ms {
            k * w.poll_ms
        } else {
            w.budget_ms as int
        },
    decreases k,
{
    if k > 0 {
        lemma_all_busy_elapsed(w, (k - 1) as nat);
        assert((k - 1) * w.poll_ms + w.poll_ms == k * w.poll_ms) by (nonlinear_arith);
    }
}

/// Busy-wait timeout: a busy line that never clears makes the wait return
/// `TimedOut` on poll number `k` exactly when `k` poll intervals reach the
/// budget, and `PollAgain` on every earlier poll — so the wait fails after
/// exactly `ceil(budget / poll)` polls instead of hanging.
pub proof fn lemma_busy_wait_times_out(w: BusyWait, k: nat)
    requires
        w.wf(),
        w.elapsed_ms == 0,
        k >= 1,
    ensures
        spec_wait_step(spec_all_busy(w, (k - 1) as nat), true).1 == if k * w.poll_ms
            >= w.budget_ms {
            WaitStep::TimedOut
        } else {
            WaitStep::PollAgain
        },
{
    lemma_all_busy_elapsed(w, (k - 1) as nat);
    assert((k - 1) * w.poll_ms + w.poll_ms == k * w.poll_ms) by (nonlinear_arith);
}

} // verus!

