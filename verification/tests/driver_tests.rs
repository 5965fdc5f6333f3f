use photopainter::epaper::buffer::DisplayBuffer;
use photopainter::epaper::driver::{
    BusyWait, DriverState, EPaper7In3F, PanelOp, WaitStep, BUSY_BUDGET_MS, POLL_INTERVAL_MS,
    ROW_BYTES,
};
use photopainter::epaper::Color;
use photopainter::EPD_7IN3F_HEIGHT;

/// The payload bytes of every `Write` op, in order.
fn written_bytes(plan: &[PanelOp]) -> Vec<u8> {
    let mut out = Vec::new();
    for op in plan {
        if let PanelOp::Write(data) = op {
            out.extend_from_slice(data);
        }
    }
    out
}

/// The data payloads streamed after the data-transfer command `0x10`, up to
/// the power-on command that starts the refresh.
fn streamed_data(plan: &[PanelOp]) -> Vec<u8> {
    let mut out = Vec::new();
    let mut streaming = false;
    for op in plan {
        if let PanelOp::Write(data) = op {
            if data.len() == 1 && data[0] == 0x10 {
                streaming = true;
            } else if data.len() == 1 && streaming && (data[0] == 0x04 || data[0] == 0x12 || data[0] == 0x02) {
                break;
            } else if streaming {
                out.extend_from_slice(data);
            }
        }
    }
    out
}

#[test]
fn driver_states_follow_the_protocol() {
    let mut epd = EPaper7In3F::new();
    assert_eq!(epd.current_state(), DriverState::Uninitialized);
    let _ = epd.init();
    assert_eq!(epd.current_state(), DriverState::Idle);
    let _ = epd.clear(Color::White);
    assert_eq!(epd.current_state(), DriverState::Idle);
    let _ = epd.deep_sleep();
    assert_eq!(epd.current_state(), DriverState::Sleeping);
    epd.mark_failed();
    assert_eq!(epd.current_state(), DriverState::Uninitialized);
    let _ = epd.init();
    assert_eq!(epd.current_state(), DriverState::Idle);
}

#[test]
fn init_plan_reproduces_the_vendor_sequence() {
    let mut epd = EPaper7In3F::new();
    let plan = epd.init();

    // the reset pulse with its fixed delays comes first
    assert_eq!(plan[1], PanelOp::Reset(true));
    assert_eq!(plan[2], PanelOp::DelayMs(20));
    assert_eq!(plan[3], PanelOp::Reset(false));
    assert_eq!(plan[4], PanelOp::DelayMs(5));
    assert_eq!(plan[5], PanelOp::Reset(true));
    assert_eq!(plan[6], PanelOp::DelayMs(20));
    assert_eq!(plan[7], PanelOp::WaitIdle(BUSY_BUDGET_MS));
    assert_eq!(plan[8], PanelOp::DelayMs(30));

    // all bus bytes, command and parameter alike, in order
    let expected: Vec<u8> = vec![
        0xAA, 0x49, 0x55, 0x20, 0x08, 0x09, 0x18, //
        0x01, 0x3F, 0x00, 0x32, 0x2A, 0x0E, 0x2A, //
        0x00, 0x5F, 0x69, //
        0x03, 0x00, 0x54, 0x00, 0x44, //
        0x05, 0x40, 0x1F, 0x1F, 0x2C, //
        0x06, 0x6F, 0x1F, 0x1F, 0x22, //
        0x08, 0x6F, 0x1F, 0x1F, 0x22, //
        0x13, 0x00, 0x04, //
        0x30, 0x3C, //
        0x41, 0x00, //
        0x50, 0x3F, //
        0x60, 0x02, 0x00, //
        0x61, 0x03, 0x20, 0x01, 0xE0, //
        0x82, 0x1E, //
        0x84, 0x00, //
        0x86, 0x00, //
        0xE3, 0x2F, //
        0xE0, 0x00, //
        0xE6, 0x00,
    ];
    assert_eq!(written_bytes(&plan), expected);

    // every command byte is framed: select command mode, assert chip select,
    // write, release chip select
    assert_eq!(plan[9], PanelOp::Phase(DriverState::Initializing));
    assert_eq!(plan[10], PanelOp::DataCommand(false));
    assert_eq!(plan[11], PanelOp::ChipSelect(false));
    assert_eq!(plan[12], PanelOp::Write(vec![0xAA]));
    assert_eq!(plan[13], PanelOp::ChipSelect(true));
    assert_eq!(plan[14], PanelOp::DataCommand(true));
    assert_eq!(plan[15], PanelOp::ChipSelect(false));
    assert_eq!(plan[16], PanelOp::Write(vec![0x49, 0x55, 0x20, 0x08, 0x09, 0x18]));
    assert_eq!(plan[17], PanelOp::ChipSelect(true));

    // the plan leaves the panel idle
    assert_eq!(plan.last(), Some(&PanelOp::Phase(DriverState::Idle)));
}

#[test]
fn clear_white_streams_a_full_frame_of_white_nibbles() {
    let mut epd = EPaper7In3F::new();
    let _ = epd.init();
    let plan = epd.clear(Color::White);
    let data = streamed_data(&plan);
    assert_eq!(data.len(), 192000);
    assert!(data.iter().all(|b| *b == 0x11));
    assert_eq!(plan.last(), Some(&PanelOp::Phase(DriverState::Idle)));
}

#[test]
fn clear_black_streams_zero_bytes() {
    let mut epd = EPaper7In3F::new();
    let _ = epd.init();
    let plan = epd.clear(Color::Black);
    let data = streamed_data(&plan);
    assert_eq!(data.len(), 192000);
    assert!(data.iter().all(|b| *b == 0x00));
}

#[test]
fn show_image_streams_the_frame_row_by_row_and_feeds_the_watchdog() {
    let mut buf = DisplayBuffer::new(false);
    buf.set_pixel(0, 0, Color::Red);
    buf.set_pixel(799, 479, Color::Yellow);
    let mut epd = EPaper7In3F::new();
    let _ = epd.init();
    let plan = epd.show_image(&buf);

    let data = streamed_data(&plan);
    assert_eq!(data.len(), 192000);
    assert_eq!(data[0], 0x40); // red in the high nibble of the first byte
    assert_eq!(data[191999], 0x05); // yellow in the low nibble of the last byte
    assert!(data[1..191999].iter().all(|b| *b == 0));

    let feeds = plan.iter().filter(|op| matches!(op, PanelOp::FeedWatchdog)).count();
    assert_eq!(feeds, EPD_7IN3F_HEIGHT);

    // power on, refresh, power off, each with a bounded busy wait
    let waits = plan.iter().filter(|op| matches!(op, PanelOp::WaitIdle(_))).count();
    assert_eq!(waits, 3);
    assert_eq!(plan.last(), Some(&PanelOp::Phase(DriverState::Idle)));
}

#[test]
fn seven_color_blocks_stream_eight_bands() {
    let mut epd = EPaper7In3F::new();
    let _ = epd.init();
    let plan = epd.show_seven_color_blocks();
    let data = streamed_data(&plan);
    assert_eq!(data.len(), 192000);
    // band order: white, black, blue, green, orange, red, yellow, white
    let band_bytes = [0x11u8, 0x00, 0x33, 0x22, 0x66, 0x44, 0x55, 0x11];
    for (band, want) in band_bytes.iter().enumerate() {
        let start = band * 60 * ROW_BYTES;
        let end = start + 60 * ROW_BYTES;
        assert!(data[start..end].iter().all(|b| b == want), "band {band}");
    }
}

#[test]
fn deep_sleep_sends_the_vendor_sleep_command() {
    let mut epd = EPaper7In3F::new();
    let _ = epd.init();
    let plan = epd.deep_sleep();
    assert_eq!(written_bytes(&plan), vec![0x07, 0xA5]);
    assert_eq!(plan.last(), Some(&PanelOp::Phase(DriverState::Sleeping)));
}

#[test]
fn busy_wait_times_out_after_exactly_the_budget() {
    // 2000 ms at 10 ms polling: 199 polls stay in progress, the 200th fails
    let mut wait = BusyWait::new(2000, 10);
    for poll in 1..=199u32 {
        assert_eq!(wait.step(true), WaitStep::PollAgain, "poll {poll}");
    }
    assert_eq!(wait.step(true), WaitStep::TimedOut);
}

#[test]
fn busy_wait_ends_when_the_line_clears() {
    let mut wait = BusyWait::new(2000, 10);
    assert_eq!(wait.step(true), WaitStep::PollAgain);
    assert_eq!(wait.step(false), WaitStep::Idle);
}

#[test]
fn busy_wait_with_zero_budget_times_out_immediately() {
    let mut wait = BusyWait::new(0, POLL_INTERVAL_MS);
    assert_eq!(wait.step(true), WaitStep::TimedOut);
}
