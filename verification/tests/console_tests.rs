use photopainter::console::{parse_command, ConsoleCommand};
use photopainter::rtc::TimeData;

#[test]
fn parse_recognizes_every_command_keyword() {
    assert_eq!(parse_command(b"DRAWRANDOM"), Some(ConsoleCommand::DrawRandom));
    assert_eq!(parse_command(b"DRAWCALENDAR"), Some(ConsoleCommand::DrawCalendar));
    assert_eq!(parse_command(b"GO"), Some(ConsoleCommand::DrawCalendar));
    assert_eq!(parse_command(b"TIME"), Some(ConsoleCommand::Time));
    assert_eq!(parse_command(b"BATTERY"), Some(ConsoleCommand::Battery));
    assert_eq!(parse_command(b"VBAT"), Some(ConsoleCommand::Battery));
    assert_eq!(parse_command(b"RESET"), Some(ConsoleCommand::Reset));
    assert_eq!(parse_command(b"VERSION"), Some(ConsoleCommand::Version));
    assert_eq!(parse_command(b"VER"), Some(ConsoleCommand::Version));
    assert_eq!(parse_command(b"CLEAR"), Some(ConsoleCommand::Clear));
    assert_eq!(parse_command(b"DFU"), Some(ConsoleCommand::Dfu));
    assert_eq!(parse_command(b"HELP"), Some(ConsoleCommand::Help));
    assert_eq!(parse_command(b"?"), Some(ConsoleCommand::Help));
}

#[test]
fn parse_is_case_insensitive() {
    assert_eq!(parse_command(b"help"), Some(ConsoleCommand::Help));
    assert_eq!(parse_command(b"DrawCalendar"), Some(ConsoleCommand::DrawCalendar));
    assert_eq!(parse_command(b"sleep 30"), Some(ConsoleCommand::Sleep(30)));
}

#[test]
fn parse_trims_and_splits_on_whitespace() {
    assert_eq!(parse_command(b"  TIME  "), Some(ConsoleCommand::Time));
    assert_eq!(parse_command(b"\tSLEEP\t42\r\n"), Some(ConsoleCommand::Sleep(42)));
    assert_eq!(parse_command(b"SLEEP    7"), Some(ConsoleCommand::Sleep(7)));
}

#[test]
fn parse_rejects_empty_and_unknown_lines() {
    assert_eq!(parse_command(b""), None);
    assert_eq!(parse_command(b"   "), None);
    assert_eq!(parse_command(b"FLY"), None);
    assert_eq!(parse_command(b"SLEEPY 5"), None);
}

#[test]
fn parse_sleep_needs_one_well_formed_number() {
    assert_eq!(parse_command(b"SLEEP 0"), Some(ConsoleCommand::Sleep(0)));
    assert_eq!(parse_command(b"SLEEP 4294967295"), Some(ConsoleCommand::Sleep(4294967295)));
    assert_eq!(parse_command(b"SLEEP"), None);
    assert_eq!(parse_command(b"SLEEP x"), None);
    assert_eq!(parse_command(b"SLEEP 12x"), None);
    assert_eq!(parse_command(b"SLEEP 4294967296"), None);
}

#[test]
fn parse_settime_takes_six_fields() {
    let want = TimeData { years: 2025, months: 12, days: 6, hours: 14, minutes: 39, seconds: 30 };
    assert_eq!(
        parse_command(b"SETTIME 2025 12 6 14 39 30"),
        Some(ConsoleCommand::SetTime(want))
    );
    assert_eq!(parse_command(b"SETTIME 2025 12 6 14 39"), None);
    assert_eq!(parse_command(b"SETTIME 2025 12 6 14 39 3a"), None);
    assert_eq!(parse_command(b"SETTIME 99999 12 6 14 39 30"), None);
}

#[test]
fn parse_ignores_surplus_tokens() {
    assert_eq!(parse_command(b"TIME NOW PLEASE"), Some(ConsoleCommand::Time));
    assert_eq!(parse_command(b"SLEEP 5 extra"), Some(ConsoleCommand::Sleep(5)));
}
