use photopainter::battery_millivolts;
use photopainter::graphics::calendar::{
    calculate_day_of_week, day_of_week_name, day_of_year, month_name,
};
use photopainter::rtc::{
    add_seconds_to_time, bcd_to_dec, dec_to_bcd, decode_time_registers, encode_alarm_registers,
    encode_time_registers, TimeData, DAYS_REG, DAY_ALARM_REG, HOURS_REG, HOUR_ALARM_REG,
    MINUTES_ALARM_REG, MINUTES_REG, MONTHS_REG, SECONDS_REG, SECOND_ALARM_REG, YEARS_REG,
};

#[test]
fn bcd_conversion_matches_known_values() {
    assert_eq!(dec_to_bcd(0), 0x00);
    assert_eq!(dec_to_bcd(7), 0x07);
    assert_eq!(dec_to_bcd(45), 0x45);
    assert_eq!(dec_to_bcd(99), 0x99);
    assert_eq!(bcd_to_dec(0x00), 0);
    assert_eq!(bcd_to_dec(0x59), 59);
    assert_eq!(bcd_to_dec(0x99), 99);
}

#[test]
fn bcd_round_trips_for_every_two_digit_value() {
    for v in 0..=99u8 {
        assert_eq!(bcd_to_dec(dec_to_bcd(v)), v);
    }
}

#[test]
fn add_seconds_within_a_minute() {
    let t = TimeData { years: 2025, months: 12, days: 6, hours: 14, minutes: 39, seconds: 30 };
    let r = add_seconds_to_time(&t, 15);
    assert_eq!((r.hours, r.minutes, r.seconds), (14, 39, 45));
    assert_eq!((r.years, r.months, r.days), (2025, 12, 6));
}

#[test]
fn add_seconds_cascades_through_every_field() {
    let t = TimeData { years: 2024, months: 12, days: 31, hours: 23, minutes: 59, seconds: 59 };
    let r = add_seconds_to_time(&t, 1);
    assert_eq!((r.years, r.months, r.days), (2025, 1, 1));
    assert_eq!((r.hours, r.minutes, r.seconds), (0, 0, 0));
}

#[test]
fn add_seconds_longest_supported_sleep() {
    let t = TimeData { years: 2025, months: 6, days: 1, hours: 0, minutes: 0, seconds: 0 };
    // 65000 seconds is 18 hours, 3 minutes, 20 seconds
    let r = add_seconds_to_time(&t, 65000);
    assert_eq!((r.hours, r.minutes, r.seconds), (18, 3, 20));
    assert_eq!((r.years, r.months, r.days), (2025, 6, 1));
}

#[test]
fn add_seconds_uses_the_chips_simplified_calendar() {
    // the clock chip's carry treats every month as 31 days
    let t = TimeData { years: 2025, months: 2, days: 31, hours: 23, minutes: 0, seconds: 0 };
    let r = add_seconds_to_time(&t, 3600);
    assert_eq!((r.months, r.days, r.hours), (3, 1, 0));
}

#[test]
fn decode_time_registers_reads_masked_bcd_fields() {
    let regs = [0xD9u8, 0x30, 0x23, 0x31, 0x05, 0x92, 0x24];
    let t = decode_time_registers(&regs);
    // the top bit of the seconds register is the oscillator-stop flag and is
    // masked off; the month register's top bits hold the century flag
    assert_eq!(t.seconds, 59);
    assert_eq!(t.minutes, 30);
    assert_eq!(t.hours, 23);
    assert_eq!(t.days, 31);
    assert_eq!(t.months, 12);
    assert_eq!(t.years, 2024);
}

#[test]
fn encode_time_registers_writes_each_field_in_chip_order() {
    let t = TimeData { years: 2025, months: 12, days: 6, hours: 14, minutes: 39, seconds: 30 };
    let regs = encode_time_registers(&t).expect("year fits the chip");
    assert_eq!(
        regs,
        vec![
            (HOURS_REG, 0x14),
            (MINUTES_REG, 0x39),
            (SECONDS_REG, 0x30),
            (YEARS_REG, 0x25),
            (MONTHS_REG, 0x12),
            (DAYS_REG, 0x06),
        ]
    );
}

#[test]
fn encode_time_registers_rejects_years_off_the_chip() {
    let t = TimeData { years: 2100, months: 1, days: 1, hours: 0, minutes: 0, seconds: 0 };
    assert!(encode_time_registers(&t).is_none());
    // bare two-digit years are taken as already offset from 2000
    let bare = TimeData { years: 50, months: 1, days: 1, hours: 0, minutes: 0, seconds: 0 };
    let regs = encode_time_registers(&bare).expect("two-digit year");
    assert_eq!(regs[3], (YEARS_REG, 0x50));
}

#[test]
fn encode_alarm_registers_writes_day_hour_minute_second() {
    let t = TimeData { years: 2025, months: 12, days: 7, hours: 6, minutes: 0, seconds: 0 };
    let regs = encode_alarm_registers(&t);
    assert_eq!(
        regs,
        vec![
            (DAY_ALARM_REG, 0x07),
            (HOUR_ALARM_REG, 0x06),
            (MINUTES_ALARM_REG, 0x00),
            (SECOND_ALARM_REG, 0x00),
        ]
    );
}

#[test]
fn day_of_week_matches_known_dates() {
    // 0 is Sunday
    assert_eq!(calculate_day_of_week(2025, 12, 6), 6);
    assert_eq!(calculate_day_of_week(2000, 1, 1), 6);
    assert_eq!(calculate_day_of_week(2024, 2, 29), 4);
    assert_eq!(calculate_day_of_week(1999, 12, 31), 5);
}

#[test]
fn day_of_year_counts_leap_years() {
    assert_eq!(day_of_year(1, 1, 2025), 1);
    assert_eq!(day_of_year(3, 1, 2025), 60);
    assert_eq!(day_of_year(3, 1, 2024), 61);
    assert_eq!(day_of_year(12, 6, 2025), 340);
    assert_eq!(day_of_year(12, 31, 2024), 366);
}

#[test]
fn display_names_cover_all_values() {
    assert_eq!(day_of_week_name(0), "SUNDAY");
    assert_eq!(day_of_week_name(6), "SATURDAY");
    assert_eq!(day_of_week_name(7), "UNKNOWN");
    assert_eq!(month_name(1), "JANUARY");
    assert_eq!(month_name(12), "DECEMBER");
    assert_eq!(month_name(0), "UNKNOWN");
    assert_eq!(month_name(13), "UNKNOWN");
}

#[test]
fn battery_conversion_scales_the_raw_reading() {
    assert_eq!(battery_millivolts(0), 0);
    assert_eq!(battery_millivolts(2048), 4950);
    assert_eq!(battery_millivolts(4095), 9897);
}
