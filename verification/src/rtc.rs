//! Calendar time values and the pure arithmetic of the real-time-clock
//! collaborator: BCD register conversion and bounded time addition.
//!
//! The bus transactions that move these values to and from the clock chip are
//! hardware concerns and live outside the library; everything here is plain
//! arithmetic on register bytes and field values.

use vstd::prelude::*;

verus! {

/// A broken-down date and time as the real-time clock reports it.
#[derive(Clone, Copy, Debug, PartialEq, Eq, Structural)]
pub struct TimeData {
    pub years: u16,
    pub months: u16,
    pub days: u16,
    pub hours: u16,
    pub minutes: u16,
    pub seconds: u16,
}

impl TimeData {
    /// Field ranges of a well-formed clock reading. Years are bounded so the
    /// carry arithmetic in [`add_seconds_to_time`] cannot overflow a `u16`.
    pub open spec fn valid(self) -> bool {
        &&& self.seconds < 60
        &&& self.minutes < 60
        &&& self.hours < 24
        &&& 1 <= self.days <= 31
        &&& 1 <= self.months <= 12
        &&& self.years <= 60000
    }
}

/// Largest number of seconds [`add_seconds_to_time`] accepts in one call;
/// keeps every intermediate sum within `u16`.
pub const MAX_ADDED_SECONDS: u32 = 65000;

/// Convert a two-digit decimal value to its binary-coded-decimal register
/// encoding: tens digit in the high nibble, ones digit in the low nibble.
pub fn dec_to_bcd(val: u8) -> (r: u8)
    requires
        val <= 99,
    ensures
        r == 16 * (val / 10) + val % 10,
{
    proof {
        assert(val <= 99 ==> ((val / 10) << 4) | (val % 10) == 16 * (val / 10) + val % 10)
            by (bit_vector);
    }
    ((val / 10) << 4) | (val % 10)
}

/// Convert a binary-coded-decimal register byte back to its decimal value.
pub fn bcd_to_dec(val: u8) -> (r: u8)
    ensures
        r == 10 * (val / 16) + val % 16,
{
    proof {
        assert(((val >> 4) * 10) + (val & 0x0F) == 10 * (val / 16) + val % 16) by (bit_vector);
    }
    ((val >> 4) * 10) + (val & 0x0F)
}

/// Register address of the seconds register on the clock chip; minutes,
/// hours, days, weekday, months and years follow it in order.
pub const SECONDS_REG: u8 = 0x04;

/// Register address of the minutes register.
pub const MINUTES_REG: u8 = 0x05;

/// Register address of the hours register.
pub const HOURS_REG: u8 = 0x06;

/// Register address of the day-of-month register.
pub const DAYS_REG: u8 = 0x07;

/// Register address of the months register.
pub const MONTHS_REG: u8 = 0x09;

/// Register address of the years register (two digits, offset from 2000).
pub const YEARS_REG: u8 = 0x0A;

/// Register address of the seconds alarm register; the other alarm registers
/// follow it.
pub const SECOND_ALARM_REG: u8 = 0x0B;

/// Register address of the minutes alarm register.
pub const MINUTES_ALARM_REG: u8 = 0x0C;

/// Register address of the hours alarm register.
pub const HOUR_ALARM_REG: u8 = 0x0D;

/// Register address of the day-of-month alarm register.
pub const DAY_ALARM_REG: u8 = 0x0E;

/// The decimal value of a binary-coded-decimal register byte.
pub open spec fn spec_bcd_value(b: u8) -> int {
    10 * (b as int / 16) + b as int % 16
}

/// The binary-coded-decimal register byte of a two-digit decimal value.
pub open spec fn spec_bcd_of(v: u16) -> u8
    recommends
        v <= 99,
{
    (16 * (v / 10) + v % 10) as u8
}

/// Decodes the seven clock registers read in one burst starting at the
/// seconds register into a calendar time. Each field is masked to its valid
/// register bits and converted from binary-coded decimal; the two-digit year
/// counts from 2000. The weekday register (index 4) is ignored.
pub fn decode_time_registers(buf: &[u8]) -> (r: TimeData)
    requires
        buf@.len() == 7,
    ensures
        r.seconds == spec_bcd_value(buf@[0] & 0x7F),
        r.minutes == spec_bcd_value(buf@[1] & 0x7F),
        r.hours == spec_bcd_value(buf@[2] & 0x3F),
        r.days == spec_bcd_value(buf@[3] & 0x3F),
        r.months == spec_bcd_value(buf@[5] & 0x1F),
        r.years == spec_bcd_value(buf@[6]) + 2000,
{
    TimeData {
        seconds: bcd_to_dec(buf[0] & 0x7F) as u16,
        minutes: bcd_to_dec(buf[1] & 0x7F) as u16,
        hours: bcd_to_dec(buf[2] & 0x3F) as u16,
        days: bcd_to_dec(buf[3] & 0x3F) as u16,
        months: bcd_to_dec(buf[5] & 0x1F) as u16,
        years: bcd_to_dec(buf[6]) as u16 + 2000,
    }
}

/// Encodes a calendar time as the six register writes that set the clock, in
/// the order the chip wants them: hours, minutes, seconds, then years,
/// months, days, each as a masked binary-coded-decimal byte. Returns `None`
/// exactly when the year does not fit the chip's two-digit counter from
/// 2000 — that is, outside 2000 to 2099, except that the bare two-digit years
/// 0 to 99 are passed through as already offset.
pub fn encode_time_registers(time: &TimeData) -> (r: Option<Vec<(u8, u8)>>)
    requires
        time.valid(),
    ensures
        ({
            let years = if time.years >= 2000 {
                time.years - 2000
            } else {
                time.years as int
            };
            match r {
                None => years > 99,
                Some(regs) => years <= 99 && regs@ == seq![
                    (HOURS_REG, spec_bcd_of(time.hours) & 0x3F),
                    (MINUTES_REG, spec_bcd_of(time.minutes) & 0x7F),
                    (SECONDS_REG, spec_bcd_of(time.seconds) & 0x7F),
                    (YEARS_REG, spec_bcd_of((years) as u16)),
                    (MONTHS_REG, spec_bcd_of(time.months) & 0x1F),
                    (DAYS_REG, spec_bcd_of(time.days) & 0x3F),
                ],
            }
        }),
{
    let years = if time.years >= 2000 {
        time.years - 2000
    } else {
        time.years
    };
    if years > 99 {
        return None;
    }
    let mut regs: Vec<(u8, u8)> = Vec::new();
    regs.push((HOURS_REG, dec_to_bcd(time.hours as u8) & 0x3F));
    regs.push((MINUTES_REG, dec_to_bcd(time.minutes as u8) & 0x7F));
    regs.push((SECONDS_REG, dec_to_bcd(time.seconds as u8) & 0x7F));
    regs.push((YEARS_REG, dec_to_bcd(years as u8)));
    regs.push((MONTHS_REG, dec_to_bcd(time.months as u8) & 0x1F));
    regs.push((DAYS_REG, dec_to_bcd(time.days as u8) & 0x3F));
    proof {
        assert(regs@ =~= seq![
            (HOURS_REG, spec_bcd_of(time.hours) & 0x3F),
            (MINUTES_REG, spec_bcd_of(time.minutes) & 0x7F),
            (SECONDS_REG, spec_bcd_of(time.seconds) & 0x7F),
            (YEARS_REG, spec_bcd_of((if time.years >= 2000 {
                time.years - 2000
            } else {
                time.years as int
            }) as u16)),
            (MONTHS_REG, spec_bcd_of(time.months) & 0x1F),
            (DAYS_REG, spec_bcd_of(time.days) & 0x3F),
        ]);
    }
    Some(regs)
}

/// Encodes an alarm time as the four register writes that arm the clock's
/// alarm, in the order the chip wants them: day, hour, minutes, second, each
/// as a masked binary-coded-decimal byte.
pub fn encode_alarm_registers(alarm_time: &TimeData) -> (regs: Vec<(u8, u8)>)
    requires
        alarm_time.valid(),
    ensures
        regs@ == seq![
            (DAY_ALARM_REG, spec_bcd_of(alarm_time.days) & 0x7F),
            (HOUR_ALARM_REG, spec_bcd_of(alarm_time.hours) & 0x7F),
            (MINUTES_ALARM_REG, spec_bcd_of(alarm_time.minutes) & 0x7F),
            (SECOND_ALARM_REG, spec_bcd_of(alarm_time.seconds) & 0x7F),
        ],
{
    let mut regs: Vec<(u8, u8)> = Vec::new();
    regs.push((DAY_ALARM_REG, dec_to_bcd(alarm_time.days as u8) & 0x7F));
    regs.push((HOUR_ALARM_REG, dec_to_bcd(alarm_time.hours as u8) & 0x7F));
    regs.push((MINUTES_ALARM_REG, dec_to_bcd(alarm_time.minutes as u8) & 0x7F));
    regs.push((SECOND_ALARM_REG, dec_to_bcd(alarm_time.seconds as u8) & 0x7F));
    proof {
        assert(regs@ =~= seq![
            (DAY_ALARM_REG, spec_bcd_of(alarm_time.days) & 0x7F),
            (HOUR_ALARM_REG, spec_bcd_of(alarm_time.hours) & 0x7F),
            (MINUTES_ALARM_REG, spec_bcd_of(alarm_time.minutes) & 0x7F),
            (SECOND_ALARM_REG, spec_bcd_of(alarm_time.seconds) & 0x7F),
        ]);
    }
    regs
}

/// Add seconds to a time, cascading the carries field by field. Day and month
/// carries use the clock chip's simplified calendar of 31-day months and
/// 12-month years, which is adequate for the short sleep intervals the
/// firmware schedules.
pub fn add_seconds_to_time(time: &TimeData, seconds_to_add: u32) -> (r: TimeData)
    requires
        time.valid(),
        seconds_to_add <= MAX_ADDED_SECONDS,
    ensures
        ({
            let total_s = time.seconds + seconds_to_add;
            let total_min = time.minutes + total_s / 60;
            let total_h = time.hours + total_min / 60;
            let total_d = time.days + total_h / 24;
            let day_carry: int = if total_d > 31 {
                total_d / 31
            } else {
                0
            };
            let total_mon = time.months + day_carry;
            let month_carry: int = if total_mon > 12 {
                total_mon / 12
            } else {
                0
            };
            &&& r.seconds == total_s % 60
            &&& r.minutes == total_min % 60
            &&& r.hours == total_h % 24
            &&& r.days == if total_d > 31 {
                (total_d - 1) % 31 + 1
            } else {
                total_d
            }
            &&& r.months == if total_mon > 12 {
                (total_mon - 1) % 12 + 1
            } else {
                total_mon
            }
            &&& r.years == time.years + month_carry
        }),
{
    let mut result = *time;

    result.seconds = result.seconds + (seconds_to_add as u16);

    if result.seconds >= 60 {
        result.minutes = result.minutes + result.seconds / 60;
        result.seconds = result.seconds % 60;
    }

    if result.minutes >= 60 {
        result.hours = result.hours + result.minutes / 60;
        result.minutes = result.minutes % 60;
    }

    if result.hours >= 24 {
        result.days = result.days + result.hours / 24;
        result.hours = result.hours % 24;
    }

    if result.days > 31 {
        result.months = result.months + result.days / 31;
        result.days = (result.days - 1) % 31 + 1;
    }

    if result.months > 12 {
        result.years = result.years + result.months / 12;
        result.months = (result.months - 1) % 12 + 1;
    }

    result
}

} // verus!
