//! The serial console's pure edge: parsing one received command line into a
//! typed command. The transport — reading bytes, echoing, line editing —
//! lives with the hardware; this module decides what a completed line means.

use vstd::prelude::*;

use crate::rtc::TimeData;

verus! {

/// A command the console understands.
#[derive(Clone, Copy, Debug, PartialEq, Eq, Structural)]
pub enum ConsoleCommand {
    DrawRandom,
    DrawCalendar,
    Sleep(u32),
    Time,
    SetTime(TimeData),
    Battery,
    Reset,
    Version,
    Clear,
    Dfu,
    Help,
}

/// The line whitespace that separates tokens: space, tab, carriage return,
/// line feed.
pub open spec fn spec_is_space(b: u8) -> bool {
    b == 32 || b == 9 || b == 13 || b == 10
}

/// A byte uppercased if it is an ASCII lowercase letter; commands are matched
/// case-insensitively.
pub open spec fn spec_to_upper(b: u8) -> u8 {
    if 97 <= b <= 122 {
        (b - 32) as u8
    } else {
        b
    }
}

/// The whitespace-separated, uppercased tokens of the remaining input, given
/// the token being collected and the tokens already collected.
pub open spec fn spec_tokens_acc(s: Seq<u8>, cur: Seq<u8>, acc: Seq<Seq<u8>>) -> Seq<Seq<u8>>
    decreases s.len(),
{
    if s.len() == 0 {
        if cur.len() == 0 {
            acc
        } else {
            acc.push(cur)
        }
    } else if spec_is_space(s[0]) {
        spec_tokens_acc(
            s.drop_first(),
            Seq::empty(),
            if cur.len() == 0 {
                acc
            } else {
                acc.push(cur)
            },
        )
    } else {
        spec_tokens_acc(s.drop_first(), cur.push(spec_to_upper(s[0])), acc)
    }
}

/// The whitespace-separated, uppercased tokens of a command line.
pub open spec fn spec_tokens(s: Seq<u8>) -> Seq<Seq<u8>> {
    spec_tokens_acc(s, Seq::empty(), Seq::empty())
}

/// The decimal digits of `t` folded onto `acc`, refusing any non-digit and
/// any value beyond `limit`.
pub open spec fn spec_parse_digits(t: Seq<u8>, acc: int, limit: int) -> Option<int>
    decreases t.len(),
{
    if t.len() == 0 {
        Some(acc)
    } else if 48 <= t[0] <= 57 {
        let v = acc * 10 + (t[0] - 48);
        if v > limit {
            None
        } else {
            spec_parse_digits(t.drop_first(), v, limit)
        }
    } else {
        None
    }
}

/// The number a token denotes: one or more decimal digits whose value is at
/// most `limit`; anything else is rejected.
pub open spec fn spec_parse_number(t: Seq<u8>, limit: int) -> Option<int> {
    if t.len() == 0 {
        None
    } else {
        spec_parse_digits(t, 0, limit)
    }
}

/// What a command line means. The first token selects the command,
/// case-insensitively; `SLEEP` takes one number of seconds; `SETTIME` takes
/// year, month, day, hour, minute and second; surplus tokens are ignored; an
/// empty line, an unknown keyword, a missing argument or a malformed number
/// is no command.
pub open spec fn spec_parse_command(s: Seq<u8>) -> Option<ConsoleCommand> {
    let toks = spec_tokens(s);
    if toks.len() == 0 {
        None
    } else {
        let head = toks[0];
        // "DRAWRANDOM"
        if head == seq![68u8, 82u8, 65u8, 87u8, 82u8, 65u8, 78u8, 68u8, 79u8, 77u8] {
            Some(ConsoleCommand::DrawRandom)
        // "DRAWCALENDAR" or its alias "GO"
        } else if head == seq![68u8, 82u8, 65u8, 87u8, 67u8, 65u8, 76u8, 69u8, 78u8, 68u8, 65u8, 82u8] || head == seq![71u8, 79u8] {
            Some(ConsoleCommand::DrawCalendar)
        // "SLEEP"
        } else if head == seq![83u8, 76u8, 69u8, 69u8, 80u8] {
            if toks.len() < 2 {
                None
            } else {
                match spec_parse_number(toks[1], 4294967295) {
                    Some(v) => Some(ConsoleCommand::Sleep(v as u32)),
                    None => None,
                }
            }
        // "TIME"
        } else if head == seq![84u8, 73u8, 77u8, 69u8] {
            Some(ConsoleCommand::Time)
        // "SETTIME"
        } else if head == seq![83u8, 69u8, 84u8, 84u8, 73u8, 77u8, 69u8] {
            if toks.len() < 7 {
                None
            } else {
                let years = spec_parse_number(toks[1], 65535);
                let months = spec_parse_number(toks[2], 65535);
                let days = spec_parse_number(toks[3], 65535);
                let hours = spec_parse_number(toks[4], 65535);
                let minutes = spec_parse_number(toks[5], 65535);
                let seconds = spec_parse_number(toks[6], 65535);
                if years is Some && months is Some && days is Some && hours is Some
                    && minutes is Some && seconds is Some {
                    Some(ConsoleCommand::SetTime(TimeData {
                        years: years.unwrap() as u16,
                        months: months.unwrap() as u16,
                        days: days.unwrap() as u16,
                        hours: hours.unwrap() as u16,
                        minutes: minutes.unwrap() as u16,
                        seconds: seconds.unwrap() as u16,
                    }))
                } else {
                    None
                }
            }
        // "BATTERY" or its alias "VBAT"
        } else if head == seq![66u8, 65u8, 84u8, 84u8, 69u8, 82u8, 89u8] || head == seq![86u8, 66u8, 65u8, 84u8] {
            Some(ConsoleCommand::Battery)
        // "RESET"
        } else if head == seq![82u8, 69u8, 83u8, 69u8, 84u8] {
            Some(ConsoleCommand::Reset)
        // "VERSION" or its alias "VER"
        } else if head == seq![86u8, 69u8, 82u8, 83u8, 73u8, 79u8, 78u8] || head == seq![86u8, 69u8, 82u8] {
            Some(ConsoleCommand::Version)
        // "CLEAR"
        } else if head == seq![67u8, 76u8, 69u8, 65u8, 82u8] {
            Some(ConsoleCommand::Clear)
        // "DFU"
        } else if head == seq![68u8, 70u8, 85u8] {
            Some(ConsoleCommand::Dfu)
        // "HELP" or "?"
        } else if head == seq![72u8, 69u8, 76u8, 80u8] || head == seq![63u8] {
            Some(ConsoleCommand::Help)
        } else {
            None
        }
    }
}

/// Whether two byte strings hold the same bytes.
fn bytes_eq(a: &[u8], b: &[u8]) -> (r: bool)
    ensures
        r == (a@ == b@),
{
    if a.len() != b.len() {
        proof {
            assert(a@ != b@);
        }
        return false;
    }
    let mut i: usize = 0;
    while i < a.len()
        invariant
            i <= a@.len(),
            a@.len() == b@.len(),
            forall|j: int| 0 <= j < i ==> a@[j] == b@[j],
        decreases a@.len() - i,
    {
        if a[i] != b[i] {
            proof {
                assert(a@[i as int] != b@[i as int]);
            }
            return false;
        }
        i = i + 1;
    }
    proof {
        assert(a@ =~= b@);
    }
    true
}

/// Uppercases an ASCII letter.
fn to_upper(b: u8) -> (r: u8)
    ensures
        r == spec_to_upper(b),
{
    if 97 <= b && b <= 122 {
        b - 32
    } else {
        b
    }
}

/// The model of a collected token list.
pub open spec fn tokens_model(ts: Seq<Vec<u8>>) -> Seq<Seq<u8>> {
    ts.map_values(|t: Vec<u8>| t@)
}

/// Splits a command line into uppercased tokens.
fn tokenize(s: &[u8]) -> (toks: Vec<Vec<u8>>)
    ensures
        tokens_model(toks@) == spec_tokens(s@),
{
    let mut toks: Vec<Vec<u8>> = Vec::new();
    let mut cur: Vec<u8> = Vec::new();
    proof {
        assert(s@.skip(0) =~= s@);
        assert(tokens_model(toks@) =~= Seq::<Seq<u8>>::empty());
        assert(cur@ =~= Seq::<u8>::empty());
    }
    let mut i: usize = 0;
    while i < s.len()
        invariant
            i <= s@.len(),
            spec_tokens(s@) == spec_tokens_acc(s@.skip(i as int), cur@, tokens_model(toks@)),
        decreases s@.len() - i,
    {
        proof {
            assert(s@.skip(i as int)[0] == s@[i as int]);
            assert(s@.skip(i as int).drop_first() =~= s@.skip(i as int + 1));
        }
        let b = s[i];
        if b == 32 || b == 9 || b == 13 || b == 10 {
            if cur.len() > 0 {
                let ghost done = tokens_model(toks@);
                let ghost t = cur@;
                toks.push(cur);
                cur = Vec::new();
                proof {
                    assert(tokens_model(toks@) =~= done.push(t));
                }
            }
            proof {
                assert(cur@ =~= Seq::<u8>::empty());
            }
        } else {
            cur.push(to_upper(b));
        }
        i = i + 1;
    }
    proof {
        assert(s@.skip(s@.len() as int) =~= Seq::<u8>::empty());
    }
    if cur.len() > 0 {
        let ghost done = tokens_model(toks@);
        let ghost t = cur@;
        toks.push(cur);
        proof {
            assert(tokens_model(toks@) =~= done.push(t));
        }
    }
    toks
}

/// Parses a token as a number of at most `limit`, exactly as
/// [`spec_parse_number`] with that limit says.
fn parse_number(t: &[u8], limit: u32) -> (r: Option<u32>)
    ensures
        match r {
            Some(v) => spec_parse_number(t@, limit as int) == Some(v as int) && v <= limit,
            None => spec_parse_number(t@, limit as int) is None,
        },
{
    if t.len() == 0 {
        return None;
    }
    let mut acc: u32 = 0;
    proof {
        assert(t@.skip(0) =~= t@);
    }
    let mut i: usize = 0;
    while i < t.len()
        invariant
            i <= t@.len(),
            acc <= limit,
            spec_parse_digits(t@, 0, limit as int) == spec_parse_digits(
                t@.skip(i as int),
                acc as int,
                limit as int,
            ),
        decreases t@.len() - i,
    {
        proof {
            assert(t@.skip(i as int)[0] == t@[i as int]);
            assert(t@.skip(i as int).drop_first() =~= t@.skip(i as int + 1));
        }
        let b = t[i];
        if b < 48 || b > 57 {
            return None;
        }
        let digit = (b - 48) as u64;
        let v = acc as u64 * 10 + digit;
        if v > limit as u64 {
            return None;
        }
        acc = v as u32;
        i = i + 1;
    }
    proof {
        assert(t@.skip(t@.len() as int) =~= Seq::<u8>::empty());
    }
    Some(acc)
}

/// Parses one received command line. Returns the command the line denotes,
/// or `None` when the line is empty or malformed, exactly as
/// [`spec_parse_command`] says.
pub fn parse_command(cmd: &[u8]) -> (r: Option<ConsoleCommand>)
    ensures
        r == spec_parse_command(cmd@),
{
    let toks = tokenize(cmd);
    if toks.len() == 0 {
        return None;
    }
    let head = toks[0].as_slice();
    // "DRAWRANDOM"
    let kw = vec![68u8, 82u8, 65u8, 87u8, 82u8, 65u8, 78u8, 68u8, 79u8, 77u8];
    proof {
        assert(kw@ =~= seq![68u8, 82u8, 65u8, 87u8, 82u8, 65u8, 78u8, 68u8, 79u8, 77u8]);
    }
    let is_drawrandom = bytes_eq(head, kw.as_slice());
    // "DRAWCALENDAR"
    let kw = vec![68u8, 82u8, 65u8, 87u8, 67u8, 65u8, 76u8, 69u8, 78u8, 68u8, 65u8, 82u8];
    proof {
        assert(kw@ =~= seq![68u8, 82u8, 65u8, 87u8, 67u8, 65u8, 76u8, 69u8, 78u8, 68u8, 65u8, 82u8]);
    }
    let is_drawcalendar = bytes_eq(head, kw.as_slice());
    // "GO"
    let kw = vec![71u8, 79u8];
    proof {
        assert(kw@ =~= seq![71u8, 79u8]);
    }
    let is_go = bytes_eq(head, kw.as_slice());
    // "SLEEP"
    let kw = vec![83u8, 76u8, 69u8, 69u8, 80u8];
    proof {
        assert(kw@ =~= seq![83u8, 76u8, 69u8, 69u8, 80u8]);
    }
    let is_sleep = bytes_eq(head, kw.as_slice());
    // "TIME"
    let kw = vec![84u8, 73u8, 77u8, 69u8];
    proof {
        assert(kw@ =~= seq![84u8, 73u8, 77u8, 69u8]);
    }
    let is_time = bytes_eq(head, kw.as_slice());
    // "SETTIME"
    let kw = vec![83u8, 69u8, 84u8, 84u8, 73u8, 77u8, 69u8];
    proof {
        assert(kw@ =~= seq![83u8, 69u8, 84u8, 84u8, 73u8, 77u8, 69u8]);
    }
    let is_settime = bytes_eq(head, kw.as_slice());
    // "BATTERY"
    let kw = vec![66u8, 65u8, 84u8, 84u8, 69u8, 82u8, 89u8];
    proof {
        assert(kw@ =~= seq![66u8, 65u8, 84u8, 84u8, 69u8, 82u8, 89u8]);
    }
    let is_battery = bytes_eq(head, kw.as_slice());
    // "VBAT"
    let kw = vec![86u8, 66u8, 65u8, 84u8];
    proof {
        assert(kw@ =~= seq![86u8, 66u8, 65u8, 84u8]);
    }
    let is_vbat = bytes_eq(head, kw.as_slice());
    // "RESET"
    let kw = vec![82u8, 69u8, 83u8, 69u8, 84u8];
    proof {
        assert(kw@ =~= seq![82u8, 69u8, 83u8, 69u8, 84u8]);
    }
    let is_reset = bytes_eq(head, kw.as_slice());
    // "VERSION"
    let kw = vec![86u8, 69u8, 82u8, 83u8, 73u8, 79u8, 78u8];
    proof {
        assert(kw@ =~= seq![86u8, 69u8, 82u8, 83u8, 73u8, 79u8, 78u8]);
    }
    let is_version = bytes_eq(head, kw.as_slice());
    // "VER"
    let kw = vec![86u8, 69u8, 82u8];
    proof {
        assert(kw@ =~= seq![86u8, 69u8, 82u8]);
    }
    let is_ver = bytes_eq(head, kw.as_slice());
    // "CLEAR"
    let kw = vec![67u8, 76u8, 69u8, 65u8, 82u8];
    proof {
        assert(kw@ =~= seq![67u8, 76u8, 69u8, 65u8, 82u8]);
    }
    let is_clear = bytes_eq(head, kw.as_slice());
    // "DFU"
    let kw = vec![68u8, 70u8, 85u8];
    proof {
        assert(kw@ =~= seq![68u8, 70u8, 85u8]);
    }
    let is_dfu = bytes_eq(head, kw.as_slice());
    // "HELP"
    let kw = vec![72u8, 69u8, 76u8, 80u8];
    proof {
        assert(kw@ =~= seq![72u8, 69u8, 76u8, 80u8]);
    }
    let is_help = bytes_eq(head, kw.as_slice());
    // "?"
    let kw = vec![63u8];
    proof {
        assert(kw@ =~= seq![63u8]);
    }
    let is_qmark = bytes_eq(head, kw.as_slice());
    if is_drawrandom {
        Some(ConsoleCommand::DrawRandom)
    } else if is_drawcalendar || is_go {
        Some(ConsoleCommand::DrawCalendar)
    } else if is_sleep {
        if toks.len() < 2 {
            None
        } else {
            match parse_number(toks[1].as_slice(), 4294967295) {
                Some(v) => Some(ConsoleCommand::Sleep(v)),
                None => None,
            }
        }
    } else if is_time {
        Some(ConsoleCommand::Time)
    } else if is_settime {
        if toks.len() < 7 {
            None
        } else {
            let years = parse_number(toks[1].as_slice(), 65535);
            let months = parse_number(toks[2].as_slice(), 65535);
            let days = parse_number(toks[3].as_slice(), 65535);
            let hours = parse_number(toks[4].as_slice(), 65535);
            let minutes = parse_number(toks[5].as_slice(), 65535);
            let seconds = parse_number(toks[6].as_slice(), 65535);
            match (years, months, days, hours, minutes, seconds) {
                (Some(y), Some(mo), Some(d), Some(h), Some(mi), Some(se)) => Some(
                    ConsoleCommand::SetTime(
                        TimeData {
                            years: y as u16,
                            months: mo as u16,
                            days: d as u16,
                            hours: h as u16,
                            minutes: mi as u16,
                            seconds: se as u16,
                        },
                    ),
                ),
                _ => None,
            }
        }
    } else if is_battery || is_vbat {
        Some(ConsoleCommand::Battery)
    } else if is_reset {
        Some(ConsoleCommand::Reset)
    } else if is_version || is_ver {
        Some(ConsoleCommand::Version)
    } else if is_clear {
        Some(ConsoleCommand::Clear)
    } else if is_dfu {
        Some(ConsoleCommand::Dfu)
    } else if is_help || is_qmark {
        Some(ConsoleCommand::Help)
    } else {
        None
    }
}

} // verus!
