//! Text diagnostics that the MCU logger wraps in log frames.

use crate::bytes;
use crate::bytes::find_byte;
use crate::bytes::find_bytes;
use crate::bytes::same_bytes;
use crate::bytes::strip_prefix;
use crate::bytes::strip_suffix;
use crate::packet::Frame;
use crate::text;
use crate::text::parse_i32;
use crate::text::parse_u32;
use crate::text::parse_u8;
use vstd::prelude::*;
use vstd::string::*;
use vstd::utf8::*;

verus! {

#[derive(Debug, Clone, Copy, PartialEq, Eq, Structural)]
pub enum DockState {
    Connect,
    Supply,
    Charge,
    Discharge,
}

#[derive(Debug, Clone, Copy, PartialEq, Eq)]
pub struct WarningCounters {
    pub wheel: Option<[u32; 5]>,
    pub brush: Option<[u32; 3]>,
}

/// Stock wheel-control diagnostic emitted by the MCU logger.
///
/// The values are controller-domain integers; their physical units are not assumed
/// here. They are useful for correlating the embedded 0x51 report.
#[derive(Debug, Clone, Copy, PartialEq, Eq)]
pub struct WheelPidDiagnostic {
    pub left: i32,
    pub right: i32,
    pub count: i32,
}

/// Compact sensor summary emitted by the MCU logger.
#[derive(Debug, Clone, Copy, PartialEq, Eq)]
pub struct SensorSummary {
    pub force: u32,
    pub drop: u32,
    pub bumper: u32,
    pub dock: u32,
    pub cliff: u32,
}

#[derive(Debug, Clone, Copy, PartialEq, Eq)]
pub enum BmsDiagnostic {
    BatteryStatus { soc_percent: i32, voltage_mv: i32, current_ma: i32 },
    AdapterVoltageMv(u32),
    BatteryTemperatureC(i32),
    ModeTransition { from: u8, to: u8 },
}

/// `s` without a carriage return and line feed at its end.
pub open spec fn without_crlf(s: Seq<u8>) -> Seq<u8> {
    match bytes::before_suffix(s, "\r\n".spec_bytes()) {
        Some(body) => body,
        None => s,
    }
}

/// `s` without a line ending at its end: both characters, or the line feed alone.
pub open spec fn without_line_end(s: Seq<u8>) -> Seq<u8> {
    match bytes::before_suffix(s, "\r\n".spec_bytes()) {
        Some(body) => body,
        None => match bytes::before_suffix(s, "\n".spec_bytes()) {
            Some(body) => body,
            None => s,
        },
    }
}

/// What stands in `s` before and behind the first `separator`.
pub open spec fn cut(s: Seq<u8>, separator: Seq<u8>) -> Option<(Seq<u8>, Seq<u8>)> {
    match bytes::first_occurrence(s, separator) {
        Some(at) => Some((s.take(at), s.skip(at + separator.len()))),
        None => None,
    }
}

/// What `s` reads as, where it is a decimal number that fits in 32 bits.
pub open spec fn unsigned_number(s: Seq<u8>) -> Option<int> {
    text::bounded_number(s, 0, u32::MAX as int)
}

/// The same for a signed number.
pub open spec fn signed_number(s: Seq<u8>) -> Option<int> {
    text::bounded_number(s, i32::MIN as int, i32::MAX as int)
}

/// The parts of `s` between its commas.
pub open spec fn comma_fields(s: Seq<u8>) -> Seq<Seq<u8>>
    decreases s.len(),
{
    match bytes::first_byte(s, 44) {
        Some(at) => if 0 <= at < s.len() {
            seq![s.take(at)] + comma_fields(s.skip(at + 1))
        } else {
            seq![s]
        },
        None => seq![s],
    }
}

/// The `count` numbers behind `prefix` in `s`, separated by commas.
pub open spec fn counters(s: Seq<u8>, prefix: Seq<u8>, count: nat) -> Option<Seq<u32>> {
    match bytes::after_prefix(s, prefix) {
        Some(rest) => {
            let fields = comma_fields(rest);
            if fields.len() == count && (forall|i: int|
                0 <= i < count ==> unsigned_number(#[trigger] fields[i]) is Some) {
                Some(Seq::new(count, |i: int| unsigned_number(fields[i])->0 as u32))
            } else {
                None
            }
        },
        None => None,
    }
}

/// The number before `separator`, and what stands behind it.
pub open spec fn signed_before(s: Seq<u8>, separator: Seq<u8>) -> Option<(int, Seq<u8>)> {
    match cut(s, separator) {
        Some((head, rest)) => match signed_number(head) {
            Some(n) => Some((n, rest)),
            None => None,
        },
        None => None,
    }
}

/// The same for an unsigned number.
pub open spec fn unsigned_before(s: Seq<u8>, separator: Seq<u8>) -> Option<(int, Seq<u8>)> {
    match cut(s, separator) {
        Some((head, rest)) => match unsigned_number(head) {
            Some(n) => Some((n, rest)),
            None => None,
        },
        None => None,
    }
}

/// `s` is `[PID_wheeloc,L,` and the left value, `,R,` and the right value, `,cnt,`
/// and the count, and a comma.
pub open spec fn wheel_pid_of(s: Seq<u8>) -> Option<(int, int, int)> {
    match bytes::after_prefix(s, "[PID_wheeloc,L,".spec_bytes()) {
        Some(s1) => match signed_before(s1, ",R,".spec_bytes()) {
            Some((left, s2)) => match signed_before(s2, ",cnt,".spec_bytes()) {
                Some((right, s3)) => match bytes::before_suffix(s3, ",".spec_bytes()) {
                    Some(s4) => match signed_number(s4) {
                        Some(count) => Some((left, right, count)),
                        None => None,
                    },
                    None => None,
                },
                None => None,
            },
            None => None,
        },
        None => None,
    }
}

/// `s` is `Force:`, ` Drop:`, ` Bmpr:`, ` Dock:` and ` Clf:`, each followed by its
/// number.
pub open spec fn sensor_summary_of(s: Seq<u8>) -> Option<(int, int, int, int, int)> {
    match bytes::after_prefix(s, "Force:".spec_bytes()) {
        Some(s1) => match unsigned_before(s1, " Drop:".spec_bytes()) {
            Some((force, s2)) => match unsigned_before(s2, " Bmpr:".spec_bytes()) {
                Some((drop, s3)) => match unsigned_before(s3, " Dock:".spec_bytes()) {
                    Some((bumper, s4)) => match unsigned_before(s4, " Clf:".spec_bytes()) {
                        Some((dock, s5)) => match unsigned_number(s5) {
                            Some(cliff) => Some((force, drop, bumper, dock, cliff)),
                            None => None,
                        },
                        None => None,
                    },
                    None => None,
                },
                None => None,
            },
            None => None,
        },
        None => None,
    }
}

/// What stands between `prefix` and `suffix`, which enclose `s`.
pub open spec fn enclosed(s: Seq<u8>, prefix: Seq<u8>, suffix: Seq<u8>) -> Option<Seq<u8>> {
    match bytes::after_prefix(s, prefix) {
        Some(rest) => bytes::before_suffix(rest, suffix),
        None => None,
    }
}

/// `s` is `bms:rept soc=`, `,V=` and `,I=`, each followed by its number.
pub open spec fn battery_status_of(s: Seq<u8>) -> Option<(int, int, int)> {
    match bytes::after_prefix(s, "bms:rept soc=".spec_bytes()) {
        Some(s1) => match cut(s1, ",V=".spec_bytes()) {
            Some((soc, s2)) => match cut(s2, ",I=".spec_bytes()) {
                Some((voltage, current)) => match (
                    signed_number(soc),
                    signed_number(voltage),
                    signed_number(current),
                ) {
                    (Some(a), Some(b), Some(c)) => Some((a, b, c)),
                    _ => None,
                },
                None => None,
            },
            None => None,
        },
        None => None,
    }
}

/// The adapter voltage that `s` reports.
pub open spec fn adapter_voltage_of(s: Seq<u8>) -> Option<int> {
    match enclosed(s, "bms:rept RPT Vadpt(on) = ".spec_bytes(), "mV!".spec_bytes()) {
        Some(value) => unsigned_number(value),
        None => None,
    }
}

/// The battery temperature that `s` reports.
pub open spec fn battery_temperature_of(s: Seq<u8>) -> Option<int> {
    match enclosed(s, "bms:chkt, bat temp: ".spec_bytes(), "c".spec_bytes()) {
        Some(value) => signed_number(value),
        None => None,
    }
}

/// The two modes of the change that `s` reports.
pub open spec fn mode_change_of(s: Seq<u8>) -> Option<(int, int)> {
    match enclosed(s, "bms:stam mode[".spec_bytes(), "]".spec_bytes()) {
        Some(mode) => match cut(mode, "->".spec_bytes()) {
            Some((from, to)) => match (
                text::bounded_number(from, 0, 255),
                text::bounded_number(to, 0, 255),
            ) {
                (Some(a), Some(b)) => Some((a, b)),
                _ => None,
            },
            None => None,
        },
        None => None,
    }
}

/// The BMS diagnostic that a line of text reports: the first form that fits.
pub open spec fn bms_diagnostic_of(s: Seq<u8>) -> Option<BmsDiagnostic> {
    match battery_status_of(s) {
        Some((soc, voltage, current)) => Some(
            BmsDiagnostic::BatteryStatus {
                soc_percent: soc as i32,
                voltage_mv: voltage as i32,
                current_ma: current as i32,
            },
        ),
        None => match adapter_voltage_of(s) {
            Some(v) => Some(BmsDiagnostic::AdapterVoltageMv(v as u32)),
            None => match battery_temperature_of(s) {
                Some(v) => Some(BmsDiagnostic::BatteryTemperatureC(v as i32)),
                None => match mode_change_of(s) {
                    Some((from, to)) => Some(
                        BmsDiagnostic::ModeTransition { from: from as u8, to: to as u8 },
                    ),
                    None => None,
                },
            },
        },
    }
}

/// The dock state that a log text reports.
pub open spec fn dock_state_of(s: Seq<u8>) -> Option<DockState> {
    let line = without_crlf(s);
    if line == "DockSta:1,CONNECT".spec_bytes() {
        Some(DockState::Connect)
    } else if line == "DockSta:2,SUPPLY".spec_bytes() {
        Some(DockState::Supply)
    } else if line == "DockSta:3,CHARGE".spec_bytes() {
        Some(DockState::Charge)
    } else if line == "DockSta:4,DISCHARGE".spec_bytes() {
        Some(DockState::Discharge)
    } else {
        None
    }
}

impl DockState {
    /// The name of the state.
    pub open spec fn name(self) -> Seq<char> {
        match self {
            DockState::Connect => "connect"@,
            DockState::Supply => "supply"@,
            DockState::Charge => "charge"@,
            DockState::Discharge => "discharge"@,
        }
    }

    pub fn as_str(self) -> (name: &'static str)
        ensures
            name@ == self.name(),
    {
        match self {
            DockState::Connect => "connect",
            DockState::Supply => "supply",
            DockState::Charge => "charge",
            DockState::Discharge => "discharge",
        }
    }

    /// Reads a dock-state line of the MCU log.
    pub fn from_log_text(text: &[u8]) -> (state: Option<Self>)
        ensures
            state == dock_state_of(text@),
    {
        let line = strip_crlf(text);
        if same_bytes(line, "DockSta:1,CONNECT".as_bytes()) {
            Some(DockState::Connect)
        } else if same_bytes(line, "DockSta:2,SUPPLY".as_bytes()) {
            Some(DockState::Supply)
        } else if same_bytes(line, "DockSta:3,CHARGE".as_bytes()) {
            Some(DockState::Charge)
        } else if same_bytes(line, "DockSta:4,DISCHARGE".as_bytes()) {
            Some(DockState::Discharge)
        } else {
            None
        }
    }
}

fn strip_crlf<'a>(text: &'a [u8]) -> (line: &'a [u8])
    ensures
        line@ == without_crlf(text@),
{
    match strip_suffix(text, "\r\n".as_bytes()) {
        Some(line) => line,
        None => text,
    }
}

fn strip_line_end<'a>(text: &'a [u8]) -> (line: &'a [u8])
    ensures
        line@ == without_line_end(text@),
{
    match strip_suffix(text, "\r\n".as_bytes()) {
        Some(line) => line,
        None => match strip_suffix(text, "\n".as_bytes()) {
            Some(line) => line,
            None => text,
        },
    }
}

/// Cuts `text` at the first `separator`.
fn cut_at<'a>(text: &'a [u8], separator: &[u8]) -> (parts: Option<(&'a [u8], &'a [u8])>)
    ensures
        match cut(text@, separator@) {
            Some((head, rest)) => parts matches Some((h, r)) && h@ == head && r@ == rest,
            None => parts is None,
        },
{
    let at = find_bytes(text, separator)?;
    assert(at + separator.len() <= text.len());
    let head: &'a [u8] = &text[0..at];
    let rest: &'a [u8] = &text[at + separator.len()..text.len()];
    assert(head@ =~= text@.take(at as int));
    assert(rest@ =~= text@.skip(at + separator@.len()));
    Some((head, rest))
}

/// Reads the signed number before `separator`.
pub fn split_signed<'a>(text: &'a [u8], separator: &[u8]) -> (parts: Option<(i32, &'a [u8])>)
    ensures
        match signed_before(text@, separator@) {
            Some((n, rest)) => parts matches Some((x, r)) && x == n && r@ == rest,
            None => parts is None,
        },
{
    let (head, rest) = cut_at(text, separator)?;
    let value = parse_i32(head)?;
    Some((value, rest))
}

/// Reads the unsigned number before `separator`.
pub fn split_unsigned<'a>(text: &'a [u8], separator: &[u8]) -> (parts: Option<(u32, &'a [u8])>)
    ensures
        match unsigned_before(text@, separator@) {
            Some((n, rest)) => parts matches Some((x, r)) && x == n && r@ == rest,
            None => parts is None,
        },
{
    let (head, rest) = cut_at(text, separator)?;
    let value = parse_u32(head)?;
    Some((value, rest))
}

/// The part of `text` that `prefix` and `suffix` enclose.
fn strip_both<'a>(text: &'a [u8], prefix: &[u8], suffix: &[u8]) -> (inner: Option<&'a [u8]>)
    ensures
        match enclosed(text@, prefix@, suffix@) {
            Some(i) => inner matches Some(x) && x@ == i,
            None => inner is None,
        },
{
    let rest = strip_prefix(text, prefix)?;
    strip_suffix(rest, suffix)
}

proof fn comma_fields_exist(s: Seq<u8>)
    ensures
        comma_fields(s).len() > 0,
{
    match bytes::first_byte(s, 44) {
        Some(at) => {},
        None => {},
    }
}

/// Reads `count` numbers behind `prefix`, separated by commas.
pub fn parse_csv(text: &[u8], prefix: &[u8], count: usize) -> (values: Option<Vec<u32>>)
    ensures
        match counters(text@, prefix@, count as nat) {
            Some(v) => values matches Some(x) && x@ == v && x@.len() == count,
            None => values is None,
        },
{
    let start = strip_prefix(text, prefix)?;
    let mut rest: &[u8] = start;
    let mut values: Vec<u32> = Vec::new();
    let ghost fields = comma_fields(start@);
    assert(fields.skip(0) =~= fields);
    loop
        invariant
            fields == comma_fields(start@),
            bytes::after_prefix(text@, prefix@) == Some(start@),
            values@.len() < fields.len(),
            comma_fields(rest@) == fields.skip(values@.len() as int),
            forall|i: int|
                0 <= i < values@.len() ==> unsigned_number(#[trigger] fields[i]) == Some(
                    values@[i] as int,
                ),
        decreases rest@.len(),
    {
        let ghost done = values@.len() as int;
        proof {
            bytes::first_byte_meaning(rest@, 44);
        }
        let ghost here = rest@;
        match find_byte(rest, 44) {
            Some(at) => {
                let field: &[u8] = &rest[0..at];
                assert(at < rest.len());
                let after: &[u8] = &rest[at + 1..rest.len()];
                assert(field@ =~= here.take(at as int));
                assert(after@ =~= here.skip(at + 1));
                assert(fields[done] == fields.skip(done)[0]);
                assert(fields.skip(done).skip(1) =~= fields.skip(done + 1));
                assert(comma_fields(here).skip(1) =~= comma_fields(after@));
                let value = match parse_u32(field) {
                    Some(value) => value,
                    None => {
                        assert(unsigned_number(fields[done]) is None);
                        return None;
                    },
                };
                values.push(value);
                rest = after;
                proof {
                    comma_fields_exist(rest@);
                }
            },
            None => {
                assert(fields[done] == fields.skip(done)[0]);
                assert(fields.skip(done).len() == 1);
                let value = match parse_u32(rest) {
                    Some(value) => value,
                    None => {
                        assert(unsigned_number(fields[done]) is None);
                        return None;
                    },
                };
                values.push(value);
                if values.len() != count {
                    return None;
                }
                assert(values@ =~= counters(text@, prefix@, count as nat)->0);
                return Some(values);
            },
        }
    }
}

/// Reads state of charge, voltage and current of a battery line.
pub fn parse_battery_status(text: &[u8]) -> (status: Option<(i32, i32, i32)>)
    ensures
        match battery_status_of(text@) {
            Some((a, b, c)) => status matches Some((x, y, z)) && x == a && y == b && z == c,
            None => status is None,
        },
{
    let text = strip_prefix(text, "bms:rept soc=".as_bytes())?;
    let (soc, text) = cut_at(text, ",V=".as_bytes())?;
    let (voltage, current) = cut_at(text, ",I=".as_bytes())?;
    let soc = parse_i32(soc)?;
    let voltage = parse_i32(voltage)?;
    let current = parse_i32(current)?;
    Some((soc, voltage, current))
}

/// The warning counters that a line of text reports.
pub open spec fn warning_counters_of(s: Seq<u8>, report: Option<WarningCounters>) -> bool {
    match counters(s, "WheelWarnSum:".spec_bytes(), 5) {
        Some(v) => report matches Some(r) && r.wheel matches Some(w) && w@ == v && r.brush is None,
        None => match counters(s, "BrushWarnSum:".spec_bytes(), 3) {
            Some(v) => report matches Some(r) && r.brush matches Some(b) && b@ == v && r.wheel
                is None,
            None => report is None,
        },
    }
}

impl Frame {
    pub fn dock_state(&self) -> (state: Option<DockState>)
        ensures
            state == (match self@.log_text() {
                Some(t) => dock_state_of(t),
                None => None,
            }),
    {
        let text = self.log_text()?;
        DockState::from_log_text(text)
    }

    pub fn warning_counters(&self) -> (report: Option<WarningCounters>)
        ensures
            match self@.log_text() {
                Some(t) => warning_counters_of(without_line_end(t), report),
                None => report is None,
            },
    {
        let text = self.log_text()?;
        let line = strip_line_end(text);
        match parse_csv(line, "WheelWarnSum:".as_bytes(), 5) {
            Some(v) => {
                let wheel: [u32; 5] = [v[0], v[1], v[2], v[3], v[4]];
                assert(wheel@ =~= v@);
                return Some(WarningCounters { wheel: Some(wheel), brush: None });
            },
            None => {},
        }
        match parse_csv(line, "BrushWarnSum:".as_bytes(), 3) {
            Some(v) => {
                let brush: [u32; 3] = [v[0], v[1], v[2]];
                assert(brush@ =~= v@);
                return Some(WarningCounters { wheel: None, brush: Some(brush) });
            },
            None => {},
        }
        None
    }

    pub fn wheel_pid_diagnostic(&self) -> (report: Option<WheelPidDiagnostic>)
        ensures
            match self@.log_text() {
                Some(t) => match wheel_pid_of(without_crlf(t)) {
                    Some((left, right, count)) => report matches Some(r) && r.left == left
                        && r.right == right && r.count == count,
                    None => report is None,
                },
                None => report is None,
            },
    {
        let text = self.log_text()?;
        let line = strip_crlf(text);
        let text = strip_prefix(line, "[PID_wheeloc,L,".as_bytes())?;
        let (left, text) = split_signed(text, ",R,".as_bytes())?;
        let (right, text) = split_signed(text, ",cnt,".as_bytes())?;
        let count = strip_suffix(text, ",".as_bytes())?;
        let count = parse_i32(count)?;
        Some(WheelPidDiagnostic { left, right, count })
    }

    pub fn sensor_summary(&self) -> (report: Option<SensorSummary>)
        ensures
            match self@.log_text() {
                Some(t) => match sensor_summary_of(without_crlf(t)) {
                    Some((force, drop, bumper, dock, cliff)) => report matches Some(r) && r.force
                        == force && r.drop == drop && r.bumper == bumper && r.dock == dock
                        && r.cliff == cliff,
                    None => report is None,
                },
                None => report is None,
            },
    {
        let text = self.log_text()?;
        let line = strip_crlf(text);
        let text = strip_prefix(line, "Force:".as_bytes())?;
        let (force, text) = split_unsigned(text, " Drop:".as_bytes())?;
        let (drop, text) = split_unsigned(text, " Bmpr:".as_bytes())?;
        let (bumper, text) = split_unsigned(text, " Dock:".as_bytes())?;
        let (dock, text) = split_unsigned(text, " Clf:".as_bytes())?;
        let cliff = parse_u32(text)?;
        Some(SensorSummary { force, drop, bumper, dock, cliff })
    }

    pub fn bms_diagnostic(&self) -> (report: Option<BmsDiagnostic>)
        ensures
            report == (match self@.log_text() {
                Some(t) => bms_diagnostic_of(without_line_end(t)),
                None => None,
            }),
    {
        let text = self.log_text()?;
        let line = strip_line_end(text);
        match parse_battery_status(line) {
            Some((soc_percent, voltage_mv, current_ma)) => {
                return Some(BmsDiagnostic::BatteryStatus { soc_percent, voltage_mv, current_ma });
            },
            None => {},
        }
        match strip_both(line, "bms:rept RPT Vadpt(on) = ".as_bytes(), "mV!".as_bytes()) {
            Some(value) => match parse_u32(value) {
                Some(value) => {
                    return Some(BmsDiagnostic::AdapterVoltageMv(value));
                },
                None => {},
            },
            None => {},
        }
        match strip_both(line, "bms:chkt, bat temp: ".as_bytes(), "c".as_bytes()) {
            Some(value) => match parse_i32(value) {
                Some(value) => {
                    return Some(BmsDiagnostic::BatteryTemperatureC(value));
                },
                None => {},
            },
            None => {},
        }
        let mode = strip_both(line, "bms:stam mode[".as_bytes(), "]".as_bytes())?;
        let (from, to) = cut_at(mode, "->".as_bytes())?;
        let from = parse_u8(from)?;
        let to = parse_u8(to)?;
        Some(BmsDiagnostic::ModeTransition { from, to })
    }
}

/// The text of a number has only digits, and a minus sign where it is negative.
proof fn number_text(n: int)
    ensures
        forall|i: int|
            0 <= i < text::ascii(text::signed_decimal(n)).len() ==> {
                let b = #[trigger] text::ascii(text::signed_decimal(n))[i];
                text::is_digit(b) || (n < 0 && b == 45)
            },
        i32::MIN <= n <= i32::MAX ==> signed_number(text::ascii(text::signed_decimal(n))) == Some(n),
        0 <= n <= u32::MAX ==> unsigned_number(text::ascii(text::signed_decimal(n))) == Some(n),
        0 <= n <= 255 ==> text::bounded_number(text::ascii(text::signed_decimal(n)), 0, 255) == Some(
            n,
        ),
{
    let written = text::ascii(text::signed_decimal(n));
    text::signed_decimal_round_trip(n);
    if n < 0 {
        text::decimal_round_trip((-n) as nat);
        let digits = text::ascii(text::decimal((-n) as nat));
        assert(written.skip(1) =~= digits);
        assert forall|i: int| 0 <= i < written.len() implies {
            let b = #[trigger] written[i];
            text::is_digit(b) || (n < 0 && b == 45)
        } by {
            if i > 0 {
                assert(text::is_digit(digits[i - 1]));
            }
        }
    } else {
        text::decimal_round_trip(n as nat);
    }
}

/// The first byte of a text that starts with an ASCII character is that character.
proof fn starts_with_its_char(s: &str)
    requires
        s@.len() > 0,
        '\0' <= s@[0] <= '\u{7f}',
    ensures
        s.spec_bytes().len() > 0,
        s.spec_bytes()[0] == s@[0] as u8,
{
    let first = seq![s@[0]];
    is_ascii_chars_encode_utf8(first);
    assert(first.drop_first() =~= Seq::<char>::empty());
    assert(encode_utf8(first.drop_first()) =~= Seq::<u8>::empty());
    assert(encode_utf8(first) =~= encode_scalar(s@[0] as u32));
}

/// What stands before a separator, without its first byte, and what stands behind it, are
/// what cutting gives back.
proof fn cuts_where_joined(head: Seq<u8>, separator: Seq<u8>, rest: Seq<u8>)
    requires
        separator.len() > 0,
        forall|i: int| 0 <= i < head.len() ==> #[trigger] head[i] != separator[0],
    ensures
        cut(head + separator + rest, separator) == Some((head, rest)),
{
    let s = head + separator + rest;
    let at = head.len() as int;
    assert(s.subrange(at, at + separator.len()) =~= separator);
    assert forall|j: int| 0 <= j < at implies !#[trigger] bytes::stands(s, separator, j) by {
        if bytes::stands(s, separator, j) {
            assert(s.subrange(j, j + separator.len())[0] == separator[0]);
            assert(s[j] == head[j]);
        }
    }
    bytes::first_occurrence_at(s, separator, at);
    assert(s.take(at) =~= head);
    assert(s.skip(at + separator.len()) =~= rest);
}

proof fn prefix_comes_off(prefix: Seq<u8>, rest: Seq<u8>)
    ensures
        bytes::after_prefix(prefix + rest, prefix) == Some(rest),
{
    assert((prefix + rest).skip(prefix.len() as int) =~= rest);
    assert(prefix.is_prefix_of(prefix + rest)) by {
        assert((prefix + rest).subrange(0, prefix.len() as int) =~= prefix);
    }
}

proof fn suffix_comes_off(body: Seq<u8>, suffix: Seq<u8>)
    ensures
        bytes::before_suffix(body + suffix, suffix) == Some(body),
{
    assert((body + suffix).take(body.len() as int) =~= body);
    assert(suffix.is_suffix_of(body + suffix)) by {
        assert((body + suffix).subrange(body.len() as int, (body + suffix).len() as int)
            =~= suffix);
    }
}

/// A number as it stands in a line.
pub open spec fn written(n: int) -> Seq<u8> {
    text::ascii(text::signed_decimal(n))
}

/// A wheel-control line gives back the three numbers that it was written with, each in its
/// place: left behind `L`, right behind `R`, the count behind `cnt`.
pub proof fn wheel_pid_line_reads_back(left: i32, right: i32, count: i32)
    ensures
        wheel_pid_of(
            "[PID_wheeloc,L,".spec_bytes() + (written(left as int) + ",R,".spec_bytes() + (written(
                right as int,
            ) + ",cnt,".spec_bytes() + (written(count as int) + ",".spec_bytes()))),
        ) == Some((left as int, right as int, count as int)),
{
    reveal_strlit(",R,");
    reveal_strlit(",cnt,");
    assert(",R,"@.len() == 3 && ",R,"@[0] == ',');
    assert(",cnt,"@.len() == 5 && ",cnt,"@[0] == ',');
    starts_with_its_char(",R,");
    starts_with_its_char(",cnt,");
    number_text(left as int);
    number_text(right as int);
    number_text(count as int);
    let s4 = written(count as int);
    let s3 = s4 + ",".spec_bytes();
    let s2 = written(right as int) + ",cnt,".spec_bytes() + s3;
    let s1 = written(left as int) + ",R,".spec_bytes() + s2;
    suffix_comes_off(s4, ",".spec_bytes());
    cuts_where_joined(written(right as int), ",cnt,".spec_bytes(), s3);
    cuts_where_joined(written(left as int), ",R,".spec_bytes(), s2);
    prefix_comes_off("[PID_wheeloc,L,".spec_bytes(), s1);
}

/// A sensor line gives back the five numbers that it was written with, each in its place.
pub proof fn sensor_line_reads_back(force: u32, drop: u32, bumper: u32, dock: u32, cliff: u32)
    ensures
        sensor_summary_of(
            "Force:".spec_bytes() + (written(force as int) + " Drop:".spec_bytes() + (written(
                drop as int,
            ) + " Bmpr:".spec_bytes() + (written(bumper as int) + " Dock:".spec_bytes() + (written(
                dock as int,
            ) + " Clf:".spec_bytes() + written(cliff as int))))),
        ) == Some((force as int, drop as int, bumper as int, dock as int, cliff as int)),
{
    reveal_strlit(" Drop:");
    reveal_strlit(" Bmpr:");
    reveal_strlit(" Dock:");
    reveal_strlit(" Clf:");
    assert(" Drop:"@.len() == 6 && " Drop:"@[0] == ' ');
    assert(" Bmpr:"@.len() == 6 && " Bmpr:"@[0] == ' ');
    assert(" Dock:"@.len() == 6 && " Dock:"@[0] == ' ');
    assert(" Clf:"@.len() == 5 && " Clf:"@[0] == ' ');
    starts_with_its_char(" Drop:");
    starts_with_its_char(" Bmpr:");
    starts_with_its_char(" Dock:");
    starts_with_its_char(" Clf:");
    number_text(force as int);
    number_text(drop as int);
    number_text(bumper as int);
    number_text(dock as int);
    number_text(cliff as int);
    let s5 = written(cliff as int);
    let s4 = written(dock as int) + " Clf:".spec_bytes() + s5;
    let s3 = written(bumper as int) + " Dock:".spec_bytes() + s4;
    let s2 = written(drop as int) + " Bmpr:".spec_bytes() + s3;
    let s1 = written(force as int) + " Drop:".spec_bytes() + s2;
    cuts_where_joined(written(dock as int), " Clf:".spec_bytes(), s5);
    cuts_where_joined(written(bumper as int), " Dock:".spec_bytes(), s4);
    cuts_where_joined(written(drop as int), " Bmpr:".spec_bytes(), s3);
    cuts_where_joined(written(force as int), " Drop:".spec_bytes(), s2);
    prefix_comes_off("Force:".spec_bytes(), s1);
}

/// A battery line gives back charge, voltage and current, each in its place.
pub proof fn battery_line_reads_back(soc: i32, voltage: i32, current: i32)
    ensures
        bms_diagnostic_of(
            "bms:rept soc=".spec_bytes() + (written(soc as int) + ",V=".spec_bytes() + (written(
                voltage as int,
            ) + ",I=".spec_bytes() + written(current as int))),
        ) == Some(
            BmsDiagnostic::BatteryStatus {
                soc_percent: soc,
                voltage_mv: voltage,
                current_ma: current,
            },
        ),
{
    reveal_strlit(",V=");
    reveal_strlit(",I=");
    assert(",V="@.len() == 3 && ",V="@[0] == ',');
    assert(",I="@.len() == 3 && ",I="@[0] == ',');
    starts_with_its_char(",V=");
    starts_with_its_char(",I=");
    number_text(soc as int);
    number_text(voltage as int);
    number_text(current as int);
    let s2 = written(voltage as int) + ",I=".spec_bytes() + written(current as int);
    let s1 = written(soc as int) + ",V=".spec_bytes() + s2;
    cuts_where_joined(written(voltage as int), ",I=".spec_bytes(), written(current as int));
    cuts_where_joined(written(soc as int), ",V=".spec_bytes(), s2);
    prefix_comes_off("bms:rept soc=".spec_bytes(), s1);
}

/// The lines about adapter voltage, battery temperature and mode give back the numbers
/// that they were written with; of a change of mode, the earlier mode first.
pub proof fn other_bms_lines_read_back(voltage: u32, temperature: i32, from: u8, to: u8)
    ensures
        adapter_voltage_of(
            "bms:rept RPT Vadpt(on) = ".spec_bytes() + (written(voltage as int)
                + "mV!".spec_bytes()),
        ) == Some(voltage as int),
        battery_temperature_of(
            "bms:chkt, bat temp: ".spec_bytes() + (written(temperature as int) + "c".spec_bytes()),
        ) == Some(temperature as int),
        mode_change_of(
            "bms:stam mode[".spec_bytes() + ((written(from as int) + "->".spec_bytes() + written(
                to as int,
            )) + "]".spec_bytes()),
        ) == Some((from as int, to as int)),
{
    reveal_strlit("->");
    assert("->"@.len() == 2 && "->"@[0] == '-');
    starts_with_its_char("->");
    number_text(voltage as int);
    number_text(temperature as int);
    number_text(from as int);
    number_text(to as int);
    prefix_comes_off(
        "bms:rept RPT Vadpt(on) = ".spec_bytes(),
        written(voltage as int) + "mV!".spec_bytes(),
    );
    suffix_comes_off(written(voltage as int), "mV!".spec_bytes());
    prefix_comes_off(
        "bms:chkt, bat temp: ".spec_bytes(),
        written(temperature as int) + "c".spec_bytes(),
    );
    suffix_comes_off(written(temperature as int), "c".spec_bytes());
    let mode = written(from as int) + "->".spec_bytes() + written(to as int);
    prefix_comes_off("bms:stam mode[".spec_bytes(), mode + "]".spec_bytes());
    suffix_comes_off(mode, "]".spec_bytes());
    cuts_where_joined(written(from as int), "->".spec_bytes(), written(to as int));
}

/// Each form of BMS line is reported as what it is; battery lines go before adapter lines,
/// these before temperatures, and these before modes.
pub proof fn bms_lines_keep_their_kind(s: Seq<u8>)
    ensures
        battery_status_of(s) matches Some((a, b, c)) ==> (bms_diagnostic_of(s) matches Some(d)
            && d == (BmsDiagnostic::BatteryStatus {
            soc_percent: a as i32,
            voltage_mv: b as i32,
            current_ma: c as i32,
        })),
        battery_status_of(s) is None ==> (adapter_voltage_of(s) matches Some(v)
            ==> bms_diagnostic_of(s) == Some(BmsDiagnostic::AdapterVoltageMv(v as u32))),
        battery_status_of(s) is None && adapter_voltage_of(s) is None ==> (battery_temperature_of(
            s,
        ) matches Some(v) ==> bms_diagnostic_of(s) == Some(
            BmsDiagnostic::BatteryTemperatureC(v as i32),
        )),
        battery_status_of(s) is None && adapter_voltage_of(s) is None && battery_temperature_of(s)
            is None ==> (mode_change_of(s) matches Some((a, b)) ==> bms_diagnostic_of(s) == Some(
            BmsDiagnostic::ModeTransition { from: a as u8, to: b as u8 },
        )),
        bms_diagnostic_of(s) is None <==> battery_status_of(s) is None && adapter_voltage_of(s)
            is None && battery_temperature_of(s) is None && mode_change_of(s) is None,
{
}

/// Numbers with commas between them.
pub open spec fn listed(values: Seq<u32>) -> Seq<u8>
    decreases values.len(),
{
    if values.len() == 0 {
        Seq::empty()
    } else if values.len() == 1 {
        written(values[0] as int)
    } else {
        written(values[0] as int) + seq![44u8] + listed(values.skip(1))
    }
}

proof fn fields_of_list(values: Seq<u32>)
    requires
        values.len() > 0,
    ensures
        comma_fields(listed(values)) == Seq::new(
            values.len(),
            |i: int| written(values[i] as int),
        ),
    decreases values.len(),
{
    let first = written(values[0] as int);
    number_text(values[0] as int);
    bytes::first_byte_meaning(first, 44);
    let fields = Seq::new(values.len(), |i: int| written(values[i] as int));
    if values.len() == 1 {
        assert(comma_fields(first) =~= fields);
    } else {
        let rest = values.skip(1);
        let s = first + seq![44u8] + listed(rest);
        fields_of_list(rest);
        assert forall|j: int| 0 <= j < first.len() implies s[j] != 44 by {
            assert(s[j] == first[j]);
        }
        bytes::first_byte_at(s, 44, first.len() as int);
        assert(s.take(first.len() as int) =~= first);
        assert(s.skip(1int + first.len()) =~= listed(rest));
        assert(comma_fields(s) =~= fields);
    }
}

/// Counters read back from their line in the order in which they were written; a line with
/// another number of them is not read.
pub proof fn counters_read_back(prefix: Seq<u8>, values: Seq<u32>, count: nat)
    requires
        values.len() > 0,
    ensures
        values.len() == count ==> counters(prefix + listed(values), prefix, count) == Some(values),
        values.len() != count ==> counters(prefix + listed(values), prefix, count) is None,
{
    prefix_comes_off(prefix, listed(values));
    fields_of_list(values);
    let fields = comma_fields(listed(values));
    assert forall|i: int| 0 <= i < values.len() implies unsigned_number(#[trigger] fields[i])
        == Some(values[i] as int) by {
        number_text(values[i] as int);
    }
    if values.len() == count {
        assert(counters(prefix + listed(values), prefix, count)->0 =~= values);
    }
}

/// Wheel lines give the wheel counters and brush lines the brush counters, in order.
pub proof fn warnings_go_to_their_part(
    wheel: Seq<u32>,
    brush: Seq<u32>,
    report: Option<WarningCounters>,
)
    requires
        wheel.len() == 5,
        brush.len() == 3,
    ensures
        warning_counters_of("WheelWarnSum:".spec_bytes() + listed(wheel), report) ==> (
        report matches Some(r) && r.wheel matches Some(w) && w@ == wheel && r.brush is None),
        warning_counters_of("BrushWarnSum:".spec_bytes() + listed(brush), report) ==> (
        report matches Some(r) && r.brush matches Some(b) && b@ == brush && r.wheel is None),
{
    counters_read_back("WheelWarnSum:".spec_bytes(), wheel, 5);
    counters_read_back("BrushWarnSum:".spec_bytes(), brush, 3);
    let line = "BrushWarnSum:".spec_bytes() + listed(brush);
    reveal_strlit("WheelWarnSum:");
    reveal_strlit("BrushWarnSum:");
    assert("WheelWarnSum:"@.len() == 13 && "WheelWarnSum:"@[0] == 'W');
    assert("BrushWarnSum:"@.len() == 13 && "BrushWarnSum:"@[0] == 'B');
    starts_with_its_char("WheelWarnSum:");
    starts_with_its_char("BrushWarnSum:");
    let other = "WheelWarnSum:".spec_bytes();
    assert(line[0] != other[0]);
    assert(!other.is_prefix_of(line));
}

proof fn other_text_other_bytes(a: &str, b: &str)
    requires
        a@ != b@,
    ensures
        a.spec_bytes() != b.spec_bytes(),
{
    encode_utf8_decode_utf8(a@);
    encode_utf8_decode_utf8(b@);
}

/// The four lines about the dock are the four states, in the order of their numbers.
pub proof fn dock_lines_are_the_states()
    ensures
        dock_state_of("DockSta:1,CONNECT".spec_bytes() + "\r\n".spec_bytes()) == Some(
            DockState::Connect,
        ),
        dock_state_of("DockSta:2,SUPPLY".spec_bytes() + "\r\n".spec_bytes()) == Some(
            DockState::Supply,
        ),
        dock_state_of("DockSta:3,CHARGE".spec_bytes() + "\r\n".spec_bytes()) == Some(
            DockState::Charge,
        ),
        dock_state_of("DockSta:4,DISCHARGE".spec_bytes() + "\r\n".spec_bytes()) == Some(
            DockState::Discharge,
        ),
{
    reveal_strlit("DockSta:1,CONNECT");
    reveal_strlit("DockSta:2,SUPPLY");
    reveal_strlit("DockSta:3,CHARGE");
    reveal_strlit("DockSta:4,DISCHARGE");
    assert("DockSta:1,CONNECT"@[8] == '1');
    assert("DockSta:2,SUPPLY"@[8] == '2');
    assert("DockSta:3,CHARGE"@[8] == '3');
    assert("DockSta:4,DISCHARGE"@[8] == '4');
    other_text_other_bytes("DockSta:1,CONNECT", "DockSta:2,SUPPLY");
    other_text_other_bytes("DockSta:1,CONNECT", "DockSta:3,CHARGE");
    other_text_other_bytes("DockSta:1,CONNECT", "DockSta:4,DISCHARGE");
    other_text_other_bytes("DockSta:2,SUPPLY", "DockSta:3,CHARGE");
    other_text_other_bytes("DockSta:2,SUPPLY", "DockSta:4,DISCHARGE");
    other_text_other_bytes("DockSta:3,CHARGE", "DockSta:4,DISCHARGE");
    suffix_comes_off("DockSta:1,CONNECT".spec_bytes(), "\r\n".spec_bytes());
    suffix_comes_off("DockSta:2,SUPPLY".spec_bytes(), "\r\n".spec_bytes());
    suffix_comes_off("DockSta:3,CHARGE".spec_bytes(), "\r\n".spec_bytes());
    suffix_comes_off("DockSta:4,DISCHARGE".spec_bytes(), "\r\n".spec_bytes());
}

} // verus!
