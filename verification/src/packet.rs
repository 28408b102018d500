//! MCU report framing for the Roborock S5 Max.
//!
//! Captured reports use `0xaa` as the sync byte. Bytes after the three-byte
//! header are escaped (`a9 00` = `a9`, `a9 01` = `aa`). The length byte is the
//! unescaped payload length; one trailing byte stores the CRC.

use crate::bytes::strip_suffix;
use crate::crc;
use vstd::prelude::*;

verus! {

// Report identifiers observed from the S5 Max MCU and corroborated by the stock
// controller's MCU event vocabulary. These are wire constants; field offsets are
// intentionally not guessed here.
pub const REPORT_STATE_MESSAGE: u8 = 0x07;

pub const REPORT_STATE_COMMAND: u8 = 0x40;

pub const REPORT_EVENT_MESSAGE: u8 = 0x0b;

pub const REPORT_EVENT_COMMAND: u8 = 0x08;

pub const SYSTEM_MODE_REPORT_MESSAGE: u8 = 0x02;

pub const SYSTEM_MODE_REPORT_LENGTH: u8 = 0x08;

pub const INTERNAL_ERROR_REPORT_MESSAGE: u8 = 0x04;

pub const INTERNAL_ERROR_REPORT_LENGTH: u8 = 0x04;

pub const BLACK_BOX_REPORT_MESSAGE: u8 = 0x0b;

pub const BLACK_BOX_REPORT_LENGTH: u8 = 0x08;

pub const DEVICE_INFO_REPORT_MESSAGE: u8 = 0x0d;

pub const DEVICE_INFO_REPORT_LENGTH: u8 = 0x10;

pub const DOCK_VOLTAGE_REPORT_MESSAGE: u8 = 0x0f;

pub const DOCK_VOLTAGE_REPORT_LENGTH: u8 = 0x02;

pub const BATTERY_CAPACITY_REPORT_MESSAGE: u8 = 0x16;

pub const BATTERY_CAPACITY_REPORT_LENGTH: u8 = 0x02;

/// Compact BMS report: voltage, current, state of charge, and reserved bytes.
pub const BATTERY_REPORT_MESSAGE: u8 = 0x08;

pub const BATTERY_REPORT_LENGTH: u8 = 0x0a;

/// Stock MCU wheel report.
pub const WHEEL_REPORT_MESSAGE: u8 = 0x51;

pub const WHEEL_REPORT_LENGTH: u8 = 0x08;

pub const FAN_REPORT_MESSAGE: u8 = 0x50;

pub const FAN_REPORT_LENGTH: u8 = 0x06;

pub const BRUSH_REPORT_MESSAGE: u8 = 0x52;

pub const BRUSH_REPORT_LENGTH: u8 = 0x06;

pub const SWEEP_REPORT_MESSAGE: u8 = 0x53;

pub const SWEEP_REPORT_LENGTH: u8 = 0x06;

/// Raw wall-sensor ADC report produced from the MCU ADC/DMA buffer.
pub const WALL_SENSOR_REPORT_MESSAGE: u8 = 0x42;

pub const WALL_SENSOR_REPORT_LENGTH: u8 = 0x02;

/// Gyro-communication token echoed by the MCU to the application processor.
pub const GYRO_ECHO_REPORT_MESSAGE: u8 = 0xd1;

pub const GYRO_ECHO_REPORT_LENGTH: u8 = 0x01;

pub const MCU_TIME_REPORT_MESSAGE: u8 = 0xd2;

pub const MCU_TIME_REPORT_LENGTH: u8 = 0x08;

pub const CALIBRATION_REPORT_MESSAGE: u8 = 0xd5;

pub const CALIBRATION_REPORT_LENGTH: u8 = 0x1c;

pub const MCU_IDENTITY_REPORT_MESSAGE: u8 = 0xf1;

pub const MCU_IDENTITY_REPORT_LENGTH: u8 = 0x10;

pub const STATUS_STRING_REPORT_MESSAGE: u8 = 0xf6;

/// Rolling dock-IR code masks from the left and right receivers.
pub const DOCK_IR_REPORT_MESSAGE: u8 = 0x13;

pub const DOCK_IR_REPORT_LENGTH: u8 = 0x04;

pub const REPORT_FOOTER_MESSAGE: u8 = 0xd0;

pub const REPORT_FOOTER_LENGTH: u8 = 0x02;

/// Where the appended reports of a periodic state frame start.
pub const STATE_BASE_LENGTH: usize = 66;

pub const LOG_ESCAPE_OVERHEAD: u8 = 0x00;

pub const LOG_MESSAGE: u8 = 0xf9;

pub const LOG_SUBTYPE_DEBUG: u8 = 0x80;

pub const LOG_SUBTYPE_NOTICE: u8 = 0x81;

/// The last subtype that is taken for a text log.
pub const LOG_SUBTYPE_LAST: u8 = 0x87;

/// One decoded MCU frame.
#[derive(Debug, Clone, PartialEq, Eq)]
pub struct Frame {
    pub raw: Vec<u8>,
    pub payload: Vec<u8>,
    /// Normal framing stores one plus the number of A9/AA escape expansions.
    /// Text-log framing stores zero here and uses a trailing sentinel instead.
    pub escape_overhead: u8,
    pub message: u8,
    pub command: u8,
    pub crc: u8,
    pub crc_valid: bool,
    pub is_log: bool,
}

/// What a [`Frame`] holds.
pub struct FrameView {
    pub raw: Seq<u8>,
    pub payload: Seq<u8>,
    pub escape_overhead: u8,
    pub message: u8,
    pub command: u8,
    pub crc: u8,
    pub crc_valid: bool,
    pub is_log: bool,
}

impl View for Frame {
    type V = FrameView;

    open spec fn view(&self) -> FrameView {
        FrameView {
            raw: self.raw@,
            payload: self.payload@,
            escape_overhead: self.escape_overhead,
            message: self.message,
            command: self.command,
            crc: self.crc,
            crc_valid: self.crc_valid,
            is_log: self.is_log,
        }
    }
}

/// What each of several frames holds.
pub open spec fn frame_views(frames: Seq<Frame>) -> Seq<FrameView> {
    frames.map_values(|frame: Frame| frame@)
}

/// The frame whose wire form is `raw` and whose unescaped body is `body`: the
/// payload, then its checksum.
pub open spec fn frame_of(raw: Seq<u8>, body: Seq<u8>) -> FrameView {
    let payload = body.drop_last();
    FrameView {
        raw,
        payload,
        escape_overhead: raw[2],
        message: payload[0],
        command: payload[1],
        crc: body.last(),
        crc_valid: crc::crc8_of(payload, 0) == body.last(),
        is_log: raw[2] == LOG_ESCAPE_OVERHEAD && payload[0] == LOG_MESSAGE && LOG_SUBTYPE_DEBUG
            <= payload[1] <= LOG_SUBTYPE_LAST,
    }
}

/// One report of a frame: what it is about, and its data.
pub struct ReportView {
    pub message: u8,
    pub data: Seq<u8>,
}

/// The first report in `s`, and what follows it. A report is its message, its
/// length, and as many bytes of data as the length says.
pub open spec fn split_report(s: Seq<u8>) -> Option<(ReportView, Seq<u8>)> {
    if s.len() >= 2 && s.len() - 2 >= s[1] {
        Some((ReportView { message: s[0], data: s.subrange(2, 2 + s[1]) }, s.skip(2 + s[1])))
    } else {
        None
    }
}

/// All reports in `s`, in order. A truncated one ends the list.
pub open spec fn report_list(s: Seq<u8>) -> Seq<ReportView>
    decreases s.len(),
{
    match split_report(s) {
        Some((report, rest)) => if rest.len() < s.len() {
            seq![report] + report_list(rest)
        } else {
            seq![report]
        },
        None => Seq::empty(),
    }
}

/// The data of the first report about `message` that is `length` bytes long.
pub open spec fn sized_report(reports: Seq<ReportView>, message: u8, length: u8) -> Option<Seq<u8>>
    decreases reports.len(),
{
    if reports.len() == 0 {
        None
    } else if reports[0].message == message && reports[0].data.len() == length {
        Some(reports[0].data)
    } else {
        sized_report(reports.skip(1), message, length)
    }
}

/// The first report about `message`, whatever its length.
pub open spec fn first_report(reports: Seq<ReportView>, message: u8) -> Option<ReportView>
    decreases reports.len(),
{
    if reports.len() == 0 {
        None
    } else if reports[0].message == message {
        Some(reports[0])
    } else {
        first_report(reports.skip(1), message)
    }
}

/// A report found is one of the list, about what was asked, and nothing before
/// it fits.
pub proof fn sized_report_meaning(reports: Seq<ReportView>, message: u8, length: u8)
    ensures
        match sized_report(reports, message, length) {
            Some(data) => exists|i: int|
                #![trigger reports[i]]
                0 <= i < reports.len() && reports[i] == (ReportView { message, data }) && data.len()
                    == length && (forall|j: int|
                    0 <= j < i ==> !((#[trigger] reports[j]).message == message
                        && reports[j].data.len() == length)),
            None => forall|j: int|
                0 <= j < reports.len() ==> !((#[trigger] reports[j]).message == message
                    && reports[j].data.len() == length),
        },
    decreases reports.len(),
{
    if reports.len() > 0 && !(reports[0].message == message && reports[0].data.len() == length) {
        let rest = reports.skip(1);
        sized_report_meaning(rest, message, length);
        match sized_report(rest, message, length) {
            Some(data) => {
                let i = choose|i: int|
                    #![trigger rest[i]]
                    0 <= i < rest.len() && rest[i] == (ReportView { message, data }) && (forall|
                        j: int,
                    |
                        0 <= j < i ==> !((#[trigger] rest[j]).message == message
                            && rest[j].data.len() == length));
                assert(reports[i + 1] == rest[i]);
                assert forall|j: int| 0 <= j < i + 1 implies !((#[trigger] reports[j]).message
                    == message && reports[j].data.len() == length) by {
                    if j > 0 {
                        assert(rest[j - 1] == reports[j]);
                    }
                }
            },
            None => {
                assert forall|j: int| 0 <= j < reports.len() implies !((
                #[trigger] reports[j]).message == message && reports[j].data.len() == length) by {
                    if j > 0 {
                        assert(rest[j - 1] == reports[j]);
                    }
                }
            },
        }
    }
}

/// Reports as they stand in a payload, one after another.
pub open spec fn reports_on_wire(reports: Seq<ReportView>) -> Seq<u8>
    decreases reports.len(),
{
    if reports.len() == 0 {
        Seq::empty()
    } else {
        seq![reports[0].message, reports[0].data.len() as u8] + reports[0].data + reports_on_wire(
            reports.skip(1),
        )
    }
}

/// Whatever reports a payload is made of, known or not, are the reports that are
/// found in it.
pub proof fn reports_read_back(reports: Seq<ReportView>)
    requires
        forall|i: int| 0 <= i < reports.len() ==> (#[trigger] reports[i]).data.len() <= 255,
    ensures
        report_list(reports_on_wire(reports)) == reports,
    decreases reports.len(),
{
    let s = reports_on_wire(reports);
    if reports.len() > 0 {
        let first = reports[0];
        let rest = reports.skip(1);
        assert forall|i: int| 0 <= i < rest.len() implies (#[trigger] rest[i]).data.len()
            <= 255 by {
            assert(rest[i] == reports[i + 1]);
        }
        reports_read_back(rest);
        assert(s[1] == first.data.len());
        assert(s.subrange(2, 2 + s[1]) =~= first.data);
        assert(s.skip(2 + s[1]) =~= reports_on_wire(rest));
        assert(seq![first] + rest =~= reports);
        assert(split_report(s) == Some((first, reports_on_wire(rest))));
    }
}

impl FrameView {
    /// The frame is a periodic state report.
    pub open spec fn is_state(self) -> bool {
        !self.is_log && self.message == REPORT_STATE_MESSAGE && self.command == REPORT_STATE_COMMAND
    }

    /// Where the reports of the frame stand. A periodic state frame has a fixed
    /// body before them; a text log has none.
    pub open spec fn report_bytes(self) -> Seq<u8> {
        let start = if self.is_state() {
            STATE_BASE_LENGTH as int
        } else {
            0
        };
        if !self.is_log && self.payload.len() >= start {
            self.payload.skip(start)
        } else {
            Seq::empty()
        }
    }

    /// The reports of the frame.
    pub open spec fn reports(self) -> Seq<ReportView> {
        report_list(self.report_bytes())
    }

    /// The data of the first report of the frame about `message` that is
    /// `length` bytes long.
    pub open spec fn report_data(self, message: u8, length: u8) -> Option<Seq<u8>> {
        sized_report(self.reports(), message, length)
    }

    /// The text of a log frame, without the terminator where there is one.
    pub open spec fn log_text(self) -> Option<Seq<u8>> {
        if !self.is_log || self.payload.len() < 2 {
            None
        } else {
            let text = self.payload.skip(2);
            if text.len() > 0 && text.last() == 0x5e {
                Some(text.drop_last())
            } else {
                Some(text)
            }
        }
    }
}

/// One length-delimited report appended to the fixed periodic-state body.
#[derive(Debug, Clone, Copy, PartialEq, Eq)]
pub struct EmbeddedReport<'a> {
    pub message: u8,
    pub data: &'a [u8],
}

impl<'a> View for EmbeddedReport<'a> {
    type V = ReportView;

    open spec fn view(&self) -> ReportView {
        ReportView { message: self.message, data: self.data@ }
    }
}

/// Walks over the exact `[message, length, data...]` stream following the
/// 66-byte periodic-state body. A truncated final report ends the walk.
pub struct EmbeddedReports<'a> {
    remaining: &'a [u8],
}

impl<'a> View for EmbeddedReports<'a> {
    type V = Seq<u8>;

    closed spec fn view(&self) -> Seq<u8> {
        self.remaining@
    }
}

impl<'a> EmbeddedReports<'a> {
    /// The next report, if a whole one is left.
    pub fn next(&mut self) -> (report: Option<EmbeddedReport<'a>>)
        ensures
            match split_report(old(self)@) {
                Some((r, rest)) => report matches Some(x) && x@ == r && final(self)@ == rest,
                None => report is None && final(self)@ == old(self)@,
            },
    {
        let all: &'a [u8] = self.remaining;
        if all.len() < 2 {
            return None;
        }
        let message = all[0];
        let length: usize = all[1] as usize;
        if all.len() - 2 < length {
            return None;
        }
        let data: &'a [u8] = &all[2..2 + length];
        self.remaining = &all[2 + length..all.len()];
        assert(self.remaining@ =~= all@.skip(2 + length));
        Some(EmbeddedReport { message, data })
    }

    /// All reports that are left.
    pub fn collect(self) -> (reports: Vec<EmbeddedReport<'a>>)
        ensures
            reports@.map_values(|r: EmbeddedReport<'a>| r@) == report_list(self@),
    {
        let mut walk = self;
        let mut reports: Vec<EmbeddedReport<'a>> = Vec::new();
        let ghost view = |r: EmbeddedReport<'a>| r@;
        assert(reports@.map_values(view) + report_list(walk@) =~= report_list(walk@));
        loop
            invariant_except_break
                view == (|r: EmbeddedReport<'a>| r@),
                reports@.map_values(view) + report_list(walk@) == report_list(self@),
            ensures
                reports@.map_values(view) == report_list(self@),
            decreases walk@.len(),
        {
            let ghost here = walk@;
            let ghost before = reports@;
            match walk.next() {
                Some(report) => {
                    reports.push(report);
                    assert(reports@.map_values(view) =~= before.map_values(view).push(report@));
                    assert(before.map_values(view) + (seq![report@] + report_list(walk@))
                        =~= reports@.map_values(view) + report_list(walk@));
                },
                None => {
                    assert(before.map_values(view) + report_list(here) =~= before.map_values(view));
                    break ;
                },
            }
        }
        reports
    }

    /// The data of the first report about `message` that is `length` bytes long.
    fn find_sized(self, message: u8, length: u8) -> (data: Option<&'a [u8]>)
        ensures
            match sized_report(report_list(self@), message, length) {
                Some(d) => data matches Some(x) && x@ == d && x@.len() == length,
                None => data is None,
            },
    {
        let mut walk = self;
        loop
            invariant
                sized_report(report_list(self@), message, length) == sized_report(
                    report_list(walk@),
                    message,
                    length,
                ),
            decreases walk@.len(),
        {
            let ghost here = walk@;
            match walk.next() {
                Some(report) => {
                    assert(report_list(here).skip(1) =~= report_list(walk@));
                    if report.message == message && report.data.len() == length as usize {
                        return Some(report.data);
                    }
                },
                None => {
                    return None;
                },
            }
        }
    }

    /// The first report about `message`.
    fn find_first(self, message: u8) -> (report: Option<EmbeddedReport<'a>>)
        ensures
            match first_report(report_list(self@), message) {
                Some(r) => report matches Some(x) && x@ == r,
                None => report is None,
            },
    {
        let mut walk = self;
        loop
            invariant
                first_report(report_list(self@), message) == first_report(
                    report_list(walk@),
                    message,
                ),
            decreases walk@.len(),
        {
            let ghost here = walk@;
            match walk.next() {
                Some(report) => {
                    assert(report_list(here).skip(1) =~= report_list(walk@));
                    if report.message == message {
                        return Some(report);
                    }
                },
                None => {
                    return None;
                },
            }
        }
    }
}

impl Frame {
    /// The length of the wire form agrees with the count in the header. A text
    /// log carries no such count.
    pub fn escape_overhead_valid(&self) -> (valid: bool)
        ensures
            valid == (self@.is_log || self@.raw.len() == self@.payload.len() + 3
                + self@.escape_overhead),
    {
        if self.is_log {
            return true;
        }
        if self.raw.len() < self.payload.len() {
            return false;
        }
        let extra: usize = self.raw.len() - self.payload.len();
        extra >= 3 && extra - 3 == self.escape_overhead as usize
    }

    pub fn log_subtype(&self) -> (subtype: Option<u8>)
        ensures
            subtype == (if self@.is_log {
                Some(self@.command)
            } else {
                None
            }),
    {
        if self.is_log {
            Some(self.command)
        } else {
            None
        }
    }

    pub fn is_state_report(&self) -> (yes: bool)
        ensures
            yes == self@.is_state(),
    {
        !self.is_log && self.message == REPORT_STATE_MESSAGE && self.command == REPORT_STATE_COMMAND
    }

    pub fn is_event_report(&self) -> (yes: bool)
        ensures
            yes == (!self@.is_log && self@.message == REPORT_EVENT_MESSAGE && self@.command
                == REPORT_EVENT_COMMAND),
    {
        !self.is_log && self.message == REPORT_EVENT_MESSAGE && self.command == REPORT_EVENT_COMMAND
    }

    pub fn is_wheel_report(&self) -> (yes: bool)
        ensures
            yes == (self@.message == WHEEL_REPORT_MESSAGE && self@.command == WHEEL_REPORT_LENGTH),
    {
        self.message == WHEEL_REPORT_MESSAGE && self.command == WHEEL_REPORT_LENGTH
    }

    /// The reports in any normal binary frame. Periodic state frames have a fixed
    /// 66-byte prefix; all other observed binary frames begin directly with their
    /// first report.
    pub fn reports(&self) -> (walk: EmbeddedReports<'_>)
        ensures
            walk@ == self@.report_bytes(),
    {
        let start: usize = if self.is_state_report() {
            STATE_BASE_LENGTH
        } else {
            0
        };
        let all: &[u8] = self.payload.as_slice();
        let remaining: &[u8] = if !self.is_log && all.len() >= start {
            &all[start..all.len()]
        } else {
            &all[0..0]
        };
        assert(remaining@ =~= self@.report_bytes());
        EmbeddedReports { remaining }
    }

    /// State-specific form of [`Self::reports`]: empty for any other frame.
    pub fn embedded_reports(&self) -> (walk: EmbeddedReports<'_>)
        ensures
            walk@ == (if self@.is_state() {
                self@.report_bytes()
            } else {
                Seq::<u8>::empty()
            }),
    {
        let all: &[u8] = self.payload.as_slice();
        let remaining: &[u8] = if self.is_state_report() && all.len() >= STATE_BASE_LENGTH {
            &all[STATE_BASE_LENGTH..all.len()]
        } else {
            &all[0..0]
        };
        assert(self@.is_state() ==> remaining@ =~= self@.report_bytes());
        assert(!self@.is_state() ==> remaining@ =~= Seq::<u8>::empty());
        EmbeddedReports { remaining }
    }

    /// The data of one report of a binary frame.
    ///
    /// Periodic state packets append reports after their fixed body; standalone
    /// event packets begin directly with a report. Unknown reports can be queried
    /// without assigning guessed semantics.
    pub fn embedded_report(&self, message: u8, length: u8) -> (data: Option<&[u8]>)
        ensures
            match self@.report_data(message, length) {
                Some(d) => data matches Some(x) && x@ == d && x@.len() == length,
                None => data is None,
            },
    {
        self.reports().find_sized(message, length)
    }

    /// The first report with this message ID regardless of length.
    pub fn report(&self, message: u8) -> (report: Option<EmbeddedReport<'_>>)
        ensures
            match first_report(self@.reports(), message) {
                Some(r) => report matches Some(x) && x@ == r,
                None => report is None,
            },
    {
        self.reports().find_first(message)
    }

    /// The printable body of a stock MCU diagnostic packet.
    ///
    /// These packets use the final `0x5e` as a text terminator and do not use the
    /// normal report CRC convention, so only frames with `is_log` have one.
    pub fn log_text(&self) -> (text: Option<&[u8]>)
        ensures
            match self@.log_text() {
                Some(t) => text matches Some(x) && x@ == t,
                None => text is None,
            },
    {
        let all: &[u8] = self.payload.as_slice();
        if !self.is_log || all.len() < 2 {
            return None;
        }
        let text: &[u8] = &all[2..all.len()];
        assert(text@ =~= self@.payload.skip(2));
        let terminator: [u8; 1] = [0x5e];
        let ghost ends = terminator@.is_suffix_of(text@);
        assert(ends == (text@.len() > 0 && text@.last() == 0x5e)) by {
            if text@.len() > 0 {
                assert(text@.subrange(text@.len() - 1, text@.len() as int) =~= seq![text@.last()]);
                assert(terminator@ =~= seq![0x5eu8]);
                if ends {
                    assert(terminator@[0] == text@[text@.len() - 1]);
                }
            }
        }
        match strip_suffix(text, &terminator) {
            Some(body) => {
                assert(body@ =~= text@.drop_last());
                Some(body)
            },
            None => Some(text),
        }
    }
}

/// The first report about a message is one of the list, and no earlier one is about it.
pub proof fn first_report_comes_first(reports: Seq<ReportView>, message: u8)
    ensures
        match first_report(reports, message) {
            Some(found) => exists|i: int|
                #![trigger reports[i]]
                0 <= i < reports.len() && reports[i] == found && found.message == message && (forall|
                    j: int,
                |
                    0 <= j < i ==> (#[trigger] reports[j]).message != message),
            None => forall|j: int|
                0 <= j < reports.len() ==> (#[trigger] reports[j]).message != message,
        },
    decreases reports.len(),
{
    if reports.len() > 0 && reports[0].message != message {
        let rest = reports.skip(1);
        first_report_comes_first(rest, message);
        assert forall|j: int| 0 < j < reports.len() implies (#[trigger] reports[j]) == rest[j - 1] by {}
        match first_report(rest, message) {
            Some(found) => {
                let i = choose|i: int|
                    #![trigger rest[i]]
                    0 <= i < rest.len() && rest[i] == found && (forall|j: int|
                        0 <= j < i ==> (#[trigger] rest[j]).message != message);
                assert(reports[i + 1] == found);
                assert forall|j: int| 0 <= j < i + 1 implies (#[trigger] reports[j]).message
                    != message by {
                    if j > 0 {
                        assert(rest[j - 1] == reports[j]);
                    }
                }
            },
            None => {},
        }
    } else if reports.len() > 0 {
        assert(reports[0].message == message);
    }
}

/// The reports of a frame stand right at the start of its payload; in a periodic state
/// report, `07 40`, they stand behind its 66 bytes.
pub proof fn frame_reports_read_back(f: FrameView, base: Seq<u8>, reports: Seq<ReportView>)
    requires
        !f.is_log,
        f.payload == base + reports_on_wire(reports),
        base.len() == if f.message == 0x07 && f.command == 0x40 {
            66nat
        } else {
            0nat
        },
        forall|i: int| 0 <= i < reports.len() ==> (#[trigger] reports[i]).data.len() <= 255,
    ensures
        f.reports() == reports,
{
    reports_read_back(reports);
    assert(f.report_bytes() =~= reports_on_wire(reports));
}

/// The text of a log is its payload behind the first two bytes, without the `^` that ends
/// it; frames that are no logs have none.
pub proof fn log_text_reads_back(f: FrameView, head: Seq<u8>, body: Seq<u8>)
    requires
        head.len() == 2,
    ensures
        f.is_log && f.payload == head + body + seq![0x5eu8] ==> f.log_text() == Some(body),
        f.is_log && f.payload == head + body && (body.len() == 0 || body.last() != 0x5e)
            ==> f.log_text() == Some(body),
        !f.is_log ==> f.log_text() is None,
{
    if f.payload == head + body + seq![0x5eu8] {
        assert(f.payload.skip(2) =~= body + seq![0x5eu8]);
        assert((body + seq![0x5eu8]).drop_last() =~= body);
    }
    if f.payload == head + body {
        assert(f.payload.skip(2) =~= body);
    }
}

} // verus!
