//! Decisions of the read-only LDS UART worker.
//!
//! Times are nanoseconds of a monotonic clock.

use crate::error::Error;
use crate::groups::SensorGroupData;
use crate::groups::SensorValue;
use crate::groups::SensorValueView;
use crate::lds;
use crate::lds::LdsDecoder;
use crate::lds::LdsPacket;
use crate::lds::LdsSample;
use crate::lds::INDEX_MAX;
use crate::lds::INDEX_MIN;
use crate::lds::SAMPLES_PER_REVOLUTION;
use crate::revolution;
use crate::revolution::LdsRevolution;
use crate::revolution::LdsRevolutionAssembler;
use crate::revolution::RevolutionView;
use vstd::prelude::*;

verus! {

pub const ZERO_FEEDBACK_INTERVAL: u64 = 50_000_000;

/// A cold rotor cannot report speed immediately. This preserves the stock
/// abnormal-speed window before zero feedback goes to the kernel motor controller.
pub const COLD_START_FEEDBACK_GRACE: u64 = 3_000_000_000;

/// A usable scan is published through occasional UART loss, while absent samples
/// stay explicit for downstream filtering.
pub const MIN_PUBLISHABLE_PACKETS: usize = 75;

/// The time from `since` to `now`; none where `since` lies later.
pub open spec fn elapsed(now: u64, since: u64) -> int {
    if now >= since {
        now - since
    } else {
        0
    }
}

/// The time from `since` to `now`.
fn time_since(now: u64, since: u64) -> (time: u64)
    ensures
        time == elapsed(now, since),
{
    if now >= since {
        now - since
    } else {
        0
    }
}

pub fn revolution_publishable(packet_count: usize) -> (yes: bool)
    ensures
        yes == (packet_count >= MIN_PUBLISHABLE_PACKETS),
        yes <==> packet_count >= 75,
{
    packet_count >= MIN_PUBLISHABLE_PACKETS
}

/// Zero speed is due as feedback: the motor runs, the last feedback is old enough,
/// and the rotor has either turned before or had its time to start.
pub open spec fn feedback_due(
    motor_running: bool,
    packet_seen: bool,
    motor_started: Option<u64>,
    last_feedback: u64,
    now: u64,
) -> bool {
    &&& motor_running
    &&& elapsed(now, last_feedback) >= ZERO_FEEDBACK_INTERVAL
    &&& packet_seen || (motor_started matches Some(started) && elapsed(now, started)
        >= COLD_START_FEEDBACK_GRACE)
}

/// Zero speed goes to the motor controller only while the motor runs, 50 ms after the
/// last feedback at the earliest; before the first packet not until the motor has run
/// for three seconds. Where all this holds, it is due.
pub proof fn zero_feedback_waits(
    motor_running: bool,
    packet_seen: bool,
    motor_started: Option<u64>,
    last_feedback: u64,
    now: u64,
)
    ensures
        ({
            let due = feedback_due(motor_running, packet_seen, motor_started, last_feedback, now);
            &&& due ==> motor_running && now >= last_feedback + 50_000_000
            &&& due && !packet_seen ==> (motor_started matches Some(started) && now >= started
                + 3_000_000_000)
            &&& motor_running && now >= last_feedback + 50_000_000 && packet_seen ==> due
            &&& motor_running && now >= last_feedback + 50_000_000 && (
            motor_started matches Some(started) && now >= started + 3_000_000_000) ==> due
        }),
{
}

pub fn zero_feedback_due(
    motor_running: bool,
    packet_seen: bool,
    motor_started: Option<u64>,
    last_feedback: u64,
    now: u64,
) -> (due: bool)
    ensures
        due == feedback_due(motor_running, packet_seen, motor_started, last_feedback, now),
{
    let warm = packet_seen || match motor_started {
        Some(started) => time_since(now, started) >= COLD_START_FEEDBACK_GRACE,
        None => false,
    };
    motor_running && time_since(now, last_feedback) >= ZERO_FEEDBACK_INTERVAL && warm
}

/// A raw speed, in 64ths of an RPM, as hundredths of an RPM, rounded to nearest.
pub open spec fn rpm_x100(speed_raw: u16) -> int {
    (speed_raw * 100 + 32) / 64
}

/// A speed is told to the nearest hundredth: 64 times the hundredths lie within 32 of
/// 100 times the raw speed, and a half is rounded up.
pub proof fn speed_is_rounded(speed_raw: u16)
    ensures
        64 * rpm_x100(speed_raw) - 32 <= 100 * speed_raw < 64 * rpm_x100(speed_raw) + 32,
{
}

pub fn speed_feedback_rpm_x100(speed_raw: u16) -> (speed: i32)
    ensures
        speed == rpm_x100(speed_raw),
        64 * speed - 32 <= 100 * speed_raw < 64 * speed + 32,
{
    let scaled: u32 = (speed_raw as u32 * 100 + 32) / 64;
    scaled as i32
}

/// One point of a scan: where the sensor looked, what it measured, and how well.
#[derive(Debug, Clone, Copy, PartialEq, Eq)]
pub struct ScanPoint {
    /// Degrees, clockwise, before the mounting angle is taken off.
    pub raw_angle: u16,
    pub distance_mm: u16,
    /// The signal strength, at most 255.
    pub quality: u8,
}

/// The point that a sample at `angle` gives: none without a valid distance.
pub open spec fn point_of(angle: int, sample: Option<LdsSample>) -> Option<ScanPoint> {
    match sample {
        Some(s) => if s.no_return() || s.millimetres() == 0 {
            None
        } else {
            Some(
                ScanPoint {
                    raw_angle: angle as u16,
                    distance_mm: s.millimetres() as u16,
                    quality: if s.signal_strength < 255 {
                        s.signal_strength as u8
                    } else {
                        255
                    },
                },
            )
        },
        None => None,
    }
}

/// The points of a scan, by growing angle.
pub open spec fn points_of(samples: Seq<Option<LdsSample>>) -> Seq<ScanPoint>
    decreases samples.len(),
{
    if samples.len() == 0 {
        Seq::empty()
    } else {
        let before = points_of(samples.drop_last());
        match point_of(samples.len() - 1, samples.last()) {
            Some(point) => before.push(point),
            None => before,
        }
    }
}

/// `point` is the measurement of a sample at its angle: the sample is valid, its
/// distance is not zero and is all of its lower fourteen bits, and the quality is the
/// strength, cut off at 255.
pub open spec fn measured(point: ScanPoint, samples: Seq<Option<LdsSample>>) -> bool {
    &&& point.raw_angle < samples.len()
    &&& samples[point.raw_angle as int] matches Some(s) && {
        &&& 0 < point.distance_mm < 16384
        &&& s.distance_raw == point.distance_mm || s.distance_raw == point.distance_mm + 16384
        &&& s.signal_strength <= 255 ==> point.quality == s.signal_strength
        &&& s.signal_strength > 255 ==> point.quality == 255
    }
}

/// The points of a scan are the measurements of its samples, by growing angle, and no
/// sample with a valid distance other than zero is left out.
pub proof fn points_measure_samples(samples: Seq<Option<LdsSample>>)
    requires
        samples.len() <= 0x1_0000,
    ensures
        forall|i: int|
            0 <= i < points_of(samples).len() ==> measured(#[trigger] points_of(samples)[i], samples),
        forall|i: int, j: int|
            0 <= i < j < points_of(samples).len() ==> (#[trigger] points_of(samples)[i]).raw_angle
                < (#[trigger] points_of(samples)[j]).raw_angle,
        forall|angle: int|
            #![trigger samples[angle]]
            0 <= angle < samples.len() && (samples[angle] matches Some(s) && s.distance_raw < 32768
                && s.distance_raw % 16384 != 0) ==> exists|i: int|
                0 <= i < points_of(samples).len() && (#[trigger] points_of(samples)[i]).raw_angle
                    == angle,
    decreases samples.len(),
{
    if samples.len() > 0 {
        let front = samples.drop_last();
        points_measure_samples(front);
        let before = points_of(front);
        let all = points_of(samples);
        let last = point_of(samples.len() - 1, samples.last());
        assert forall|i: int| 0 <= i < all.len() implies measured(#[trigger] all[i], samples) by {
            if i < before.len() {
                assert(measured(before[i], front));
                assert(all[i] == before[i]);
                assert(front[all[i].raw_angle as int] == samples[all[i].raw_angle as int]);
            }
        }
        assert forall|i: int, j: int| 0 <= i < j < all.len() implies (#[trigger] all[i]).raw_angle < (
        #[trigger] all[j]).raw_angle by {
            assert(all[i] == before[i]);
            assert(measured(before[i], front));
            if j < before.len() {
                assert(all[j] == before[j]);
            }
        }
        assert forall|angle: int|
            #![trigger samples[angle]]
            0 <= angle < samples.len() && (samples[angle] matches Some(s) && s.distance_raw < 32768
                && s.distance_raw % 16384 != 0) implies exists|i: int|
            0 <= i < all.len() && (#[trigger] all[i]).raw_angle == angle by {
            if angle < front.len() {
                assert(front[angle] == samples[angle]);
                let i = choose|i: int|
                    0 <= i < before.len() && (#[trigger] before[i]).raw_angle == angle;
                assert(all[i] == before[i]);
            } else {
                assert(all[all.len() - 1].raw_angle == angle);
            }
        }
    }
}

/// The points of a revolution.
pub fn scan_points(revolution: &LdsRevolution) -> (points: Vec<ScanPoint>)
    ensures
        points@ == points_of(revolution.samples@),
{
    let mut points: Vec<ScanPoint> = Vec::new();
    let mut i: usize = 0;
    while i < SAMPLES_PER_REVOLUTION
        invariant
            i <= 360,
            points@ == points_of(revolution.samples@.take(i as int)),
        decreases 360 - i,
    {
        assert(revolution.samples@.take(i + 1).drop_last() =~= revolution.samples@.take(i as int));
        if let Some(sample) = revolution.samples[i] {
            let distance_mm = sample.distance_mm();
            if !sample.invalid() && distance_mm != 0 {
                let quality: u8 = if sample.signal_strength < 255 {
                    sample.signal_strength as u8
                } else {
                    255
                };
                points.push(ScanPoint { raw_angle: i as u16, distance_mm, quality });
            }
        }
        i += 1;
    }
    assert(revolution.samples@.take(360) =~= revolution.samples@);
    points
}

/// The lidar group with a revolution published.
pub open spec fn with_scan(
    values: Map<Seq<char>, SensorValueView>,
    revolution: LdsRevolution,
) -> Map<Seq<char>, SensorValueView> {
    values.insert(
        "scan"@,
        SensorValueView::PointCloud2D(points_of(revolution.samples@)),
    ).insert(
        "rotation_speed_rpm"@,
        SensorValueView::MeanSpeed {
            raw_sum: revolution.speed_raw_sum,
            packets: revolution.packet_count,
        },
    ).insert(
        "invalid_samples"@,
        SensorValueView::U16(
            revolution::count_samples(revolution.samples@, |s: LdsSample| s.no_return()) as u16,
        ),
    )
}

/// A published revolution sets three values: the points of its samples, its summed raw
/// speed over its number of packets, and how many of its samples are invalid. Whatever
/// else the group held stays.
pub proof fn published_scan(values: Map<Seq<char>, SensorValueView>, revolution: LdsRevolution)
    ensures
        with_scan(values, revolution).contains_pair(
            "scan"@,
            SensorValueView::PointCloud2D(points_of(revolution.samples@)),
        ),
        with_scan(values, revolution).contains_pair(
            "rotation_speed_rpm"@,
            SensorValueView::MeanSpeed {
                raw_sum: revolution.speed_raw_sum,
                packets: revolution.packet_count,
            },
        ),
        with_scan(values, revolution).contains_key("invalid_samples"@),
        with_scan(values, revolution)["invalid_samples"@] matches SensorValueView::U16(n) && n
            == revolution.samples@.filter(
            |o: Option<LdsSample>| o is Some && o->0.distance_raw >= 32768,
        ).len(),
        forall|key: Seq<char>|
            key != "scan"@ && key != "rotation_speed_rpm"@ && key != "invalid_samples"@ ==> (
            #[trigger] with_scan(values, revolution).contains_key(key) == values.contains_key(key)
                && with_scan(values, revolution)[key] == values[key]),
{
    reveal_strlit("scan");
    reveal_strlit("rotation_speed_rpm");
    reveal_strlit("invalid_samples");
    assert("scan"@.len() == 4 && "rotation_speed_rpm"@.len() == 18 && "invalid_samples"@.len()
        == 15);
    let wanted = |s: LdsSample| s.no_return();
    revolution::counting_is_filtering(revolution.samples@, wanted);
    let by_name = |o: Option<LdsSample>| o is Some && wanted(o->0);
    let by_word = |o: Option<LdsSample>| o is Some && o->0.distance_raw >= 32768;
    assert(by_name =~= by_word);
    revolution.samples@.lemma_filter_len(by_word);
}

/// Publishes a revolution in the lidar group.
pub fn publish_revolution(group: &mut SensorGroupData, revolution: &LdsRevolution, now: u64)
    ensures
        final(group).values@ == with_scan(old(group).values@, *revolution),
        final(group).name == old(group).name,
        final(group).last_update == Some(now),
{
    let points = scan_points(revolution);
    group.set("scan", SensorValue::PointCloud2D(points));
    group.set(
        "rotation_speed_rpm",
        SensorValue::MeanSpeed {
            raw_sum: revolution.speed_raw_sum,
            packets: revolution.packet_count,
        },
    );
    let invalid = revolution.invalid_sample_count();
    group.set("invalid_samples", SensorValue::U16(invalid as u16));
    group.touch(now);
}

/// The state of the LDS worker between two reads of its UART.
pub struct LdsWorker {
    pub decoder: LdsDecoder,
    pub assembler: LdsRevolutionAssembler,
    /// Since when the motor is known to run.
    pub motor_started: Option<u64>,
    /// A packet came since the motor was started.
    pub packet_seen: bool,
    /// When a speed was last handed to the motor controller.
    pub last_feedback: u64,
}

impl LdsWorker {
    pub open spec fn wf(&self) -> bool {
        self.assembler.wf()
    }

    pub fn new(now: u64) -> (worker: Self)
        ensures
            worker.wf(),
            worker.decoder.pending() == Seq::<u8>::empty(),
            worker.decoder.lost() == 0,
            worker.assembler.current() is None,
            worker.motor_started is None,
            !worker.packet_seen,
            worker.last_feedback == now,
    {
        LdsWorker {
            decoder: LdsDecoder::new(),
            assembler: LdsRevolutionAssembler::new(),
            motor_started: None,
            packet_seen: false,
            last_feedback: now,
        }
    }

    /// Notes at the start of a pass whether the motor runs.
    pub fn begin_pass(&mut self, running: bool, now: u64)
        ensures
            *final(self) == pass_begun(*old(self), running, now),
    {
        if running {
            if self.motor_started.is_none() {
                self.motor_started = Some(now);
            }
        } else if self.motor_started.is_some() {
            self.motor_started = None;
            self.packet_seen = false;
        }
    }

    /// Whether a pass without bytes calls for zero speed as feedback.
    pub fn quiet_feedback_due(&self, running: bool, now: u64) -> (due: bool)
        ensures
            due == feedback_due(
                running,
                self.packet_seen,
                self.motor_started,
                self.last_feedback,
                now,
            ),
    {
        zero_feedback_due(running, self.packet_seen, self.motor_started, self.last_feedback, now)
    }

    /// Notes that a speed was handed to the motor controller.
    pub fn fed(&mut self, now: u64)
        ensures
            *final(self) == (LdsWorker { last_feedback: now, ..*old(self) }),
    {
        self.last_feedback = now;
    }

    /// Takes in the bytes of one read and returns the packets that they complete.
    pub fn receive(&mut self, bytes: &[u8]) -> (packets: Vec<LdsPacket>)
        requires
            old(self).decoder.lost() + old(self).decoder.pending().len() + bytes@.len() <= u64::MAX,
        ensures
            *final(self) == (LdsWorker { decoder: final(self).decoder, ..*old(self) }),
            ({
                let found = lds::decoded(old(self).decoder.pending() + bytes@);
                &&& lds::packet_views(packets@) == found.packets
                &&& final(self).decoder.pending() == found.rest
                &&& final(self).decoder.lost() == old(self).decoder.lost() + found.discarded
            }),
            forall|i: int|
                0 <= i < packets@.len() ==> INDEX_MIN <= (#[trigger] packets@[i]).index
                    <= INDEX_MAX,
    {
        self.decoder.push(bytes)
    }

    /// Takes in one packet. A revolution that it ends is due for publication unless
    /// too much of it is missing.
    pub fn accept(&mut self, packet: LdsPacket) -> (scan: Option<LdsRevolution>)
        requires
            old(self).wf(),
            INDEX_MIN <= packet.index <= INDEX_MAX,
            old(self).assembler.current() matches Some(m) ==> m.duplicates < usize::MAX,
        ensures
            final(self).wf(),
            final(self).assembler.current() == Some(
                revolution::assembled(old(self).assembler.current(), packet@),
            ),
            *final(self) == (LdsWorker {
                assembler: final(self).assembler,
                packet_seen: true,
                ..*old(self)
            }),
            if ends_scan(old(self).assembler.current(), packet.index) {
                scan matches Some(r) && r.made_from(
                    old(self).assembler.current()->0.kept,
                    old(self).assembler.current()->0.duplicates,
                )
            } else {
                scan is None
            },
    {
        self.packet_seen = true;
        match self.assembler.push(packet) {
            Some(revolution) => if revolution_publishable(revolution.packet_count) {
                Some(revolution)
            } else {
                None
            },
            None => None,
        }
    }
}

/// Where the LDS worker stands.
#[derive(Debug, Clone, Copy, PartialEq, Eq, Structural)]
pub enum LdsPhase {
    /// The start of a pass: is the driver shutting down, and does the motor run?
    Looking,
    /// Are there bytes?
    Polling,
    /// Zero speed is being handed to the motor controller.
    ZeroFeeding,
    Reading,
    /// The next packet that was read.
    PacketNext,
    /// The speed of a packet is being handed to the motor controller.
    PacketFeeding,
    Closed,
}

/// What happened.
#[derive(Debug)]
pub enum LdsEvent {
    Looked { shutdown: bool, running: bool },
    /// Whether there are bytes to be read.
    Polled(Result<bool, Error>),
    /// The bytes that were read.
    Received(Result<Vec<u8>, Error>),
    /// The speed was handed over, or not.
    Fed(Result<(), Error>),
    Proceed,
}

/// What to do now.
#[derive(Debug)]
pub enum LdsRequest {
    /// Look whether the driver is shutting down and whether the motor runs.
    Look,
    /// Wait for bytes, 50 ms at most.
    Poll,
    /// Read what is there.
    Read,
    /// Hand this speed to the motor controller.
    Feed(i32),
    /// Nothing: go on.
    Continue,
    /// End, with this result.
    Finish(Result<(), Error>),
}

/// The event answers what was asked for in this phase.
pub open spec fn answers(phase: LdsPhase, event: LdsEvent) -> bool {
    match phase {
        LdsPhase::Looking => event is Looked,
        LdsPhase::Polling => event is Polled,
        LdsPhase::ZeroFeeding => event is Fed,
        LdsPhase::Reading => event is Received,
        LdsPhase::PacketNext => event is Proceed,
        LdsPhase::PacketFeeding => event is Fed,
        LdsPhase::Closed => false,
    }
}

/// The LDS worker, step by step.
pub struct LdsRun {
    pub phase: LdsPhase,
    pub worker: LdsWorker,
    /// Whether the motor ran at the start of the pass.
    pub running: bool,
    /// When the pass started.
    pub now: u64,
    /// The packets that were read in this pass, and how many were dealt with.
    pub packets: Vec<LdsPacket>,
    pub at: usize,
}

/// The revolution that a packet ends is complete enough to be published.
pub open spec fn ends_scan(current: Option<RevolutionView>, index: u8) -> bool {
    revolution::wraps(current, index) && current->0.kept.len() >= MIN_PUBLISHABLE_PACKETS
}

/// A packet was taken in, and a revolution that it ended was published.
pub open spec fn packet_taken(
    w: LdsWorker,
    g: SensorGroupData,
    packet: LdsPacket,
    clock: u64,
    w2: LdsWorker,
    g2: SensorGroupData,
) -> bool {
    let current = w.assembler.current();
    &&& w2 == (LdsWorker { assembler: w2.assembler, packet_seen: true, ..w })
    &&& w2.assembler.current() == Some(revolution::assembled(current, packet@))
    &&& if ends_scan(current, packet.index) {
        &&& g2.name == g.name
        &&& g2.last_update == Some(clock)
        &&& exists|r: LdsRevolution| #[trigger]
            r.made_from(current->0.kept, current->0.duplicates) && g2.values@ == with_scan(
                g.values@,
                r,
            )
    } else {
        g2 == g
    }
}

/// The worker after the start of a pass.
pub open spec fn pass_begun(w: LdsWorker, running: bool, now: u64) -> LdsWorker {
    LdsWorker {
        motor_started: if !running {
            None
        } else if w.motor_started is None {
            Some(now)
        } else {
            w.motor_started
        },
        packet_seen: w.packet_seen && (running || w.motor_started is None),
        ..w
    }
}

/// Only the phase changes.
pub open spec fn turns(
    r: LdsRun,
    g: SensorGroupData,
    phase: LdsPhase,
    r2: LdsRun,
    g2: SensorGroupData,
) -> bool {
    r2 == (LdsRun { phase, ..r }) && g2 == g
}

/// The worker ends with this failure.
pub open spec fn gives_up(
    r: LdsRun,
    g: SensorGroupData,
    e: Error,
    r2: LdsRun,
    g2: SensorGroupData,
    request: LdsRequest,
) -> bool {
    turns(r, g, LdsPhase::Closed, r2, g2) && request == LdsRequest::Finish(Err(e))
}

/// What one step of the LDS worker does.
pub open spec fn lds_step(
    r: LdsRun,
    g: SensorGroupData,
    event: LdsEvent,
    clock: u64,
    r2: LdsRun,
    g2: SensorGroupData,
    request: LdsRequest,
) -> bool {
    match event {
        LdsEvent::Looked { shutdown, running } => if shutdown {
            &&& turns(r, g, LdsPhase::Closed, r2, g2)
            &&& request matches LdsRequest::Finish(result) && result is Ok
        } else {
            &&& r2 == (LdsRun {
                phase: LdsPhase::Polling,
                worker: pass_begun(r.worker, running, clock),
                running,
                now: clock,
                ..r
            })
            &&& g2 == g
            &&& request is Poll
        },
        LdsEvent::Polled(Ok(readable)) => if readable {
            turns(r, g, LdsPhase::Reading, r2, g2) && request is Read
        } else if feedback_due(
            r.running,
            r.worker.packet_seen,
            r.worker.motor_started,
            r.worker.last_feedback,
            r.now,
        ) {
            turns(r, g, LdsPhase::ZeroFeeding, r2, g2) && request == LdsRequest::Feed(0)
        } else {
            turns(r, g, LdsPhase::Looking, r2, g2) && request is Look
        },
        LdsEvent::Polled(Err(e)) => gives_up(r, g, e, r2, g2, request),
        LdsEvent::Received(Ok(bytes)) => {
            let found = lds::decoded(r.worker.decoder.pending() + bytes@);
            &&& r2 == (LdsRun {
                phase: LdsPhase::PacketNext,
                worker: LdsWorker { decoder: r2.worker.decoder, ..r.worker },
                packets: r2.packets,
                at: 0,
                ..r
            })
            &&& lds::packet_views(r2.packets@) == found.packets
            &&& r2.worker.decoder.pending() == found.rest
            &&& r2.worker.decoder.lost() == r.worker.decoder.lost() + found.discarded
            &&& g2 == g
            &&& request is Continue
        },
        LdsEvent::Received(Err(e)) => gives_up(r, g, e, r2, g2, request),
        LdsEvent::Fed(Err(e)) => gives_up(r, g, e, r2, g2, request),
        LdsEvent::Fed(Ok(())) => if r.phase == LdsPhase::ZeroFeeding {
            &&& r2 == (LdsRun {
                phase: LdsPhase::Looking,
                worker: LdsWorker { last_feedback: clock, ..r.worker },
                ..r
            })
            &&& g2 == g
            &&& request is Look
        } else {
            &&& r2 == (LdsRun {
                phase: LdsPhase::PacketNext,
                worker: r2.worker,
                at: (r.at + 1) as usize,
                ..r
            })
            &&& packet_taken(
                LdsWorker { last_feedback: clock, ..r.worker },
                g,
                r.packets@[r.at as int],
                clock,
                r2.worker,
                g2,
            )
            &&& request is Continue
        },
        LdsEvent::Proceed => if r.at >= r.packets@.len() {
            turns(r, g, LdsPhase::Looking, r2, g2) && request is Look
        } else if r.running {
            &&& turns(r, g, LdsPhase::PacketFeeding, r2, g2)
            &&& request == LdsRequest::Feed(rpm_x100(r.packets@[r.at as int].speed_raw) as i32)
        } else {
            &&& r2 == (LdsRun { worker: r2.worker, at: (r.at + 1) as usize, ..r })
            &&& packet_taken(
                r.worker,
                g,
                r.packets@[r.at as int],
                clock,
                r2.worker,
                g2,
            )
            &&& request is Continue
        },
    }
}

/// The motor controller is told a speed only while the motor runs: that of a packet,
/// or zero once the rotor had its time; and a packet is taken in only after its speed
/// was told.
pub proof fn feedback_follows_the_rotor(
    r: LdsRun,
    g: SensorGroupData,
    event: LdsEvent,
    clock: u64,
    r2: LdsRun,
    g2: SensorGroupData,
    request: LdsRequest,
)
    requires
        r.wf(),
        answers(r.phase, event),
        lds_step(r, g, event, clock, r2, g2, request),
    ensures
        request is Feed ==> r.running,
        request is Feed && !r.worker.packet_seen && r.phase == LdsPhase::Polling ==> (
        r.worker.motor_started matches Some(started) && r.now - started
            >= COLD_START_FEEDBACK_GRACE),
        r.phase == LdsPhase::PacketNext && r.running ==> r2.worker == r.worker && g2 == g,
        g2 != g ==> r.at < r.packets@.len() && ends_scan(
            r.worker.assembler.current(),
            r.packets@[r.at as int].index,
        ),
{
}

/// While the motor runs, each packet has its own speed told, to the nearest hundredth
/// of an RPM, before it is taken in; told or not, it is then taken in, and from then on
/// a packet counts as seen. A revolution is published only at the packet whose index
/// lies below the one before it, and only if 75 packets or more were kept of it.
pub proof fn packets_are_told_and_taken(
    r: LdsRun,
    g: SensorGroupData,
    event: LdsEvent,
    clock: u64,
    r2: LdsRun,
    g2: SensorGroupData,
    request: LdsRequest,
)
    requires
        r.wf(),
        answers(r.phase, event),
        r.at < r.packets@.len(),
        r.phase == LdsPhase::PacketNext || r.phase == LdsPhase::PacketFeeding,
        lds_step(r, g, event, clock, r2, g2, request),
    ensures
        r.phase == LdsPhase::PacketNext && r.running ==> r2.phase == LdsPhase::PacketFeeding && r2.at
            == r.at && (request matches LdsRequest::Feed(speed) && 64 * speed - 32 <= 100
            * r.packets@[r.at as int].speed_raw < 64 * speed + 32),
        (r.phase == LdsPhase::PacketNext && !r.running) || (r.phase == LdsPhase::PacketFeeding
            && event matches LdsEvent::Fed(Ok(_))) ==> {
            let packet = r.packets@[r.at as int];
            let current = r.worker.assembler.current();
            &&& r2.phase == LdsPhase::PacketNext && r2.at == r.at + 1 && r2.packets == r.packets
            &&& r2.worker.packet_seen
            &&& r2.worker.last_feedback == if r.phase == LdsPhase::PacketFeeding {
                clock
            } else {
                r.worker.last_feedback
            }
            &&& r2.worker.assembler.current() matches Some(now) && now.last == Some(packet.index)
            &&& if current matches Some(m) && m.last matches Some(last) && packet.index < last
                && m.kept.len() >= 75 {
                &&& g2.last_update == Some(clock)
                &&& g2.values@.contains_pair(
                    "scan"@,
                    SensorValueView::PointCloud2D(
                        points_of(revolution::samples_of(current->0.kept)),
                    ),
                )
            } else {
                g2 == g
            }
        },
{
    let current = r.worker.assembler.current();
    assert(r.at < r.packets.len());
    let taken = (r.phase == LdsPhase::PacketNext && !r.running) || (r.phase
        == LdsPhase::PacketFeeding && event matches LdsEvent::Fed(Ok(_)));
    if taken && ends_scan(current, r.packets@[r.at as int].index) {
        let made = choose|made: LdsRevolution| #[trigger]
            made.made_from(current->0.kept, current->0.duplicates) && g2.values@ == with_scan(
                g.values@,
                made,
            );
        published_scan(g.values@, made);
    }
}

/// What a pass does before there are packets. A shutdown ends it well. Else the start
/// of the motor is noted once and forgotten when it stops, and with it that packets
/// came. Bytes are read when there are some; without them zero is told after 50 ms of
/// silence, once the rotor has turned or had its three seconds. Any failure ends the
/// worker with that failure.
pub proof fn passes_look_poll_and_read(
    r: LdsRun,
    g: SensorGroupData,
    event: LdsEvent,
    clock: u64,
    r2: LdsRun,
    g2: SensorGroupData,
    request: LdsRequest,
)
    requires
        r.wf(),
        answers(r.phase, event),
        lds_step(r, g, event, clock, r2, g2, request),
    ensures
        event matches LdsEvent::Looked { shutdown, running } ==> {
            &&& g2 == g
            &&& if shutdown {
                r2.phase == LdsPhase::Closed && (request matches LdsRequest::Finish(result)
                    && result is Ok)
            } else {
                &&& r2.phase == LdsPhase::Polling && request is Poll
                &&& r2.running == running && r2.now == clock
                &&& !running ==> r2.worker.motor_started is None
                &&& running ==> r2.worker.motor_started == Some(
                    match r.worker.motor_started {
                        Some(started) => started,
                        None => clock,
                    },
                )
                &&& !running && r.worker.motor_started is Some ==> !r2.worker.packet_seen
                &&& running || r.worker.motor_started is None ==> r2.worker.packet_seen
                    == r.worker.packet_seen
            }
        },
        event matches LdsEvent::Polled(Ok(readable)) ==> {
            let silent = r.running && r.now >= r.worker.last_feedback + 50_000_000 && (
            r.worker.packet_seen || (r.worker.motor_started matches Some(started) && r.now >= started
                + 3_000_000_000));
            &&& g2 == g && r2.worker == r.worker
            &&& readable ==> r2.phase == LdsPhase::Reading && request is Read
            &&& !readable && silent ==> r2.phase == LdsPhase::ZeroFeeding && request
                == LdsRequest::Feed(0)
            &&& !readable && !silent ==> r2.phase == LdsPhase::Looking && request is Look
        },
        event matches LdsEvent::Received(Ok(_)) ==> r2.phase == LdsPhase::PacketNext && r2.at == 0
            && g2 == g && request is Continue,
        event matches LdsEvent::Polled(Err(e)) ==> r2.phase == LdsPhase::Closed && g2 == g && request
            == LdsRequest::Finish(Err(e)),
        event matches LdsEvent::Received(Err(e)) ==> r2.phase == LdsPhase::Closed && g2 == g
            && request == LdsRequest::Finish(Err(e)),
        event matches LdsEvent::Fed(Err(e)) ==> r2.phase == LdsPhase::Closed && g2 == g && request
            == LdsRequest::Finish(Err(e)),
        event matches LdsEvent::Fed(Ok(_)) ==> r2.worker.last_feedback == clock,
{
}

impl LdsRun {
    pub open spec fn wf(&self) -> bool {
        &&& self.worker.wf()
        &&& self.at <= self.packets@.len()
        &&& self.phase == LdsPhase::PacketFeeding ==> self.at < self.packets@.len()
        &&& forall|i: int|
            0 <= i < self.packets@.len() ==> INDEX_MIN <= (#[trigger] self.packets@[i]).index
                <= INDEX_MAX
    }

    /// The counters have room for `received` more bytes and for one more packet.
    pub open spec fn room(&self, received: nat) -> bool {
        &&& self.worker.decoder.lost() + self.worker.decoder.pending().len() + received <= u64::MAX
        &&& self.worker.assembler.current() matches Some(m) ==> m.duplicates < usize::MAX
    }

    /// Whether the counters have room for `received` more bytes and for one more
    /// packet.
    pub fn has_room(&self, received: usize) -> (yes: bool)
        ensures
            yes == self.room(received as nat),
    {
        self.worker.decoder.can_receive(received) && self.worker.assembler.duplicate_packets()
            < usize::MAX
    }

    pub fn begin(now: u64) -> (started: (Self, LdsRequest))
        ensures
            started.0.wf(),
            started.0.phase == LdsPhase::Looking,
            !started.0.running,
            started.0.now == now,
            started.0.packets@ == Seq::<LdsPacket>::empty(),
            started.0.at == 0,
            started.0.worker.decoder.pending() == Seq::<u8>::empty(),
            started.0.worker.decoder.lost() == 0,
            started.0.worker.assembler.current() is None,
            started.0.worker.motor_started is None,
            !started.0.worker.packet_seen,
            started.0.worker.last_feedback == now,
            started.1 is Look,
    {
        let run = LdsRun {
            phase: LdsPhase::Looking,
            worker: LdsWorker::new(now),
            running: false,
            now,
            packets: Vec::new(),
            at: 0,
        };
        (run, LdsRequest::Look)
    }

    fn close(&mut self, result: Result<(), Error>) -> (request: LdsRequest)
        ensures
            *final(self) == (LdsRun { phase: LdsPhase::Closed, ..*old(self) }),
            request == LdsRequest::Finish(result),
    {
        self.phase = LdsPhase::Closed;
        LdsRequest::Finish(result)
    }

    /// Takes in the packet at hand, and publishes a revolution that it ends.
    fn take_packet(&mut self, group: &mut SensorGroupData, clock: u64)
        requires
            old(self).wf(),
            old(self).at < old(self).packets@.len(),
            old(self).room(0),
        ensures
            final(self).worker.wf(),
            *final(self) == (LdsRun {
                worker: final(self).worker,
                at: (old(self).at + 1) as usize,
                ..*old(self)
            }),
            packet_taken(
                old(self).worker,
                *old(group),
                old(self).packets@[old(self).at as int],
                clock,
                final(self).worker,
                *final(group),
            ),
    {
        assert(self.at < self.packets.len());
        let packet = self.packets[self.at];
        self.at += 1;
        if let Some(revolution) = self.worker.accept(packet) {
            publish_revolution(group, &revolution, clock);
        }
    }

    /// Goes on after what happened last.
    pub fn step(&mut self, group: &mut SensorGroupData, event: LdsEvent, clock: u64) -> (request:
        LdsRequest)
        requires
            old(self).wf(),
            answers(old(self).phase, event),
            old(self).room(
                match event {
                    LdsEvent::Received(Ok(bytes)) => bytes@.len(),
                    _ => 0,
                },
            ),
        ensures
            final(self).wf(),
            lds_step(
                *old(self),
                *old(group),
                event,
                clock,
                *final(self),
                *final(group),
                request,
            ),
    {
        match event {
            LdsEvent::Looked { shutdown, running } => {
                if shutdown {
                    return self.close(Ok(()));
                }
                self.now = clock;
                self.running = running;
                self.worker.begin_pass(running, clock);
                self.phase = LdsPhase::Polling;
                LdsRequest::Poll
            },
            LdsEvent::Polled(Ok(readable)) => {
                if readable {
                    self.phase = LdsPhase::Reading;
                    LdsRequest::Read
                } else if self.worker.quiet_feedback_due(self.running, self.now) {
                    self.phase = LdsPhase::ZeroFeeding;
                    LdsRequest::Feed(0)
                } else {
                    self.phase = LdsPhase::Looking;
                    LdsRequest::Look
                }
            },
            LdsEvent::Polled(Err(error)) => self.close(Err(error)),
            LdsEvent::Received(Ok(bytes)) => {
                self.packets = self.worker.receive(bytes.as_slice());
                self.at = 0;
                self.phase = LdsPhase::PacketNext;
                LdsRequest::Continue
            },
            LdsEvent::Received(Err(error)) => self.close(Err(error)),
            LdsEvent::Fed(Err(error)) => self.close(Err(error)),
            LdsEvent::Fed(Ok(())) => {
                self.worker.fed(clock);
                if self.phase == LdsPhase::ZeroFeeding {
                    self.phase = LdsPhase::Looking;
                    LdsRequest::Look
                } else {
                    self.take_packet(group, clock);
                    self.phase = LdsPhase::PacketNext;
                    LdsRequest::Continue
                }
            },
            LdsEvent::Proceed => {
                if self.at >= self.packets.len() {
                    self.phase = LdsPhase::Looking;
                    LdsRequest::Look
                } else if self.running {
                    let speed = speed_feedback_rpm_x100(self.packets[self.at].speed_raw);
                    self.phase = LdsPhase::PacketFeeding;
                    LdsRequest::Feed(speed)
                } else {
                    self.take_packet(group, clock);
                    LdsRequest::Continue
                }
            },
        }
    }
}

} // verus!
