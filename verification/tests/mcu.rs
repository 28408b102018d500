use crossbeam_channel::bounded;
use crossbeam_channel::TryRecvError;
use roborock_s5max::acks::AckRetryWindow;
use roborock_s5max::acks::CommandAckTracker;
use roborock_s5max::acks::RecentAckRequests;
use roborock_s5max::acks::ACK_TIMEOUT;
use roborock_s5max::commands::acknowledgement_frame;
use roborock_s5max::commands::fan_command_frame;
use roborock_s5max::commands::heartbeat_frame;
use roborock_s5max::commands::main_brush_command_frame;
use roborock_s5max::commands::sensor_sync_query_frame;
use roborock_s5max::commands::side_brush_command_frame;
use roborock_s5max::commands::subsystem_state_frame;
use roborock_s5max::commands::water_pump_command_frame;
use roborock_s5max::commands::wheel_command_frame;
use roborock_s5max::commands::WHEEL_ODOMETRY_SUBSYSTEM;
use roborock_s5max::error::Error;
use roborock_s5max::frame::encode_binary_frame;
use roborock_s5max::guard::ordered_stop_frames;
use roborock_s5max::guard::ActuatorCommand;
use roborock_s5max::lifecycle::Lifecycle;
use roborock_s5max::packet::Frame;
use roborock_s5max::safety::ActuatorTargets;
use roborock_s5max::safety::SafetyController;
use roborock_s5max::sensors::SensorGroups;
use roborock_s5max::session::contains_sensor_snapshot;
use roborock_s5max::session::notify_startup;
use roborock_s5max::session::Action;
use roborock_s5max::session::Event;
use roborock_s5max::session::Session;
use roborock_s5max::session::World;
use std::collections::VecDeque;

const MILLISECOND: u64 = 1_000_000;
const START: u64 = 10_000_000_000;

#[test]
fn matches_command_acknowledgements_by_sequence() {
    let mut tracker = CommandAckTracker::default();
    let now = START;
    tracker.expect(0x42, &[0x42], now);
    tracker.expect(0x43, &[0x43], now);
    tracker.acknowledge(0x43);
    tracker.acknowledge(0x42);
    assert!(!tracker.still_waiting(&[0x42, 0x43]));
    tracker.wait_for_all(&[0x42, 0x43]).unwrap();
}

#[test]
fn rejects_a_missing_command_acknowledgement() {
    let mut tracker = CommandAckTracker::default();
    tracker.expect(0x42, &[0x42], START);
    assert!(tracker.still_waiting(&[0x42]));
    let error = tracker.wait_for_all(&[0x42]).unwrap_err();
    assert!(error.message().contains("42"));
}

#[test]
fn retries_an_unacknowledged_command_twice() {
    let mut tracker = CommandAckTracker::default();
    let start = START;
    tracker.expect(0x42, &[0xaa, 0x42], start);
    assert!(tracker.take_due_retries(start).is_empty());
    assert_eq!(
        tracker.take_due_retries(start + ACK_TIMEOUT),
        vec![(0x42, vec![0xaa, 0x42], 2)]
    );
    assert_eq!(
        tracker.take_due_retries(start + ACK_TIMEOUT * 2),
        vec![(0x42, vec![0xaa, 0x42], 3)]
    );
    assert!(tracker.take_due_retries(start + ACK_TIMEOUT * 3).is_empty());
}

#[test]
fn deduplicates_only_exact_recent_ack_requests() {
    let mut tracker = RecentAckRequests::default();
    assert!(!tracker.is_duplicate(10, 0x44, &[0x20, 0x02, 0x01, 0x00]));
    assert!(tracker.is_duplicate(12, 0x44, &[0x20, 0x02, 0x01, 0x00]));
    assert!(!tracker.is_duplicate(13, 0x44, &[0x24, 0x02, 0x01, 0x00]));
    assert!(!tracker.is_duplicate(140, 0x44, &[0x20, 0x02, 0x01, 0x00]));
}

#[test]
fn requires_the_complete_startup_snapshot_shape() {
    let frame = |payload| Frame {
        raw: Vec::new(),
        payload,
        escape_overhead: 0,
        message: 0x0b,
        command: 0x08,
        crc: 0,
        crc_valid: true,
        is_log: false,
    };
    let complete = frame(vec![
        0x20, 2, 1, 0, 0x08, 10, 0, 0, 0, 0, 0, 0, 0, 0, 0, 0, 0x24, 2, 0, 0, 0x0f, 2, 0, 0,
    ]);
    assert!(contains_sensor_snapshot(&complete));

    let incomplete = frame(vec![
        0x20, 2, 1, 0, 0x08, 10, 0, 0, 0, 0, 0, 0, 0, 0, 0, 0, 0x24, 2, 0, 0,
    ]);
    assert!(!contains_sensor_snapshot(&incomplete));
}

#[test]
fn ordered_stop_set_attempts_every_actuator_and_advances_sequence() {
    let (records, next_sequence) = ordered_stop_frames(0xfd);
    assert_eq!(next_sequence, 0x03);
    assert_eq!(records[0].0, "forced zero-wheel stop");
    assert_eq!(
        records[0].1.as_ref().unwrap(),
        &wheel_command_frame(0xfd, 0.0f32.to_bits(), 0.0f32.to_bits(), true).unwrap()
    );
    assert_eq!(
        records[1].1.as_ref().unwrap(),
        &fan_command_frame(0xfe, 0).unwrap()
    );
    assert_eq!(
        records[2].1.as_ref().unwrap(),
        &side_brush_command_frame(0xff, 0, false).unwrap()
    );
    assert_eq!(
        records[3].1.as_ref().unwrap(),
        &main_brush_command_frame(0x01, 0, false).unwrap()
    );
    assert_eq!(
        records[4].1.as_ref().unwrap(),
        &water_pump_command_frame(0x02, 0, 0).unwrap()
    );
}

#[test]
fn exhausts_three_attempts_when_an_ack_is_lost() {
    let start = START;
    let mut retry = AckRetryWindow::after_initial_send(start);
    assert!(!retry.take_retry(start + ACK_TIMEOUT - MILLISECOND));
    assert!(retry.take_retry(start + ACK_TIMEOUT));
    assert!(retry.take_retry(start + ACK_TIMEOUT * 2));
    assert!(!retry.exhausted(start + ACK_TIMEOUT * 3 - MILLISECOND));
    assert!(retry.exhausted(start + ACK_TIMEOUT * 3));
    assert!(!retry.take_retry(start + ACK_TIMEOUT * 4));
    assert_eq!(retry.attempts, 3);
}

#[test]
fn startup_shutdown_notification_is_delivered_only_once() {
    let (sender, receiver) = bounded::<Result<(), Error>>(1);
    let mut pending = true;
    for _ in 0..2 {
        if let Some(result) = notify_startup(&mut pending, Ok(())) {
            sender.send(result).unwrap();
        }
    }
    drop(sender);
    assert!(receiver.recv().unwrap().is_ok());
    assert!(matches!(
        receiver.try_recv(),
        Err(TryRecvError::Disconnected)
    ));
}

#[test]
fn missing_sequences_are_listed_in_hexadecimal() {
    let mut tracker = CommandAckTracker::new();
    tracker.expect(0x0a, &[1], 0);
    tracker.expect(0xfe, &[2], 0);
    tracker.expect(0x10, &[3], 0);
    tracker.acknowledge(0x10);
    assert_eq!(
        tracker.wait_for_all(&[0x0a, 0x10, 0xfe]).unwrap_err().message(),
        "MCU command ACK timeout; missing sequences [0a, fe]"
    );
    assert!(tracker.take_due_retries(ACK_TIMEOUT).is_empty());
    assert!(tracker.wait_for_all(&[]).is_ok());
    tracker.expect(0x0a, &[1], 0);
    tracker.cancel(0x0a);
    assert!(tracker.take_due_retries(ACK_TIMEOUT).is_empty());
}

#[test]
fn retries_come_by_sequence() {
    let mut tracker = CommandAckTracker::new();
    for sequence in [0x80u8, 0x02, 0xff, 0x01] {
        tracker.expect(sequence, &[sequence], 0);
    }
    tracker.acknowledge(0xff);
    let due: Vec<u8> = tracker.take_due_retries(ACK_TIMEOUT).iter().map(|r| r.0).collect();
    assert_eq!(due, [0x01, 0x02, 0x80]);
}

/// The other side of the session.
struct Bench {
    world: World,
    session: Session,
    clock: u64,
    incoming: VecDeque<Vec<u8>>,
    commands: VecDeque<ActuatorCommand>,
    broken: bool,
    passes: usize,
    written: Vec<Vec<u8>>,
    notices: Vec<Result<(), Error>>,
    replies: Vec<Result<Vec<u8>, Error>>,
    streamed: usize,
}

fn bench() -> Bench {
    Bench {
        world: World {
            safety: SafetyController::new(),
            lifecycle: Lifecycle::new(START),
            sensors: SensorGroups::create(0, 0, 0, START),
            acks: CommandAckTracker::new(),
        },
        session: Session::new(0x7e, START),
        clock: START,
        incoming: VecDeque::new(),
        commands: VecDeque::new(),
        broken: false,
        passes: 10,
        written: Vec::new(),
        notices: Vec::new(),
        replies: Vec::new(),
        streamed: 0,
    }
}

impl Bench {
    fn run(&mut self) -> Result<(), Error> {
        let mut event = Event::Proceed;
        loop {
            let action = self.session.step(&mut self.world, event, self.clock);
            event = match action {
                Action::Continue => Event::Proceed,
                Action::Write(frame) => {
                    self.written.push(frame);
                    if self.broken {
                        Event::WriteFailed(Error::Other("unplugged".to_string()))
                    } else {
                        Event::Written
                    }
                }
                Action::AskShutdown => {
                    if self.passes == 0 {
                        Event::Shutdown(true)
                    } else {
                        self.passes -= 1;
                        Event::Shutdown(false)
                    }
                }
                Action::AskCommand => Event::Command(self.commands.pop_front()),
                Action::Reply(result) => {
                    self.replies.push(result);
                    Event::Proceed
                }
                Action::Notify(result) => {
                    self.notices.push(result);
                    Event::Proceed
                }
                Action::Poll => {
                    self.clock += 20 * MILLISECOND;
                    Event::Polled(Ok(!self.incoming.is_empty()))
                }
                Action::Read => Event::Received(Ok(self.incoming.pop_front().unwrap())),
                Action::Stream(group) => {
                    assert_eq!(group.name, "sensor_status");
                    self.streamed += 1;
                    Event::Proceed
                }
                Action::Finish(result) => return result,
            };
        }
    }
}

fn ack_of(sequence: u8) -> Vec<u8> {
    encode_binary_frame(&[0xd1, 1, sequence]).unwrap()
}

fn snapshot(sequence: u8) -> Vec<u8> {
    encode_binary_frame(&[
        0x20, 2, 1, 0, 0x08, 10, 0, 0, 0, 0, 0, 0, 0, 0, 0, 0, 0x24, 2, 0, 0, 0x0f, 2, 0, 0, 0xd0,
        2, 1, sequence,
    ])
    .unwrap()
}

fn stop_set(first: u8) -> Vec<Vec<u8>> {
    let (records, _) = ordered_stop_frames(first);
    records.iter().map(|record| record.1.clone().unwrap()).collect()
}

#[test]
fn a_session_synchronizes_acknowledges_and_stops() {
    let mut bench = bench();
    bench.incoming.push_back(ack_of(0x80));
    bench.incoming.push_back(snapshot(0x31));
    bench.passes = 4;
    assert!(bench.run().is_ok());
    assert_eq!(bench.notices.len(), 1);
    assert!(bench.notices[0].is_ok());
    let mut expected = vec![
        heartbeat_frame(0x7f).unwrap(),
        sensor_sync_query_frame(0x80).unwrap(),
        acknowledgement_frame(0x81, 0x31).unwrap(),
    ];
    expected.extend(stop_set(0x82));
    assert_eq!(bench.written, expected);
    assert_eq!(bench.world.sensors.dock_state(), 1);
}

#[test]
fn a_repeated_report_is_acknowledged_again() {
    let mut bench = bench();
    bench.incoming.push_back(ack_of(0x80));
    bench.incoming.push_back(snapshot(0x31));
    bench.incoming.push_back(snapshot(0x31));
    bench.passes = 5;
    assert!(bench.run().is_ok());
    assert_eq!(bench.written[2], acknowledgement_frame(0x81, 0x31).unwrap());
    assert_eq!(bench.written[3], acknowledgement_frame(0x82, 0x31).unwrap());
}

#[test]
fn a_silent_mcu_gets_three_synchronizations() {
    let mut bench = bench();
    assert_eq!(
        bench.run().unwrap_err().message(),
        "MCU sensor-sync acknowledgement exhausted"
    );
    let sync = sensor_sync_query_frame(0x80).unwrap();
    assert_eq!(bench.written.iter().filter(|frame| **frame == sync).count(), 3);
    assert_eq!(
        bench.notices[0].as_ref().unwrap_err().message(),
        "MCU did not acknowledge sensor sync after 3 attempts"
    );
    assert_eq!(bench.written[bench.written.len() - 5..], stop_set(0x81));
}

#[test]
fn a_startup_without_snapshot_times_out() {
    let mut bench = bench();
    bench.incoming.push_back(ack_of(0x80));
    bench.passes = 100;
    assert_eq!(
        bench.run().unwrap_err().message(),
        "MCU startup timed out waiting for sensor snapshot"
    );
    assert_eq!(bench.notices.len(), 1);
}

#[test]
fn a_shutdown_during_startup_is_told() {
    let mut bench = bench();
    bench.passes = 0;
    assert!(bench.run().is_ok());
    assert_eq!(
        bench.notices[0].as_ref().unwrap_err().message(),
        "MCU shutdown during startup"
    );
}

#[test]
fn stale_safety_reports_end_the_session() {
    let mut bench = bench();
    bench.incoming.push_back(ack_of(0x80));
    bench.incoming.push_back(snapshot(0x31));
    bench.passes = 100;
    assert_eq!(
        bench.run().unwrap_err().message(),
        "S5 Max safety reports stale for more than 500ms"
    );
}

#[test]
fn a_broken_uart_is_tried_with_two_stop_sets() {
    let mut bench = bench();
    bench.broken = true;
    let error = bench.run().unwrap_err();
    assert_eq!(
        error.message(),
        "unplugged; ordered safety stop also failed: forced zero-wheel stop: unplugged; \
         hard fan stop: unplugged; side-brush stop: unplugged; main-brush stop: unplugged; \
         water-pump stop: unplugged"
    );
    assert_eq!(bench.written.len(), 11);
    assert_eq!(bench.written[1..6], stop_set(0x80));
    assert_eq!(bench.written[6..11], stop_set(0x85));
}

#[test]
fn commands_are_answered_with_their_sequences() {
    let mut bench = bench();
    let speed = 1.25f32.to_bits();
    bench.incoming.push_back(ack_of(0x80));
    bench.incoming.push_back(snapshot(0x31));
    bench.commands.push_back(ActuatorCommand::Drive { linear: speed, angular: 0 });
    bench.commands.push_back(ActuatorCommand::Drive { linear: speed, angular: 0 });
    bench.commands.push_back(ActuatorCommand::Fan(40));
    bench.passes = 1;
    assert!(bench.run().is_ok());
    let replies: Vec<Vec<u8>> = bench.replies.into_iter().map(|reply| reply.unwrap()).collect();
    assert_eq!(replies, [vec![0x81], vec![], vec![0x84, 0x85]]);
    assert_eq!(
        bench.written[2],
        subsystem_state_frame(0x81, WHEEL_ODOMETRY_SUBSYSTEM, true).unwrap()
    );
    assert_eq!(bench.written[3], wheel_command_frame(0x82, speed, 0, false).unwrap());
    assert_eq!(bench.written[4], wheel_command_frame(0x83, speed, 0, false).unwrap());
    assert_eq!(bench.written[6], fan_command_frame(0x85, 40).unwrap());
    assert_eq!(bench.world.safety.targets(), ActuatorTargets::default());
}

#[test]
fn a_neglected_drive_is_stopped() {
    let mut bench = bench();
    bench.incoming.push_back(ack_of(0x80));
    bench.incoming.push_back(snapshot(0x31));
    bench.commands.push_back(ActuatorCommand::Drive { linear: 0, angular: 0x3f80_0000 });
    bench.passes = 25;
    assert!(bench.run().is_ok());
    let forced: Vec<&Vec<u8>> =
        bench.written.iter().filter(|frame| frame[7] == 0xc0 && frame[17] == 1).collect();
    // One for the lease, one in the last stop set.
    assert_eq!(forced.len(), 2);
}

#[test]
fn a_command_that_cannot_be_encoded_ends_the_session() {
    let mut bench = bench();
    bench.commands.push_back(ActuatorCommand::EnableSubsystem(0x300));
    assert_eq!(bench.run().unwrap_err().message(), "S5 Max actuator command failed");
    assert!(bench.replies[0].is_err());
}

#[test]
fn state_reports_are_streamed_and_keep_the_session_alive() {
    let mut bench = bench();
    let mut payload = vec![0x07, 0x40];
    payload.resize(66, 0);
    payload.extend([0xd0, 2, 0, 9]);
    let state = encode_binary_frame(&payload).unwrap();
    bench.incoming.push_back(ack_of(0x80));
    bench.incoming.push_back(snapshot(0x31));
    for _ in 0..40 {
        bench.incoming.push_back(state.clone());
    }
    bench.passes = 45;
    assert!(bench.run().is_ok());
    assert_eq!(bench.streamed, 40);
    assert!(bench.world.lifecycle.safety_reports_fresh(bench.clock));
    let beat = heartbeat_frame(0x82).unwrap();
    assert!(!bench.written.contains(&beat));
}

#[test]
fn a_heartbeat_goes_out_each_second() {
    let mut bench = bench();
    let mut payload = vec![0x07, 0x40];
    payload.resize(66, 0);
    let state = encode_binary_frame(&payload).unwrap();
    bench.incoming.push_back(ack_of(0x80));
    bench.incoming.push_back(snapshot(0x31));
    for _ in 0..200 {
        bench.incoming.push_back(state.clone());
    }
    bench.passes = 160;
    assert!(bench.run().is_ok());
    let beats: Vec<&Vec<u8>> = bench.written.iter().filter(|frame| frame[7] == 0xd3).collect();
    assert_eq!(
        beats,
        [
            &heartbeat_frame(0x7f).unwrap(),
            &heartbeat_frame(0x82).unwrap(),
            &heartbeat_frame(0x83).unwrap(),
            &heartbeat_frame(0x84).unwrap(),
        ]
    );
}

#[test]
fn an_unanswered_command_is_sent_three_times_alike() {
    let mut bench = bench();
    bench.incoming.push_back(ack_of(0x80));
    bench.incoming.push_back(snapshot(0x31));
    bench.commands.push_back(ActuatorCommand::Charger(true));
    bench.passes = 20;
    assert!(bench.run().is_ok());
    let sent: Vec<&Vec<u8>> = bench.written.iter().filter(|frame| frame[7] == 0xb7).collect();
    assert_eq!(sent.len(), 3);
    assert_eq!(sent[0], sent[1]);
    assert_eq!(sent[0], sent[2]);
    assert!(bench.world.acks.still_waiting(&[0x81]));
}

#[test]
fn retries_are_told_by_the_history_of_a_command() {
    let mut tracker = CommandAckTracker::new();
    tracker.expect(0x42, &[1, 2], START);
    tracker.expect(0x50, &[3], START);
    tracker.cancel(0x50);
    tracker.acknowledge(0x51);
    assert!(tracker.take_due_retries(START + ACK_TIMEOUT - 1).is_empty());
    // A late look moves the next retry, too.
    let late = START + 3 * ACK_TIMEOUT;
    assert_eq!(tracker.take_due_retries(late), vec![(0x42, vec![1, 2], 2)]);
    assert!(tracker.take_due_retries(late + ACK_TIMEOUT - 1).is_empty());
    tracker.acknowledge(0x42);
    assert!(tracker.take_due_retries(late + ACK_TIMEOUT).is_empty());
}
