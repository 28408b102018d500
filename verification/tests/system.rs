use roborock_s5max::acks::CommandAckTracker;
use roborock_s5max::error::Error;
use roborock_s5max::guard::ActuatorCommand;
use roborock_s5max::handoff::find_load_bias;
use roborock_s5max::handoff::library_bias;
use roborock_s5max::handoff::parse_hex;
use roborock_s5max::handoff::pid_argument;
use roborock_s5max::handoff::read_failure;
use roborock_s5max::handoff::seek_failure;
use roborock_s5max::handoff::sequence_address;
use roborock_s5max::lds_motor::MotorState;
use roborock_s5max::lds_motor::LDS_MOTOR_STOP;
use roborock_s5max::lifecycle::DriverState;
use roborock_s5max::lifecycle::Lifecycle;
use roborock_s5max::safety::SafetyController;
use roborock_s5max::sensors::SensorGroups;
use roborock_s5max::session::World;
use roborock_s5max::text::decimal_text;
use roborock_s5max::text::short_hexadecimal_text;
use roborock_s5max::text::trim;
use roborock_s5max::tty::ensure_devices_unowned;
use roborock_s5max::tty::entry_number;
use roborock_s5max::tty::poll_outcome;
use roborock_s5max::tty::process_name;
use roborock_s5max::tty::select_owners;
use roborock_s5max::tty::DeviceOwner;
use roborock_s5max::tty::WriteEvent;
use roborock_s5max::tty::WriteRequest;
use roborock_s5max::tty::WriteRun;
use roborock_s5max::tty::WRITE_TIMEOUT;
use roborock_s5max::watchdog::WatchdogEvent;
use roborock_s5max::watchdog::WatchdogRequest;
use roborock_s5max::watchdog::WatchdogRun;
use roborock_s5max::watchdog::WatchdogStart;
use roborock_s5max::watchdog::WatchdogStartEvent;
use roborock_s5max::watchdog::WatchdogStartRequest;
use roborock_s5max::watchdog::KEEPALIVE_INTERVAL;
use roborock_s5max::worker::worker_ended;
use roborock_s5max::worker::ExecuteEvent;
use roborock_s5max::worker::ExecuteRequest;
use roborock_s5max::worker::ExecuteRun;
use roborock_s5max::worker::McuStart;
use roborock_s5max::worker::McuStartEvent;
use roborock_s5max::worker::McuStartRequest;
use roborock_s5max::worker::Worker;

fn owner(pid: i32, fd: i32, process: &str, device: &str) -> DeviceOwner {
    DeviceOwner {
        pid,
        fd,
        process: process_name(Some(process)),
        device: device.to_string(),
    }
}

#[test]
fn reports_all_selected_device_owners() {
    let found = vec![
        owner(490, 60, "rr_loader\n", "/dev/ttyS1"),
        owner(490, 59, "rr_loader\n", "/dev/uart_mcu"),
        owner(490, 58, "rr_loader\n", "/dev/ttyS2"),
    ];
    let devices = vec!["/dev/ttyS2".to_string(), "/dev/uart_mcu".to_string()];

    let owners = select_owners(found, &devices);
    assert_eq!(owners.len(), 2);
    assert_eq!(owners[0].process, "rr_loader");
    assert_eq!(owners[0].fd, 58);
    assert_eq!(owners[1].device, "/dev/uart_mcu");
}

#[test]
fn owners_are_named_in_order() {
    let found = vec![
        owner(12, 1, "b", "/dev/x"),
        owner(3, 7, "a", "/dev/x"),
        owner(12, 0, "c", "/dev/x"),
        owner(12, 0, "d", "/dev/x"),
    ];
    let owners = select_owners(found, &vec!["/dev/x".to_string()]);
    assert_eq!(
        ensure_devices_unowned(&owners).unwrap_err().message(),
        "S5 Max hardware is already owned: pid=3 process=a fd=7 device=/dev/x; \
         pid=12 process=c fd=0 device=/dev/x; pid=12 process=d fd=0 device=/dev/x; \
         pid=12 process=b fd=1 device=/dev/x"
    );
    assert!(ensure_devices_unowned(&Vec::new()).is_ok());
    assert_eq!(process_name(None), "unknown");
    assert_eq!(entry_number("490"), Some(490));
    assert_eq!(entry_number("self"), None);
    assert_eq!(entry_number("2147483648"), None);
    assert_eq!(entry_number("-2147483648"), Some(i32::MIN));
}

#[test]
fn texts_are_trimmed_and_numbers_written() {
    for text in ["", " ", "a", " a b\t\n", "\u{3000}x\u{a0}", "\u{200b}y", "\r\n z"] {
        assert_eq!(trim(text), text.trim());
    }
    for number in [0u64, 9, 10, 15, 16, 255, 256, u64::MAX] {
        assert_eq!(decimal_text(number), format!("{number}"));
        assert_eq!(short_hexadecimal_text(number), format!("{number:x}"));
    }
}

#[test]
fn polls_tell_broken_lines() {
    assert_eq!(poll_outcome("/dev/x", true, 1, false, true), Ok(true));
    assert_eq!(poll_outcome("/dev/x", true, 0, false, false), Ok(false));
    assert_eq!(poll_outcome("/dev/x", false, 1, false, true), Ok(false));
    assert_eq!(
        poll_outcome("/dev/x", true, 0x18, true, true).unwrap_err().message(),
        "poll /dev/x terminal revents=0x18"
    );
}

fn said(request: WriteRequest) -> String {
    match request {
        WriteRequest::Fail(error) => error.message().to_string(),
        other => panic!("expected a failure, got {other:?}"),
    }
}

#[test]
fn frames_are_written_completely() {
    let (mut run, first) = WriteRun::begin(10, 0);
    assert!(matches!(first, WriteRequest::Write(0)));
    assert!(matches!(run.step("/dev/x", WriteEvent::Taken(4), 1), WriteRequest::Write(4)));
    assert!(matches!(run.step("/dev/x", WriteEvent::Interrupted, 2), WriteRequest::Write(4)));
    assert!(matches!(run.step("/dev/x", WriteEvent::WouldBlock, 3), WriteRequest::Poll));
    assert!(matches!(run.step("/dev/x", WriteEvent::Polled, 4), WriteRequest::Write(4)));
    assert_eq!(
        said(run.step("/dev/x", WriteEvent::WouldBlock, WRITE_TIMEOUT)),
        "write /dev/x timed out after 100ms (4/10 bytes)"
    );
    assert_eq!(
        said(run.step("/dev/x", WriteEvent::Taken(0), 5)),
        "write /dev/x returned zero after 4 bytes"
    );
    assert_eq!(
        said(run.step("/dev/x", WriteEvent::PolledTerminal(0x20), 5)),
        "poll /dev/x while writing returned terminal revents=0x20"
    );
    assert_eq!(
        said(run.step("/dev/x", WriteEvent::Failed(Error::Other("gone".to_string())), 5)),
        "gone"
    );
    assert!(matches!(run.step("/dev/x", WriteEvent::Taken(6), 6), WriteRequest::Drain));
    assert!(matches!(WriteRun::begin(0, 0).1, WriteRequest::Drain));
}

#[test]
fn the_watchdog_is_taken_step_by_step() {
    let (mut start, first) = WatchdogStart::begin();
    assert!(matches!(first, WatchdogStartRequest::Open));
    assert!(matches!(
        start.step("/dev/watchdog", WatchdogStartEvent::Opened(Ok(()))),
        WatchdogStartRequest::SetTimeout(16)
    ));
    assert!(matches!(
        start.step("/dev/watchdog", WatchdogStartEvent::TimeoutSet(Ok(()))),
        WatchdogStartRequest::Feed
    ));
    assert!(matches!(
        start.step("/dev/watchdog", WatchdogStartEvent::Fed(Ok(()))),
        WatchdogStartRequest::Spawn
    ));
    let WatchdogStartRequest::Finish(Err(error)) =
        start.step("/dev/watchdog", WatchdogStartEvent::Spawned(Err("full".to_string())))
    else {
        panic!("expected a failure");
    };
    assert_eq!(error.message(), "spawn S5 Max watchdog worker: full");
    let (mut start, _) = WatchdogStart::begin();
    let WatchdogStartRequest::Finish(Err(error)) =
        start.step("/dev/watchdog", WatchdogStartEvent::Opened(Err("busy".to_string())))
    else {
        panic!("expected a failure");
    };
    assert_eq!(
        error.message(),
        "open S5 Max watchdog /dev/watchdog: busy; stop WatchDoge before takeover"
    );
}

#[test]
fn the_watchdog_is_fed_when_due() {
    let mut lifecycle = Lifecycle::new(0);
    let (mut run, first) = WatchdogRun::begin(0);
    assert!(matches!(first, WatchdogRequest::AskShutdown));
    let early = KEEPALIVE_INTERVAL - 1;
    let look = run.step(&mut lifecycle, "/dev/w", WatchdogEvent::Shutdown(false), early);
    assert!(matches!(look, WatchdogRequest::Sleep));
    let look = run.step(&mut lifecycle, "/dev/w", WatchdogEvent::Slept, early);
    assert!(matches!(look, WatchdogRequest::AskShutdown));
    let due = run.step(
        &mut lifecycle,
        "/dev/w",
        WatchdogEvent::Shutdown(false),
        KEEPALIVE_INTERVAL,
    );
    assert!(matches!(due, WatchdogRequest::Feed));
    let fed = run.step(&mut lifecycle, "/dev/w", WatchdogEvent::Fed(Ok(())), KEEPALIVE_INTERVAL + 5);
    assert!(matches!(fed, WatchdogRequest::Sleep));
    assert_eq!(run.next_keepalive, 2 * KEEPALIVE_INTERVAL);
    run.step(&mut lifecycle, "/dev/w", WatchdogEvent::Slept, KEEPALIVE_INTERVAL + 6);
    run.step(
        &mut lifecycle,
        "/dev/w",
        WatchdogEvent::Shutdown(false),
        2 * KEEPALIVE_INTERVAL,
    );
    let broken = WatchdogEvent::Fed(Err("EIO".to_string()));
    let WatchdogRequest::Fail(error) =
        run.step(&mut lifecycle, "/dev/w", broken, 2 * KEEPALIVE_INTERVAL)
    else {
        panic!("expected a failure");
    };
    assert_eq!(error.message(), "watchdog keepalive /dev/w: EIO");
    assert_eq!(lifecycle.state(), DriverState::Fault);
    let (mut run, _) = WatchdogRun::begin(0);
    let end = run.step(&mut lifecycle, "/dev/w", WatchdogEvent::Shutdown(true), 1);
    assert!(matches!(end, WatchdogRequest::Release));
}

#[test]
fn the_motor_is_told_speed_product_start() {
    let mut state = MotorState::new();
    let mut told = Vec::new();
    let mut at = 0;
    while let Some(request) = state.configure_and_start(at) {
        assert!(!state.is_running());
        told.push((request.request, request.value, request.operation));
        at += 1;
    }
    assert_eq!(
        told,
        [
            (0x4004_f810, 30_000, "set target speed"),
            (0x4004_f826, 1, "set product ID"),
            (0x4004_f813, 20_000, "start"),
        ]
    );
    assert!(state.is_running());
    let stop = state.stop();
    assert_eq!((stop.request, stop.value, stop.operation), (LDS_MOTOR_STOP, 0, "stop"));
    assert!(!state.is_running());
    state.stop_and_disarm(false);
    assert!(state.armed);
    state.stop_and_disarm(true);
    assert!(!state.armed);
}

#[test]
fn a_failed_worker_faults_the_driver() {
    let mut lifecycle = Lifecycle::new(0);
    assert!(!worker_ended(&mut lifecycle, Worker::Lds, &Ok(()), 1));
    assert_eq!(lifecycle.state(), DriverState::Created);
    let failed = Err(Error::Other("EIO".to_string()));
    assert!(worker_ended(&mut lifecycle, Worker::Lds, &failed, 2));
    assert_eq!(lifecycle.last_fault.as_deref(), Some("LDS worker: EIO"));
    assert!(worker_ended(&mut lifecycle, Worker::Mcu, &failed, 3));
    assert_eq!(lifecycle.last_fault.as_deref(), Some("MCU worker: EIO"));
}

#[test]
fn the_mcu_worker_is_ended_when_it_does_not_start() {
    for (event, expected) in [
        (McuStartEvent::Told(Err(Error::Other("no".to_string()))), "no"),
        (
            McuStartEvent::Silent("timed out".to_string()),
            "S5 Max MCU startup did not complete within 2000ms: timed out",
        ),
    ] {
        let (mut start, first) = McuStart::begin();
        assert!(matches!(first, McuStartRequest::OpenUart));
        assert!(matches!(start.step(McuStartEvent::Opened(Ok(()))), McuStartRequest::Spawn));
        assert!(matches!(
            start.step(McuStartEvent::Spawned(Ok(()))),
            McuStartRequest::AwaitStartup
        ));
        assert!(matches!(start.step(event), McuStartRequest::EndWorker));
        let McuStartRequest::Finish(Err(error)) = start.step(McuStartEvent::Joined) else {
            panic!("expected a failure");
        };
        assert_eq!(error.message(), expected);
    }
    let (mut start, _) = McuStart::begin();
    start.step(McuStartEvent::Opened(Ok(())));
    let McuStartRequest::Finish(Err(error)) =
        start.step(McuStartEvent::Spawned(Err("full".to_string())))
    else {
        panic!("expected a failure");
    };
    assert_eq!(error.message(), "spawn S5 Max MCU worker: full");
}

#[test]
fn a_command_waits_for_all_its_acknowledgements() {
    let mut world = World {
        safety: SafetyController::new(),
        lifecycle: Lifecycle::new(0),
        sensors: SensorGroups::create(0, 0, 0, 0),
        acks: CommandAckTracker::new(),
    };
    world.acks.expect(7, &[1], 0);
    world.acks.expect(8, &[2], 0);
    world.acks.acknowledge(7);
    let (mut run, first) = ExecuteRun::begin(ActuatorCommand::Fan(5));
    assert!(matches!(first, ExecuteRequest::Queue(ActuatorCommand::Fan(5))));
    assert!(matches!(
        run.step(&mut world, ExecuteEvent::Queued(Ok(())), 9),
        ExecuteRequest::AwaitAnswer
    ));
    assert!(matches!(
        run.step(&mut world, ExecuteEvent::Answered(Ok(Ok(vec![7, 8]))), 9),
        ExecuteRequest::AwaitAcks
    ));
    let ExecuteRequest::Finish(Err(error)) = run.step(&mut world, ExecuteEvent::Waited, 9) else {
        panic!("expected a failure");
    };
    assert_eq!(
        error.message(),
        "MCU command ACK timeout; missing sequences [08]"
    );
    assert_eq!(world.lifecycle.state(), DriverState::Fault);
    assert_eq!(
        world.lifecycle.last_fault.as_deref(),
        Some("MCU command: MCU command ACK timeout; missing sequences [08]")
    );
    for (event, expected) in [
        (ExecuteEvent::Queued(Err("full".to_string())), "S5 Max MCU command queue: full"),
        (
            ExecuteEvent::Answered(Err("late".to_string())),
            "S5 Max MCU command timeout: late",
        ),
        (
            ExecuteEvent::Answered(Ok(Err(Error::Other("no".to_string())))),
            "no",
        ),
    ] {
        let (mut run, _) = ExecuteRun::begin(ActuatorCommand::StopDrive);
        if matches!(event, ExecuteEvent::Answered(_)) {
            run.step(&mut world, ExecuteEvent::Queued(Ok(())), 9);
        }
        let ExecuteRequest::Finish(Err(error)) = run.step(&mut world, event, 9) else {
            panic!("expected a failure");
        };
        assert_eq!(error.message(), expected);
    }
}

fn characters(text: &str) -> Vec<char> {
    text.chars().collect()
}

#[test]
fn the_load_bias_comes_from_the_library_mapping() {
    let maps = "00010000-00020000 r-xp 00000000 b3:05 77 /usr/bin/rr_loader\n\
                b6f00000-b6f30000 r-xp 00001000 b3:05 1234   /usr/lib/libuart_api.so\r\n\
                b6f40000-b6f50000 rw-p 00000000 b3:05 1234   /usr/lib/libuart_api.so\n";
    assert_eq!(find_load_bias(&characters(maps)), Some(0xb6ef_f000));
    assert_eq!(library_bias(&characters(maps), "/proc/1/maps"), Ok(0xb6ef_f000));
    assert_eq!(sequence_address(0xb6ef_f000), Ok(0xb6ef_f000 + 0x2ff4d));
    assert_eq!(
        library_bias(&characters("1-2 r-xp 0 0 0 libc"), "/proc/1/maps"),
        Err("cannot find libuart_api mapping in /proc/1/maps".to_string())
    );
    // A mapping below its own file offset gives no bias.
    assert_eq!(find_load_bias(&characters("1-2 r-xp 5 libuart_api")), None);
    assert_eq!(find_load_bias(&characters("10 r-xp 5 libuart_api")), None);
    assert_eq!(find_load_bias(&characters("libuart_api")), None);
    assert_eq!(
        library_bias(&characters("ffffffffffffffff-0 r 0 libuart_api"), "m"),
        Ok(u64::MAX)
    );
    assert_eq!(
        sequence_address(u64::MAX),
        Err("sequence address overflow".to_string())
    );
}

#[test]
fn hexadecimal_numbers_are_read_like_the_standard_library_does() {
    for text in [
        "", "+", "-1", "0", "+ff", "FF", "fF", "g", "10000000000000000", "ffffffffffffffff", "++1",
        "0x1", "00000000000000000001",
    ] {
        assert_eq!(parse_hex(&characters(text)), u64::from_str_radix(text, 16).ok(), "{text}");
    }
}

#[test]
fn the_sequence_program_takes_one_process() {
    let usage = Err("usage: roborock_s5max_sequence <rr_loader-pid>".to_string());
    assert_eq!(pid_argument(&vec!["490".to_string()]), Ok("490".to_string()));
    assert_eq!(pid_argument(&vec![]), usage);
    assert_eq!(pid_argument(&vec!["x".to_string()]), usage);
    assert_eq!(pid_argument(&vec!["4294967296".to_string()]), usage);
    assert_eq!(pid_argument(&vec!["1".to_string(), "2".to_string()]), usage);
    assert_eq!(seek_failure("/proc/1/mem", 0xabc, "no"), "seek /proc/1/mem to 0xabc: no");
    assert_eq!(read_failure(0xabc, "no"), "read sequence at 0xabc: no");
}
