# roborock_s5max

Driver logic for the Roborock S5 Max, proved with Verus: the MCU wire protocol, the LDS
packet stream, sensor groups, the safety rules, and the procedures that start, run and stop
the robot.

- `src/` is the library. Every function in it is verified against its contract. It touches
  no device and no clock: procedures are state machines that take what happened last and say
  what to do now. Floating-point values are kept as IEEE-754 bit patterns or as the integers
  that they are made of, and times are nanoseconds of a monotonic clock.
- `tests/` runs the library on captured frames and on whole sessions.
- `app/` is the rest: UARTs, ioctls, threads, channels, floating point, and the program
  that reads the stock transmit sequence from a frozen process.

Wire format, bottom up: `bytes`, `text`, `crc`, `frame` (encoding), `decoder`, `packet`
(reports in a frame), `reports` and `logs` (what they say), `commands`.
Laser: `lds`, `revolution`, `lds_reader`, `lds_motor`.
State: `groups`, `sensors`, `lifecycle`, `safety`, `acks`.
Procedures: `guard` (a command, the stop set), `session` (the MCU worker), `worker`,
`watchdog`, `tty`, `control`, `driver`, `handoff`.
