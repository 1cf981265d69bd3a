# posebridge

Orientation tracking for WIT inertial sensors: frames from BLE or USB become
poses, and poses go to local OSC receivers, to a command line and to C callers.

The library under `src/` holds the logic and proves it with Verus:

- `protocol`, `sample_clock`, `full_frame`: frames, device time, the rate guard
- `pump`, `acquisition`: one connection's reception, the simulator, retries
- `controller`, `motion`, `battery`: what is shared, published and queried
- `device`, `magnetic`, `monitor`: register reads, device operations, magnetic
  sessions and their cleanup
- `osc`, `single`: datagrams, binary32 rounding, pacing
- `model`, `pose`, `text`, `number`, `clock`: configuration, mountings, text,
  binary64 bit patterns, host time
- `transport`, `cli`, `capi`: decisions of the program around it

Readings stay in counts and binary64 numbers in bit patterns; nothing in the
library computes in floating point. Time is a count of nanoseconds that the
caller passes in.

`app/` is the program: sockets, serial ports, Bluetooth, the asynchronous loops,
JSON, and the orientation arithmetic. `tests/` runs the library.
