# LapSphere

Hardware control and monitoring for Uniwill/Clevo laptops: a daemon that tunes
processor, graphics card, fans, keyboard light, screen and battery, and a
frontend that talks to it over the bus.

- `src/` is the library: the rules and decisions of both programs, verified with
  Verus. An operation on the hardware is a function of its arguments and of the
  replies to the accesses made so far; it returns the next access or the outcome
  (`access.rs`).
- `app/` performs the accesses, reads the hardware, and runs the daemon, the bus
  service and the window.
- `tests/` runs the library.
