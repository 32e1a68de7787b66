# pimon

A hardware sensor monitor for the Raspberry Pi 5 family: temperatures, clock
domains, voltages, memory, I/O rates and the firmware's throttling health, one
sweep per second with five minutes of history.

`src/` is the library, written in Verus. It parses what the kernel and the
firmware tool write, decides what a sweep found, computes deltas between sweeps,
keeps the history and says what the dashboard shows. Each function states in its
contract what it returns, and the `law_…` proof functions state what holds across
functions.

Floating-point arithmetic stays outside the library. A sweep yields a draft whose
numbers are formulas over exact texts and counters; the application evaluates
them and hands the values back as bit patterns, on which the library decides
again.

`app/` is the window: it reads files, runs `vcgencmd`, evaluates formulas, and
draws with GPUI Kit. `tests/` runs the library against a canned probe.
