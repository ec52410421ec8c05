# ground_station

The decisions of an automatic satellite ground station, written in Rust and verified with Verus:
which passes are followed, when the receiver runs, what decoders are started with, what a recording
amounts to, and what the station says and reports of it. Aircraft that come near are announced too.

- `src/` holds the verified library. Floating-point numbers are held, and computed with, as
  integers (`binary64::Binary64`), instants as milliseconds, times of day are those of Japan.
- `tests/` runs the library.
- `app/` is the program around it: the command line, files, processes, the network, the orbit
  propagation and the signal processing.

What alternates decisions with outside work (`daemon`, `monitor`, `engine`,
`scheduler::DailyScheduler`, `noaa::scheduler`) is a state machine: each step takes what happened
and says what to do next. Their laws stand beside them as proof functions named `law_*`.
