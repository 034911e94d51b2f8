# toolu-runner

The decision logic of a self-hosted GitHub Actions runner, verified with Verus.

- `src/` is the library. Everything in it is verified: what a job, a poll, a
  registration or an upload leads to is stated in `ensures` clauses over
  mathematical models, and what holds across calls is stated by the public
  `law_*` proof functions.
- `src/outside/` holds the calls into other crates and into parts of `std`
  without specifications. Their contracts are trusted; each says what it
  claims.
- `tests/` runs the library with the real crates linked.
- `app/` is the input and output around the library: files, processes, HTTP,
  the terminal and the command line. `app::platform::Platform` is what the
  binary provides: the broker session, the registration and token stores, the
  job engine and the terminal screens.

Work that alternates between decisions and I/O is a state machine in `src/`:
the caller asks for the next step, performs it, and hands the outcome back.
