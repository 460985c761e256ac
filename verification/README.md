# omni

A universal Linux package manager front end: it picks among apt, dnf,
pacman, snap, flatpak and AppImage, resolves dependencies and keeps an
install history. The library also holds the checks a secure front end
makes (a command allow-list with argument sanitising, rate limiting, a
circuit breaker and retries); the command-line program runs package
managers directly, as the program it follows does.

The library in `src/` is written in Verus. Each public function carries a
contract (`requires` / `ensures`) over mathematical models of its data:
character sequences for texts, `Seq`s for lists, and spec functions that
say what a result is. Verus proves the code against those contracts.
Properties that span several calls or all inputs (what a reset clears,
when a breaker opens and when it lets requests through again, that error
codes tell variants apart, that undo takes back a save) stand as public
proof functions whose names begin with `law_`.

Where the library calls an outside crate (semver, regex, url, sha2, hex,
uuid, chrono) or reads the clock, the call sits in a small function marked
`#[verifier::external_body]` whose doc comment says what its contract
claims of that crate; everything around it is verified.

Layout:

- `src/` — the verified library, one module per concern (resolver,
  boxes, config, history, hardware, rate limiter, error handling, ...);
  `text.rs` and `keyed.rs` hold the shared text and key/value helpers.
- `tests/` — tests run against the compiled library.
- `app/` — the command-line program: argument handling, processes, files,
  prompts and the other I/O, calling the library for every decision.
