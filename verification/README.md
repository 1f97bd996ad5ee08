# llg_matcher

A verified matcher for constrained decoding. A `Matcher` drives a token parser, reports what the
parser returns, and keeps the cause once the parser fails or a cancellation request is observed.

- `src/` is the library, verified with Verus.
  - `cancellation.rs`: the shared cancellation request.
  - `error.rs`: what an operation fails with.
  - `parser.rs`: the parser, as a matcher uses it.
  - `mask.rs`: token masks of the `toktrie` crate.
  - `model.rs`: the model of a matcher and the relations that the contracts use.
  - `matcher.rs`: the matcher.
  - `laws.rs`: what holds across functions.
- `app/` connects the library to parsers that are changed in place, fail with `anyhow` errors and
  may panic, and gives callers the matcher with `anyhow` results.
- `tests/` runs the library.

## Cancellation

A matcher does not enable cancellation by default. Call `Matcher::into_cancellable()` before moving
a matcher to a worker, then obtain `Matcher::cancellation_handle()`. `CancellationHandle::cancel()`
sets a permanent request and does not wait for the worker. Every operation looks at the request
before and after it runs the parser; a request that is seen leaves the matcher cancelled for good.
A clone samples the request once and has a handle of its own.
