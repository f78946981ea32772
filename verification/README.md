# pcre2 (verified core)

PCRE2 regular expressions over byte strings, with the logic around the
regex engine verified by Verus.

- `src/` is the verified library.
  - `bytes.rs`: `Match`, the builder settings and the PCRE2 options they
    turn into, the compiled `Regex` (settings, pattern, capture names),
    `CaptureLocations` and `Captures`, and the `Matches` and
    `CaptureMatches` iterators as state machines: the caller runs each
    search and hands the outcome to `advance`.
  - `name_table.rs`: decoding of PCRE2's capture-name table and lookup of
    groups by name.
  - `error.rs`: the error type.
  - `laws.rs`: properties that span functions (option bits, the order and
    progress of iteration, capture group 0, fresh capture locations).
  - `pcre2_consts.rs`: the PCRE2 constants read from `pcre2_sys`.
- `app/` holds what cannot be verified: the calls into PCRE2 through
  `pcre2_sys` (compiling, JIT, pattern info, searching), the per-thread
  match data, and the regex API that drives the library (`Regex::new`,
  `is_match`, `find`, the iterators, `Index` on captures, the `Debug` output
  of regexes, captures and capture locations, error messages).
- `tests/` runs the library on concrete values.
