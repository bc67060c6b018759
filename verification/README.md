# stringutils

String utilities over UTF-8 text, verified with Verus: byte length, ASCII vowel count,
byte reversal and ASCII uppercasing. Each operation first turns its input into a C string
(the bytes before an implicit terminating NUL) and fails with `Error::Conversion` exactly
when the input holds a NUL byte.

Layout:

- `src/cstring.rs` — `CString`, a byte buffer that holds no NUL byte (type invariant), and
  its conversion from text.
- `src/clib.rs` — the byte routines on C strings, with byte-level contracts.
- `src/text.rs` — the character-level models: ASCII case folding, ASCII vowels, and the
  text read back from bytes (through `String::from_utf8_lossy`, the one trusted call).
- `src/error.rs` — `Error`, `NulError` and their messages.
- `src/lib.rs` — the public operations `str_length`, `count_vowels`, `str_reverse`,
  `to_uppercase` and `summarize`.
- `src/laws.rs` — the laws relating text and bytes: uppercasing and vowel counting touch
  only ASCII bytes, NUL bytes come only from NUL characters, reversal of ASCII text is an
  involution, ASCII case folding round-trips.
- `app/main.rs` — the command-line demo.
