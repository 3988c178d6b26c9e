# hyperscan (verified core)

The logic of a binding to the Hyperscan regular expression engine, written
in Verus and proved against its contracts:

- `compile`: pattern flags, expression extensions, the pattern syntax
  `id:/expression/flags{ext}` (reading and printing, with the law that
  printing then reading gives the pattern back), pure literals, pattern
  lists, target platforms, and the compile requests that the engine
  compiles databases from.
- `chimera`: the same for Chimera patterns, with match limits and the
  values of its callbacks and captures.
- `common`, `error`: modes, error codes and the crate's error type.
- `runtime`, `regex`: the answers of match callbacks, and what becomes of
  the match events of a scan: the leftmost-first match, the successive
  non-overlapping matches, search steps that cover the haystack, splits.
- `legacy`: the first generation of the interface (compile flags named as
  the engine's constants, raw database requests, a small regex type).
- `text`: the character-level helpers that the parsers and printers share.

`app/` holds the calls into the C libraries: it compiles requests, runs
scans (Hyperscan and Chimera, with captures), serializes databases and
queries pattern information, and hands the match events to the library.
That engine work is not proved: the contracts speak of the requests handed
to the engine and of what the library makes of the events it reports.
