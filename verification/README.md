# studio_project_manager

A verified library for managing Ableton Live projects, written in Verus.

The library reads the XML inside Live sets (`.als`): the Live version, the
tempo, the time signature, the plugins and the samples a set uses. It parses
search queries into full-text conditions, builds the statements that list
projects by filters and their statistics, decides the steps of a project
rescan, picks Live's newest plugin database, and checks the
configuration. Every function of `src/` carries a contract, which Verus
proves, except the few small wrappers and specifications around quick-xml,
hex, encoding_rs, flate2, crc32fast and std: their contracts are trusted and
state what those libraries document.

Reading files, listing directories, asking the environment and running
database statements is left to callers: they hand the library bytes, texts
and what the file system says of a path. `app/` is a small command-line
program that does so.

Layout:

- `src/xml.rs`: the event stream of quick-xml, named event by event, and the
  scans over it; `src/tags.rs`, `src/tempo.rs`, `src/time_signature.rs`,
  `src/version.rs`, `src/plugins.rs`, `src/samples.rs` read a set.
- `src/search.rs`: search queries; `src/project_query.rs`: project listings
  and statistics; `src/rescan.rs`: rescanning a stored project.
- `src/config.rs`: the configuration and its checks.
- `src/files.rs`: gzip data, CRC-32 hashes, Live's database files.
- `src/text.rs`, `src/numbers.rs`, `src/assoc.rs`: text, numbers, and
  association lists.
- `tests/`: tests run against the compiled library.
