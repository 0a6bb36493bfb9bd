# mop — Metadata Organization Program

Cleans up music collections: checks a directory of MP3 files, looks up missing
metadata online (MusicBrainz), and renames files after a format such as
`./%artist - %title`.

- `src/` is the library, verified with Verus: the song model and its checks
  (`structs`), the per-extension tally of a check, renaming and the plan of
  "all" (`actions`), the XML tree built from xml-rs parse events (`xml`), the
  reading of MusicBrainz answers (`music_brainz`), request texts and answers
  (`online`), string and number utilities with exact specifications (`text`,
  `num`), and properties across them (`laws`).
- `app/` is the command-line program: argument handling, logging, the
  directory walk, ID3 tag reading and writing, and HTTP requests.
