# shannonscope

A digital-forensics and data-sanitization toolkit whose core logic is verified with Verus.

- `src/` — the verified library.
  - `engine/` — the command-line engine: the safety guard for targets, wipe planning and
    sampling verification, the file carver (RIFF, JPEG, PDF, ZIP, PNG, MP4 signatures in
    overlapping 4 MiB windows) and the SHA-256 audit chain with its CSV and certificate text.
    Each audit entry is hashed over all of its fields, each written with its length in
    front, so that an entry's hashed text can be read back only one way.
  - `desktop/` — the desktop engine: box-walking MP4 recovery, steganography tagging,
    regular-expression harvesting, the threat-signature scanner, the file-system time line,
    ATA identify decoding, sandbox naming, hex view, the drive listing, forensic-image
    hashing and its own audit chain. Both guards refuse the protected host drives.
  - `carving.rs`, `text.rs`, `digest.rs`, `clock.rs` — signature scans, text and byte
    helpers, the SHA-256 digest and the clock.
- `tests/` — tests of the library on concrete values.
- `app/` — the command-line program and the desktop commands: files, devices, processes,
  JSON storage, PDF output and the floating-point entropy measure.
