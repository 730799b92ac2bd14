# kaput

A command-line client and terminal file browser for a put.io account, with
its logic written in Verus and proved against its contracts.

- `src/` is the verified library:
  - `text.rs`: decimal and hexadecimal rendering, byte-wise comparison and
    search, string building.
  - `put/`: the requests sent to the service (`request.rs`, `files.rs`,
    `zips.rs`, `oob.rs`), file names made safe for the disk, the plans for
    downloads and uploads, and the resumable upload protocol (`tus.rs`).
  - `browse/`: the file browser's state and its operations (`app.rs`),
    stable ordering of listings (`sort.rs`), reactions to keys (`events.rs`),
    the text and geometry of the screen (`ui.rs`), and the decisions of the
    browser's main loop (`mod.rs`).
  - `cli.rs`: the saved settings, signing in, and the upload command line.
- `app/` is the program around it: argument handling, the configuration
  file, HTTP calls, the terminal, the clipboard and child processes.
- `tests/` runs the library on concrete values.
