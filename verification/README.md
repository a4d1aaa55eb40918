# fujinx

Command line tools for Fujifilm X Series cameras: convert RAW files to JPEG
in the camera with a film recipe, read and write the camera's custom preset
slots, and keep recipes and recipe repositories.

## Layout

- `src/` is the library, written in Verus.  Its functions are verified
  against their contracts, except two small trusted wrappers around the
  standard library (`String::from_utf16_lossy` and `char::to_uppercase`),
  whose contracts restate the standard library's documentation.
  - `ptp/`: PTP datasets (little-endian integers, PTP strings), USB
    containers and replies, ObjectInfo and DeviceInfo parsing, and the choice
    of the PTP interface and its bulk endpoints.
  - `fuji/`: recipe settings and their camera codes, the RAW conversion
    profile codec, and the property reads and writes of a preset slot.
  - `config.rs`: repository paths from git URLs, recipe file names, and the
    listing of recipes by name and by source.
  - `text.rs`, `utf16.rs`: number formatting, labels and messages, string
    order, and UTF-16 text.
- `app/` is the `fj` program around the library: command line, USB I/O, the
  configuration directory, YAML recipe files and terminal colors.
- `tests/` runs the library on concrete values.
