# vertify

Converts 16:9 video to 9:16 and back without cropping: the whole frame is
letterboxed onto the target canvas, and the bars are filled with a blurred
copy of the clip or a solid color. ffmpeg does the encoding.

## Layout

- `src/` — the library, verified with Verus:
  - `media.rs`: targets and canvases, output paths, the filter graph, ffmpeg
    arguments and the dry-run command line, the JSON plan, fill colors,
    reading ffprobe's answer, tool lookup, and the decisions of a conversion
    run (existing output, AAC retry).
  - `update.rs`: versions, the releases API response (tag and assets), asset
    choice per platform, archive kinds.
  - `gui.rs`: the Flip Stage's state machine — what each click, key and
    worker message does, and the texts the stage shows.
  - `paths.rs`: the few `std::path` calls, with what holds of them on every
    platform.
  - `text.rs`: the `str` behaviour the rest relies on (trimming, case,
    decimal numbers, search, UTF-8 byte offsets), stated over `Seq<char>`.
- `app/` — the program: command line, process and file I/O, network, and the
  egui window. `vertify` runs the command line; started as `vertify-gui` it
  opens the window.
- `tests/` — tests of the library.
