# webp_converter

Verified core of a desktop tool that converts folders of images to WebP and
videos to web-friendly MP4 (H.264) or WebM (VP9) with FFmpeg.

- `src/` — the library, checked with Verus:
  - `text.rs`: character-level helpers (decimal rendering, white space,
    case folding, searching).
  - `paths.rs`: file paths as `std::path` reads them on Unix or on
    Windows (separators, drive letters; file name, parent, stem, extension,
    join), with lemmas on joining a name onto a folder. The platform's
    style comes from `PathStyle::host()`.
  - `scan.rs`: choosing the files a scan reports and summing them up.
  - `converter.rs`: images — recognition, WebP output paths, scan
    selection, width cap, progress and report bookkeeping.
  - `video.rs`: videos — recognition, output paths, quality→CRF, the
    FFmpeg command line, reading FFmpeg's output lines, scan selection.
  - `image_job.rs`: the decisions of converting one image as a state
    machine.
  - `video_run.rs`: the decisions of a video conversion run as a state
    machine.
- `app/` — the Tauri application: commands, directory walking, file and
  process I/O, WebP encoding, and the floating-point parts (durations,
  percentages).
- `tests/` — tests of the library.
