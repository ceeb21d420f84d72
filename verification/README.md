# yt_download_tui

A terminal front end for `yt-dlp` and `ffmpeg`, split into a verified library and a thin
program around it.

- `src/` is the library, verified with Verus:
  - `types`: screens, form fields, formats, encoder modes, progress and job events;
  - `config`: form choices, output folder expansion, index cycling;
  - `media`: format selectors, format rows from `yt-dlp -J`, progress line parsing,
    converted file names, encoder arguments;
  - `formats`: which format list a `yt-dlp -J` document offers, and its selectable rows
    sorted best first;
  - `job`: download jobs, the `yt-dlp` and `ffmpeg` command lines, job messages and the
    decision after a download;
  - `app`: the application state and how keys, job events and loaded formats change it;
    work that leaves the process is queued as effects for the front end;
  - `ui`: what each screen shows (fitted field values, scrolling, labels);
  - `order`, `text`, `paths`, `process`: ordering and string helpers, names for what
    `std::path` reports, process group targets.
- `app/` is the program: terminal setup and the event loop (`crossterm`), drawing
  (`ratatui`), running `yt-dlp`, `ffprobe` and `ffmpeg`, reading `yt-dlp`'s JSON
  (`serde_json`), folders and the float arithmetic of progress ratios.
- `tests/` runs the library on concrete values.
