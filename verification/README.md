# vid_concat_cutter

A verified core for a desktop tool that cuts and joins videos with a local
ffmpeg kit, and the program around it.

- `src/` is the library. Verus proves its functions against their contracts, but
  for what is listed under "What is believed".
- `tests/` runs the library.
- `app/` is the window, the files and the processes.

## The library

The library does no input or output. A job (joining clips, adding a track,
changing the speed, converting, extracting a frame, exporting the edited video)
is a state machine: it asks for an action, is told what came of it, and asks for
the next one until it ends with an output path or an error. The searches for a
free output name, for ffmpeg and ffprobe, and for the duration of a file are
made the same way.

| Module | What it holds |
|--------|---------------|
| `timeline`, `editor`, `timeline_laws` | the edit: clips, selection, clipboard, split, reorder, undo |
| `transport` | playing, winding, preview and ruler rules |
| `frames` | frame extraction, filmstrips, clip colors |
| `edl`, `export` | the edit list, and the export of the edited video |
| `panel` | the Concat panel: list, options, which job may start with what |
| `concat`, `add_audio`, `speed`, `tempo`, `convert` | the jobs of the panel |
| `jobs` | actions, replies and steps |
| `probe` | what ffmpeg and ffprobe print |
| `kit` | where ffmpeg and ffprobe are |
| `naming`, `paths`, `folders` | output names, path rules, folder listings |
| `scan`, `text` | text primitives |

Clip times are of a type that the caller chooses. Where a time or a factor goes
into an argument or a message, it is handed in as text.

### What is believed

Seven items are believed, not proved. Each stands for one function from outside,
and its comment says what is claimed of it. The results of `probe::decode_lossy`
on invalid text and of `frames::resize` on other sizes are named only.

| Item | Stands for |
|------|------------|
| `paths::file_name` | `std::path::Path::file_name` |
| `kit::same_path` | `==` on `std::path::Path` |
| `naming::clock` | the system clock |
| `probe::decode_lossy` | `String::from_utf8_lossy` |
| `frames::resize` | `image::imageops::resize` |
| `frames::replace` | `image::imageops::replace` |
| the specification of `String::push` in `text` | `String::push` |

## Running

From the project root, so that `engine/`, `in/`, `out/` and `audio/` resolve.
Place `ffmpeg.exe` and `ffprobe.exe` in `engine/`, or name them with
`VCC_FFMPEG`, `VCC_FFPROBE` or `VCC_FFMPEG_DIR`.
