# media_master

The verified core of a batch media converter: a window lists media files,
shows the codecs that `ffprobe` finds in them, lets the user pick target
codecs, and converts them one by one with `ffmpeg`.

- `src/` is the library, verified with Verus:
  - `state.rs`: the file list and settings (`MyApp`), its well-formedness,
    the effect of every user action and of the worker's progress reports,
    and the scheduling of conversions;
  - `convert.rs`: the `ffmpeg` command line of a task and what is done with
    the files and reported once it has run;
  - `probe.rs`: the `ffprobe` command line, how its output is read, and
    which files count as media;
  - `codec.rs`: the offered codecs and their display names;
  - `text.rs`: string equality, decimal text, trimming, first lines;
  - `std_calls.rs`: the standard-library path and text calls the library
    relies on, with the contracts it trusts.
- `app/` is the program: the egui window, the file dialogs, the worker
  thread, and the calls of `ffprobe`, `ffmpeg` and the file system.
- `tests/` runs the library on concrete values.
