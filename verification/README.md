# gifer

A terminal application that converts videos to GIFs with FFmpeg: paste video
files or a video URL from the clipboard, choose scale, frame rate, quality,
looping and the output directory, and watch the conversion queue.

The crate is written in Verus. The library in `src/` holds the application's
logic with contracts that Verus proves:

- `text`, `path`: character-level string operations and Unix path handling
  (file name, stem, extension, parent, joining).
- `settings`: the presets and their cycles, `~` expansion, the output
  directory suggestions.
- `job`, `ffmpeg`, `worker`: conversion jobs and their states, the FFmpeg
  command line, the reading of FFmpeg's progress report and error output, and
  the updates a conversion sends back.
- `clipboard`: which clipboard contents are videos or video URLs.
- `event`, `app`: key presses and the application state machine (queueing with
  duplicate detection, the concurrency limit, renaming, deleting, messages).
- `complete`: completing a directory path as it is typed.
- `ui`: the texts shown on screen and how a job's row fits the list.

`app/` is the program around it: the terminal, the event loop, the settings
file, the file system and the FFmpeg processes, and the drawing with ratatui.
