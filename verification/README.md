# eztopaz

The verified core of a lightweight RTMP streamer that captures the screen
and audio, and streams them through an ffmpeg child process to a Topaz
ingest server.

- `src/` is the library, verified with Verus:
  - `config`: profiles, the Topaz bitrate limits, stream-key and settings
    validation, where the settings live;
  - `ffmpeg`: command lines (`args`, `hw`), encoder discovery (`probe`),
    start plans (`start`), progress lines (`progress`), retries and the
    stderr buffer (`supervisor`), pipe paths (`pipes`);
  - `video`: the frame pacer, scaling with letterbox (`scale`), BGRA to
    NV12 (`nv12`);
  - `capture`: what the capture backends compute around the platform
    calls (stream selection, names for the UI, GPU readback, the preview);
  - `text`: character-level helpers the contracts are stated with.
- `app/` is the program around it: file and process I/O, the ffmpeg child,
  pipes, the video sink thread, audio mixing (floating point) and the
  commands, run from the command line with JSON output. This build has no
  capture backend.
- `tests/` exercises the library.
