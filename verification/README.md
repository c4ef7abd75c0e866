# aar — advanced ASCII renderer, verified core

Turns pictures and video frames into text (ASCII, numbers, Braille, Discord
emoji), optionally with 24-bit colour escapes and edge lines.

- `src/` is the library, verified with Verus: option types, parsing of
  `ffprobe` output, the `ffmpeg`/`ffplay`/`ffprobe` command lines, output
  sizing (`terminal`), the CPU sampler and the cell-to-text renderer
  (`textifier`), the older edge-window renderer (`processing`), the
  processing-mode decisions, and the frame bookkeeping of video playback
  (`video`). Brightness is held in fixed point (`BRIGHTNESS_ONE` is 1.0).
- `app/` is the program around it: command line (clap), terminal size
  (crossterm), running `ffmpeg`/`ffprobe`/`ffplay`, the wgpu pipelines, the
  floating-point Sobel edge detector, and printing.
- `tests/` exercises the library on concrete values.
