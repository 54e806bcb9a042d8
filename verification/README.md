# waywall

waywall plays a video as the wallpaper of a Wayland desktop, on compositors with the
wlr-layer-shell protocol such as Hyprland and Sway.

- `src/` is the library: everything that is decided, computed or kept in order. It is written
  in Verus. Each function states what it returns or changes, and the laws that hold of several
  of them together stand beside them as proof functions whose names begin with `law_`.
- `app/` is the program around it: it talks to the compositor, to EGL and OpenGL, to FFmpeg and
  to the file system, performs the actions that the library asks for and reports what came of
  them.
- `tests/` runs the library on concrete values.

## Usage

```bash
# One or more outputs; all of them where none is named
waywall -o eDP-1,DP-3 /path/to/video.mp4

# Hardware decoding, with the frames handed to the compositor as DMA-BUFs
waywall --vaapi /path/to/video.mp4
```

| Flag | Meaning |
|------|---------|
| `-o, --output <name>` | Output to show on; can be repeated or comma-separated |
| `--vaapi` | Decode with VA-API; falls back to software and OpenGL with a warning where the compositor takes no DMA-BUFs |
| `--no-gl` | Do not draw with OpenGL |
| `-h, --help` | Show the help |

Started as `waywall-drm-test` the program shows a number of frames (`--frames`, `--backend
drm|egl-gl`), gives the compositor two seconds to release the buffers and tells what it saw.

## What the library trusts

Three calls into other crates are taken at their word, each in a small function that says what
is believed of it: the poll timeout and the poll flags of `nix`, and the reading of log
directives by `tracing-subscriber`. The same holds of four calls into the standard library: two
conversions from bytes to integers, and the writing of a text and of a path in quotes.
