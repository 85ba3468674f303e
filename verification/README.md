# soundcloud2mp4

Turns a SoundCloud playlist into videos: one per track, or one long video with
crossfades and chapters. The work is done by `yt-dlp` and `ffmpeg`; this project
decides what they are asked, reads what they answer, and recovers from what goes
wrong on the way.

- `src/` is the library. Everything that can be decided from plain values stands
  there, and Verus proves each function against its contract: the metadata rules
  and the failure verdicts (`downloader`), the metadata cache (`models`), the
  fetch loop and its shared back-off (`pipeline`), the timeline, the batch ladder
  and the combine run (`video`), and what the window shows and does (`gui`).
- `tests/` runs the library on concrete values.
- `app/` is the desktop application: the window, the processes, the files.

Lengths and positions are whole microseconds, progress is a fraction of whole
numbers, and paths are text. The places where the application keeps its files are
given as the names on the way to them; joining these is the platform's business.
