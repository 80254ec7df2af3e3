# video_trimmer

The verified core of a desktop tool that trims local videos, extracts audio
and downloads YouTube content through FFmpeg and yt-dlp.

- `src/` is a Verus library. It holds the decisions and texts of the tool:
  rate limiting with exponential back-off (`rate_limit`), job cancellation
  (`job_control`), how finished and failed program runs are reported
  (`process_util`), the yt-dlp and FFmpeg command lines (`ytdlp`, `ffmpeg`,
  `args`), release-date and outdated-build checks, the metadata cache key and
  freshness, retry decisions after a failed download, progress-line reading
  (`progress`), the reading of yt-dlp's metadata and its formats
  (`formats`), the reading of FFprobe reports and the dependency report
  (`models`), and the choice of the downloaded file. `text` holds the
  string primitives they are built on. JSON text is decoded with
  serde_json behind trusted wrappers whose results are named, and
  everything done with the decoded values is verified.
- `app/` is the Tauri application around it: processes, files, clocks,
  platform path handling and the floating-point arithmetic of durations,
  rates, progress and time ranges.
- `tests/` exercises the library.

Times in the library are integer nanoseconds: a monotonic clock for the rate
limiter, and the Unix epoch for file times.
