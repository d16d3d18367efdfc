# tg_downloader

The logic of a Telegram bot that downloads media by URL (Youtube audio and
video, Tiktok, Instagram reels, webm), verified with Verus.

- `src/` is the verified library: URL recognition (`url`), the command lines
  given to `yt-dlp` and the reading of its output (`downloader`), the
  classification of the formats `yt-dlp` reports (`dlp_info`), the choice of
  formats offered to the user and the keyboard that offers them (`keyboard`),
  the callback data those buttons send (`callback`), video metadata checks
  (`util`), request decisions (`handler`) and text helpers (`text`).
- `app/` is the bot itself: Telegram, `yt-dlp`/`ffmpeg` processes, json
  parsing, logging and the floating-point size labels.
- `tests/` runs the library on concrete values.

Two maps of the program are held as vectors in `src/`: the table of URL
patterns (tried in a fixed order) and the grouping of video formats by note.
Their keys are an enum of this crate and strings, for which the contents of
a `HashMap` cannot be reasoned about; the vectors carry the same contents
with their invariants stated.

`takecell` is named in Cargo.toml only to hold a dependency of `teloxide`
below 0.1.2, whose releases from 0.1.2 on need a newer Rust compiler.
