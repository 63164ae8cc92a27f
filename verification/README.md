# endgame

A private Telegram bot that downloads media links with `yt-dlp` or `gallery-dl`
and sends the images, videos and tracks back.

The decisions of the bot are a library, written in Verus: every function states
in its contract what it returns, and Verus proves that it does. What talks to
Telegram, to the database, to the file system and to other programs is ordinary
Rust around it.

## Layout

- `src/` is the verified library.
  - `commands`, `links`, `admission`: what a message asks for, and whether it may.
  - `policy`, `config`, `store`, `users`, `cookies`: packages and limits, settings,
    what is read from and written to the database, and the answers to those who
    manage users.
  - `jobs`: the phases of a job, its status message, the queue, and what holds of
    everything that happens to it.
  - `media`: command lines, progress, inspection, conversion and delivery.
  - `download`, `queue`, `utils`: a plain downloader with a first-come queue.
  - `text`, `number`, `numeral`, `double`, `json`, `paths`, `time`, `ids`: what the
    rest is written with.
- `tests/` runs the library on examples.
- `app/` is the program: it reads settings, connects, and performs what the
  library decides.

The functions named `law_*` state what holds of several functions together.

## Running

`API_ID` and `API_HASH` hold the Telegram credentials; `CONFIG_FILE` names the
configuration, `config.json` by default. `yt-dlp`, `gallery-dl`, `ffmpeg` and
`ffprobe` have to be installed.
