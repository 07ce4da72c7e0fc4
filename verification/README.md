# karasad

The logic of the Karasad karaoke player as a verified library: the song
library and its search and ordering, the analysis and download queues, the
Spotify search overlay and Web API data, yt-dlp result scoring and progress
reading, the log viewer's buffer, scrolling and ANSI colors, lyrics timing,
and background-video bookkeeping.

- `src/` is the library. Verus verifies every function in it, against its
  contract where it has one; the small wrappers around outside crates and
  std are trusted, and their doc comments say what they claim. A function
  whose result comes from the disk or the environment (such as whether
  yt-dlp or a song's cached analysis is present) states what holds of every
  outcome, which may be nothing.
- `tests/` runs the library on concrete values.
- `app/` is a command-line front end that does the file, process and
  network work around the library.
