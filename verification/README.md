# eco_music

The logic of an audio-only player for public YouTube Music playlists,
verified with Verus, and the Linux application around it.

- `src/` — the verified library:
  - `urls`: validation of playlist addresses and their canonical form
    `https://www.youtube.com/playlist?list=<ID>`;
  - `json`: JSON documents read one level at a time (through `serde_json`);
  - `extract`: the extractor's playlist listing, its arguments and the
    decisions taken while it runs;
  - `bookmarks`: registered playlists, read back row by row, added and removed;
  - `shuffle`, `player`: the playback order, the play queue, the player's
    arguments, the commands sent to it, its status line and the decisions
    while connecting to it;
  - `session`: the window's state as the rules act on it;
  - `fonts`, `text`: small helpers.
- `app/` — the application: window (egui), processes (`mpv`, `yt-dlp`),
  IPC socket, files.
- `tests/` — tests of the library.
