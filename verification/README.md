# suno_downloader

A desktop tool that mirrors a Suno music library to local WAV files, with its decision logic
verified by Verus.

- `src/` is the verified library: the "since" filter, date folders, file names, the local
  index of downloaded clips, session and settings rules, the request headers, feed paging and
  merging, how a clip's WAV file is located, the token server's routing, and the sync run that
  decides, clip by clip, what to skip, filter, preview or download and keeps the counts.
- `app/` holds what the verifier does not see: reading and writing files, HTTP requests, the
  local token server's socket, the desktop framework's commands, and the JSON forms of the
  records. It hands the library plain values and acts on what the library decides.
- `tests/` runs the library on concrete values.
