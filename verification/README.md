# wallcraft

The logic of the WallCraft desktop wallpaper manager, verified with Verus.

- `src/` is the verified library: path and file-name handling (`paths`,
  `names`, `layout`), media kinds and MIME types (`media`), the metadata a
  probe report gives (`probe`), the library index (`index`, `order`,
  `thumbs`), transcoding plans and ffmpeg arguments (`transcode`), the
  local media server's and the `wallcraft://` protocol's request handling
  (`http`), the JSON database's replies (`database`), the settings and
  command records (`models`), and the decisions of the commands
  (`policy`). Paths given by the operating system are read with its
  separators: on Windows `\` separates components as `/` does and a drive
  letter is read without regard to case; a drive or share is read as the
  first name of the path (see `paths` for where this differs from std).
  Calls into `uuid`, `url`, `urlencoding`, `base64`, `http`, `serde_json`
  and `str::to_lowercase` stand behind the trusted items of `external`.
- `tests/` runs the library on concrete values.
- `app/` is the Tauri application around it: commands, file and process
  I/O, the tray, the protocol handler and the media server's socket.
