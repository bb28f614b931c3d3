# realingo

The verified core of ReaLingo, a desktop simultaneous interpreter that streams speech to a
realtime translation endpoint and shows the translation as subtitles.

- `src/` is the library, verified with Verus: the endpoint and session settings
  (`config`), the protocol's event classification and uplink encoding (`realtime`), the
  history files' naming, records and listing order (`history`), the reading of `pactl`
  output (`pulse`), PCM byte encoding (`pcm`) and chunking (`resample`), device ids
  (`audio`), the tray menu (`tray`), the credential store (`secret`) and the text
  operations they share (`text`).
- `app/` is the desktop shell around it: Tauri commands, cpal and symphonia audio, the
  floating-point resampler, the WebSocket session, files on disk.
- `tests/` exercises the library.
