# epd_photoframe_server

The decision logic of a small HTTP server that shows photos of a shared album on
battery-powered e-ink frames, with contracts that Verus proves.

- `src/` is the verified library.
  - `text`, `time`, `duration`, `color`, `locale`, `schedule`: values as they are
    written in the configuration, and what they denote.
  - `config`, `device`: the configuration of the screens, and what a device reports.
  - `screen_state`: which photo is shown, and when the album is reshuffled.
  - `background`, `degraded`, `overlays`: what goes on the screen.
  - `mqtt`: sensor values and Home Assistant discovery messages.
  - `request`: how a request is answered, from the screen's name to the `Refresh`
    header.
- `tests/` runs the library on concrete values.
- `app/` is the server around it: HTTP, files, the broker connection and drawing.
  It reads the text font from `assets/LiberationSans-Bold.ttf`.
