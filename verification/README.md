# makepad_host

The decisions of a Makepad host, verified with Verus: what scripted apps may reach, how
their resources and live data are loaded, what feeds say, how cameras, pointers, keyboards
and gestures behave, and what widgets tell the host to do.

- `src/` is the library. Every function states in its contract what it decides; what holds
  of several of them is proved beside them. Where the host has to do something (open a
  camera, read a file, issue a request) the library says so in the value that it returns,
  and takes the answer as an argument.
- `app/` is the host's side: its tables and clocks, files and sockets, the compositor's
  events, and the arithmetic on floating point numbers.
- `tests/` runs the library, with `serde_json` behind it.

| Modules | |
| --- | --- |
| `splash` | policies of isolates, addresses and URLs, news digests, card helpers |
| `script` | resources by heap and path, loads, live data with its retries |
| `feed` | RSS and Atom, dates, markup, JSON rows |
| `camera`, `harmony` | frames, sessions, recordings, streams, permissions |
| `wayland` | windows, pointer, scrolling, keyboard, text input, clipboard |
| `widgets` | camera preview, web reader, gestures, sheets, kit components, navigation |
| `network`, `gps`, `home`, `svg`, `markdown`, `qr_scan` | what their names say |
| `text`, `number`, `paths`, `textmap`, `json`, `case` | what the others are written in |

Units: pointer positions are in 256ths of a pixel, wheel steps and scales in 120ths, fingers
and sheets in 1024ths of a pixel, times in milliseconds, routes in hundred-thousandths of a
degree, and the shape of a viewfinder in parts of which `ASPECT_ONE` make one.
Other numbers with fractions travel as their bit patterns.
