# sdroxide-ui

The front end of a software-defined radio transceiver: what each panel shows, what
each control does, and what goes back to the engine. The rules are a library
verified with Verus; drawing, files and sockets stand around it.

## The library, `src/`

| Modules | What they hold |
|---|---|
| `app`, `frame`, `command` | reports of the engine, one frame of the window, commands |
| `view`, `spectrum`, `layout` | the visible span, spectrum settings, waterfall pace, levels, how panels share the window |
| `decodes`, `digi_panel`, `digi_map`, `overlay`, `spots` | digital modes: lists, contacts, map, boxes over the waterfall |
| `sstv`, `rf_paint`, `rade`, `hell`, `wefax`, `zoom`, `voice` | picture, voice and raster panels |
| `qso`, `logbook`, `log_list` | contacts: editing, matching, importing, listing |
| `settings`, `device_settings`, `radio` | the dialogs and the top bar |
| `solar`, `solar_layer`, `readouts`, `passes`, `mesh`, `net` | the solar-system view and its feed |
| `text`, `utc`, `sort`, `carried` | text, calendar, stable sorting, numbers that are only handed on |

Contracts are stated over sequences, maps and integers. Properties that span
several functions are public proof functions whose names begin with `law_`.

Quantities are integers: frequencies in thousandths of a hertz, levels in
1/510000 dB, frame times in microseconds. A number that the library only hands on
is carried as its bit pattern (`carried::Single`, `carried::Double`).

What is not proved is marked `external_body` or `assume_specification`, and says
in its doc comment what is claimed of the function behind it: adding a character
to a string, upper case and hashing of the standard library, and decoding an image
file.

## Around it

- `tests/` runs the library on concrete values.
- `app/` is the window: floating-point geometry, textures, files and the socket.
