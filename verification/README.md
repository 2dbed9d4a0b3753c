# musicbox

The verified core of a desktop music player.

- `src/` — the library, verified with Verus: album identifiers and track
  records built from audio metadata (`metadata`), filing tracks and albums
  (`library`), the side panel's queue views (`queue`), clock texts
  (`clock`), showcase row decisions (`showcase`), lyrics lookup sequencing
  (`lyrics`), radio stations and stream addresses (`radio`, `stations`).
- `app/` — file access around it: tag reading with lofty, media sources for
  symphonia, the radio page's output.
- `tests/` — tests of the library on concrete values.
