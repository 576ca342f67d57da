# LZCR

LZCR installs the Traditional Chinese texts of Limbus Company. It downloads the
latest release of the Simplified Chinese translation, converts its texts, writes
them beside the game together with fonts and settings, and keeps the texts of
the voice bubbles up to date. It runs in a terminal.

- `src/` is the library: every rule of the program, verified with Verus. What
  the program asks of the system, of the network or of the clock comes in as
  plain values, and what it wants done goes out as plain values.
- `app/` is the program around it: the terminal, the worker's thread, requests,
  and files. It reads the fonts from a folder `Font` beside it, or else from
  one where it is started.
- `tests/` runs the library.

| Module | What it holds |
| --- | --- |
| `text`, `numbers`, `dates`, `paths` | texts, numbers, dates and paths |
| `error`, `progress` | what can go wrong, and what is told of the work |
| `config` | settings, and what is installed |
| `vdf`, `steam_registry` | the search for Steam, the game and its folders |
| `release`, `archive`, `convert`, `voice`, `voice_sync`, `fonts` | the work of a run |
| `converter` | the order of that work |
| `tui`, `view`, `layout` | the state behind the screen, and the screen |

The laws that the library keeps as a whole are the public proof functions whose
names begin with `law_`.
