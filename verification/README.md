# deathnote_ios

The logic of an iOS player for a Flash game (DDTank), proved with Verus.

- `src/` — the verified library:
  - `registro`: the crash record. What each note appends, when the file
    starts over, and whether the previous session died (its record holds a
    crash, or its last line is not the trip to the background), with the
    laws that relate them.
  - `texto`: searching, trimming and splitting text into lines, with the
    meaning of `str::contains`, `str::trim` and `str::lines`.
  - `teclas`: the touch buttons and the key events they send.
  - `endereco`: the addresses that open a game (`http`, `https`, and the
    app's own `deathnote:` scheme carrying an internet address), the entry
    page's navigation policy, and the test address given at start.
  - `cena`: the scene opens the test game only once.
  - `jogador`: what the player's controller holds until its view loads, and
    the player's configuration with the app's defaults.
- `app/` — the UIKit controllers, the scene delegate, the entry page and the
  record's files, which call the library for every decision.
- `tests/` — tests of the library on concrete values.
