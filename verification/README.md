# rugby_stats

A rugby league match statistics tracker whose logic is verified with Verus.

- `src/models.rs` — teams, match phases (with golden point extra time),
  recorded events and the match record — including the match clock and
  possession time — with the statistics derived from it.
- `src/input.rs` — the one-line text prompt used to enter names and minutes.
- `src/app.rs` — the tracker: how each key press and each tick of the clock
  changes the match record, the prompt, the undo history and the status
  message (Space runs the clock, Tab switches team, minutes come from the
  clock, half time and full time come at 40 and 80 minutes, a drawn match
  ends as a tie with E or goes to golden point with G).
- `src/text.rs` — trimming, minute parsing and string joining.
- `src/export.rs` — the file name under which a match is saved.
- `src/ui.rs` — what the screen shows: the header, each team's panel and
  the footer, as styled pieces of text.
- `src/laws.rs` — properties of the tracker over sequences of key presses:
  undo, consistency of set counts, growth of the record, the clock and
  possession, the tie choice and golden point, typing and editing, and
  message expiry.

`app/` is the terminal program: it reads keys and time, draws the screen
with ratatui (computing the two percentages), and writes the match to JSON.
