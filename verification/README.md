# sleepp

A countdown timer that shows an inline, single-line progress bar:

```
[###############---------------] 12s remaining ( 51%)
[##############################] Done!
```

The library (`src/`) holds the logic, each function with its contract:

- `duration` — a span of time as whole seconds and nanoseconds.
- `text` — decimal digits, repetition and padding of strings.
- `timefmt` — the fixed-width time strings (`H:MM:SS`, `MM:SS`, `NNs`, `Ns`)
  and the blanking of leading zeros; every string of a timer has the same width.
- `style` — bar styles, bar characters (validated to be single characters) and
  color themes.
- `escape` — what a terminal shows of a string once style sequences are
  dropped.
- `render` — the progress line, the final line, and the escape sequence that
  clears a wrapped line. Without colors, and with no more done cells than the
  bar has, the progress line fills the terminal width exactly when at least ten
  bar cells fit, and is just wide enough for ten otherwise. Colors only wrap
  the parts of a line (for bar characters and a percentage without escape
  characters), and a line holds no control character, such as a line break or
  a carriage return, that its parts do not hold.
- `schedule` — the decisions of the timer loop and the pause between lines of
  plain output.
- `parse` — durations written for people, read with `humantime` when the text
  holds at most eleven significant digits (a bound under which the parser
  cannot panic); longer texts are handed to the parser by `app/`.

`app/` is the command-line program: argument parsing, the terminal, the clock,
Ctrl+C, the terminal bell, and the floating-point parts (plain numbers of
seconds, the fraction done and its percentage).
