# claude_statusline

A three-line statusline for a coding agent's terminal UI: session and
weekly rate-limit bars, context, pace, cost and duration segments, and the
working directory with its git branch. Line 2 sheds segments by priority
when the terminal is narrow; line 1 shrinks its bars if it still overflows.

- `src/` is the verified library: label themes, ANSI colors and the
  `NO_COLOR` rule, duration and count formatting, bars and the pace
  pendulum, the line renderers with responsive collapse, and the decisions
  of the git branch lookup. `src/laws.rs` proves what holds of every
  rendering: line 2 always fits and drops lowest priority first, it shows
  a segment exactly for each group the document has, and color never
  changes the layout (for documents whose own texts, the model name and
  the review state, hold no escape characters).
- `app/` is the program around it: argument parsing, JSON parsing, the
  fractional-percentage arithmetic (bar fill counts, thresholds, the pace
  fraction, dollar formatting), running `git`, and printing.
- `tests/` exercises the library on concrete documents.
