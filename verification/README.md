# codex_usage_tray

The bookkeeping behind a Linux tray applet that shows the usage of Codex: what session files
add up to, which rate limits hold, and what the tray, its menu and the page of details say.

- `src/` is the library. It is written in Verus: each function states what it returns in
  `ensures`, and Verus proves it. The proof functions whose names begin with `law_` state what
  holds of the library as a whole.
- `app/` is the applet around it: files, the conversation with the account service, GTK, and
  whatever is computed with floating-point numbers.
- `tests/` runs the library.

## Modules

| Module | What it holds |
|--------|---------------|
| `text`, `paths`, `money` | texts of numbers, escaping, lines, paths, amounts |
| `double` | comparing and cutting doubles, exactly and in integers |
| `json` | JSON documents as plain values |
| `clock` | moments, days, months and their texts |
| `usage`, `ranking` | token counts, tables of them, the leading models |
| `limits` | rate limits, the pace in a window |
| `sessions` | what a session file adds up to |
| `stats`, `cache` | what all files add up to, and what is kept between two looks at them |
| `status` | where the current rate limits come from |
| `notify` | when a window starts anew |
| `mascot` | what the mascot feels and which picture shows it |
| `render`, `details`, `page` | what is shown |
| `run` | what the program is asked to do |

## What is trusted

The clock, the calendar and JSON come from `chrono`, `serde_json` and std. Each call stands in a
small function marked `external_body`, whose comment says what is believed of it.

Prices are read from `~/.config/codex-usage-tray/prices.json`, which gives for each model the
dollars for a million tokens:

```json
{ "model": { "input": 1.0, "cached_input": 0.1, "output": 10.0 } }
```
