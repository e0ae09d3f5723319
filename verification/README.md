# toss

Deploy self-built iOS apps to connected devices via `xcrun devicectl`:
register Xcode projects or IPAs, alias devices, build, install, launch and
re-sign, from a command line or an interactive dashboard.

## Layout

- `src/` — the library, verified with Verus. Each workflow that talks to
  the outside world (deploying, signing an IPA, planning profiles) is a
  state machine: it is handed what a command produced and answers with the
  next thing to do, and its contracts say what each step may ask for and
  what it reports. Configuration edits, device and project resolution,
  cache inventory, diagnostics and every report shown to the user are plain
  functions with exact contracts over spec functions. The front end (plain
  command line, prompts or dashboard) is modelled by the log of what it was
  shown and asked, and the contracts say what each step adds to it.
- `app/` — the program around the library: argument parsing, the config
  file, running `xcrun`, `xcodebuild`, `security`, `codesign` and friends,
  the terminal dashboard, and the loops that feed the state machines.
- `tests/` — tests of the library on concrete values.

The config file lives at `~/.config/toss/config.toml`.
