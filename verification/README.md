# pomodoro

Pomodoro timer logic with its persistence rules, verified with Verus.

- `src/` is the verified library: timer settings, the domain unit of sessions,
  interruptions and history events with every command and clock observation
  (`domain`, `transition`), the consistency checks of a unit (`validation`,
  `validation_spec`), the version-1 document and its conversions (`schema`),
  the decisions of loading state (`storage`), the step-by-step protocols of
  saving, retrying and recovering it (`saving`, `recovery`), runtime
  clock evidence (`clock`), reflection summaries, error messages, and the
  earlier single-timer model (`legacy`).
- The laws of the library are public proof functions: every accepted command
  and observation keeps a consistent unit consistent (`consistency`), commands
  never credit time and an observation credits only measured monotonic time
  (`crediting`), and only an explicit start begins a session (`progress`).
- `app/` is the native side: JSON documents through serde, files, locks,
  desktop notifications and the system clock. It performs the file operations
  that the library's load, save and recovery steps call for, one at a time.
- `tests/` exercises the library on concrete values.
