# boundless_tray

The tray companion of Boundless, which shares a mouse and a keyboard between
Windows PCs: what it decides, verified with Verus, and the program around it.

- `src/` is the library. It takes plain values and returns plain values: what the
  input broker injects and releases, when the elevated helper may take over, what
  goes onto the clipboard, how machines are arranged, how a pairing proceeds, how
  the service is brought up, what each message does to the dashboard and what each
  click asks for. Every function states what it returns or changes; the laws that
  relate several of them are the proof functions whose names begin with `law_`.
- `app/` is the program: the window, the threads, and the traits (`ports.rs`)
  behind which the daemon and Windows stand. Its loops perform the step that the
  library asks for and hand back what came of it. The modules `windows_*` implement
  the traits with the crates of the Boundless workspace and build on Windows only.
- `tests/` runs the library on concrete values.

Trusted beside Verus and vstd: `String::push` (`src/text.rs`), and the decoding of
the icons by `image` and `eframe` (`src/icon.rs`).
