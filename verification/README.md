# language_onboarding

Help for Rust files that rust-analyzer reports as unlinked, that is, as part of no crate. A
banner above such a file says so and offers to declare its module in the module file that it
belongs to.

- `src/` holds what the banner decides, verified with Verus:
  - `rust.rs`: the banner and the work of attaching a file, as state machines;
  - `project.rs`: which file declares the module of another;
  - `mod_declaration.rs`: where a `mod` declaration goes in the text of a module file;
  - `rel_path.rs`: normalized relative paths;
  - `context.rs`: what the banner sees of the editor and asks of it;
  - `text.rs`: lines, trimming, searching and UTF-8 lengths.
- `app/` ties the library to the editor: it reads buffers and worktrees, draws the banner, and
  opens, edits and saves module files.
- `tests/` runs the library on examples.
