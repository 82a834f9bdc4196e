# koi

A compiler for Koi, a small systems language, written in Verus. It scans and
parses Koi source, checks its types, lowers it to an intermediate form, and
emits either C or x86-64 assembly that links with C libraries.

Layout:

- `src/` is the verified compiler: scanner (`scanner.rs`), parser
  (`parser.rs`), syntax tree (`ast/`), type checker (`typecheck/`, `sema/`),
  lowering (`lower.rs`, `ir/`), and the two back ends (`cgen/`, `x86/`).
  Each public function states its result in its contract; the laws that
  relate several functions are public proof functions.
- `app/` is the command line tool: it reads project files and sources from
  disk, calls the library, and runs the system's C compiler and linker.
- `tests/` runs the library on concrete programs.
