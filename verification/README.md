# equilibrium_ffi

Automatic C FFI generation for C-compiling languages, with its decisions
verified by Verus.

- `src/` is the verified library:
  - `text` — exact character-level string operations (trim, find, split, lines,
    words, decimal numbers) over `Seq<char>`.
  - `ctype` — C type spellings to Rust FFI types.
  - `header` — the C header parser: typedefs, `typedef struct`/`typedef enum`
    blocks and function declarations, with a model of what it reads.
  - `bindings` — Rust binding generation from a parsed header, the header size
    and line limits, and the allowlists.
  - `detector` — languages, their extensions, compilers and compiler arguments,
    and what a scan finds in a directory tree that was read.
  - `compiler` — a compilation as a task that names each outside step
    (compiler lookup, process run, file check) and decides the next one.
  - `paths` — the standard library's path and case operations it relies on.
- `app/` performs the file system (reading headers and directory trees),
  process and `PATH` work around the library,
  and holds the `#[ffi]`/`#[ffi_struct]` token rewriting.
- `tests/` runs the library on concrete inputs.
