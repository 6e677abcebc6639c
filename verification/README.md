# cmake-init

`cmake-init` scaffolds a CMake C++ project (optionally with CUDA, HIP, MPI
and Kokkos) at speed.

Layout:

- `src/` — the library, verified with Verus:
  - `features.rs`: backends, capabilities and the executables they imply;
  - `cmakelists.rs`: the text of `CMakeLists.txt`;
  - `sources.rs`: the source tree: `src/main.cpp`, one kernel file per GPU
    backend, and the default `.gitignore`;
  - `text.rs`: decimal numerals and ASCII case folding;
  - `occurrences.rs`: counting where a text occurs in generated files;
  - `lib.rs`: validation of the command-line inputs (project name, boolean
    flags, C++ standard).
- `app/main.rs` — the command: argument parsing (clap), writing the files,
  `git init`.
- `tests/` — tests of the library.
