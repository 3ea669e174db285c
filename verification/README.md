# jj_bench

Benchmark commands for the internal operations of the Jujutsu version control
system: `commonancestors`, `isancestor`, `resolveprefix` and `revset`.

- `src/` is the library. It decides what a command does: how its arguments are
  checked, how the benchmark runner is set up, which revsets a file lists, how
  benchmarks are named, what is printed, and in which order everything happens.
  Its functions are verified with Verus against their contracts. What is taken
  from `criterion` and the standard library without proof is stated where it is
  called, in `src/report.rs` and `src/text.rs`.
- `app/` runs the commands. It declares the command line, performs the actions
  that a session of the library asks for, and reports back what came of them.
  The repository is reached through the traits in `app/host.rs`.
- `tests/` exercises the library.
