# deno_args

The options of a command line program that runs JavaScript and TypeScript, as a
library whose behaviour is stated in contracts and proved with Verus.

The library takes command line flags, configuration files and the environment
together: which files a subcommand works on, which compiler options apply, where
packages, lockfiles, `.npmrc` files and import maps come from, which certificates
are trusted, and how a compiled program finds its modules.

- `src/` is the library. It computes and does no input or output. The crate
  documentation in `src/lib.rs` says what each module is for.
- `app/` is ordinary Rust around the library. It reads files, the environment and
  the network, and carries out what the library decides. The services of the rest
  of the program come in through the traits `Host`, `ProgramHost`,
  `NodeModuleServices`, `Resolution` and `FsResolver`.
- `tests/` runs the library on concrete values, together with the crates that it
  calls.

Proof functions whose names begin with `law_` state what holds of the library as
a whole.
