# miho

Bumps the versions of Cargo, npm, pnpm, Yarn and Tauri packages and updates
their dependencies.

- `src/` is the library, verified with Verus: versions and their order, release
  types, manifests and the packages they describe, dependency trees and the
  registry cache, the search for packages, the git commands, the options of the
  commands and the steps a command takes. Calls into `semver`, `globset` and
  `itertools` stand behind small trusted wrappers whose contracts name what the
  call returns.
- `app/` is the command line around it: argument parsing, the configuration
  file, walking directories, reading and writing manifests, asking the
  registries, prompts, tables and running `git`, `cargo` and the Node.js
  package managers.
- `tests/` runs the library on concrete values.
