# picky

Sparse, shallow, blobless checkouts of git submodules, driven by declarative
config in `.gitmodules`.

The crate is split in two:

- `src/` is a library verified with Verus. It reads `.gitmodules` (the
  listing `git config -z --list` prints), decides every `git` call, file and
  message of each command, and states in its contracts exactly which. The
  laws it proves include: what `add` writes reads back as the declared
  submodule; recording a sparse list changes only that list; `remove` leaves
  no key of the submodule behind; the ref cache file reads back what was
  written; the JSON escaping of `status --json` is undone by unescaping; the
  pattern edits of `picky sparse` keep order and never duplicate; a hook's
  approval is tied to both its command text and the checked-out SHA;
  running `prepare` or `init` again keeps a resolving git dir, rebuilds a
  dangling one and plans the same configuration.
- `app/` is the `picky` binary: clap argument parsing, spawning `git`, `du`
  and `sh`, files, the terminal (`anstream`/`anstyle`) and shell completion
  (`clap_complete`). It performs what the library plans and hands the results
  back.

`tests/` exercises the library on concrete inputs.
