# forge_branch

Managed git branches: feature branches with work directories of their own under `.forge/work/`,
tracked in the registry `.forge/branches.json`, with the current one named in
`.forge/current_branch`.

- `src/` is the library, verified with Verus. An operation of the `BranchService` is a value that
  names what is to be done as an `Action` and goes on with the `Reply`. Each step is proved to do
  what the model of the operation says. The laws, proof functions whose names begin with `law_`,
  state what holds of whole runs, whatever the replies are.
- `app/` runs the operations on real repositories: it runs git, reads and writes files, and turns
  the registry into JSON and back.
- `tests/` runs the library on scripted replies.

Modules of the library:

| Module | |
| --- | --- |
| `branch`, `registry` | branches and the registry of them |
| `listing` | the order in which branches are listed |
| `action`, `error`, `run` | actions, replies, errors, and whole runs of an operation |
| `git`, `layout`, `storage` | git commands, the service's files, loading and saving |
| `create`, `switch`, `list`, `changes`, `active`, `merge`, `delete`, `abandon` | the operations |
| `service` | where operations are begun |
| `text`, `path`, `clock` | text, paths and the time, with what is trusted of the standard library and of chrono |
