# slam

Slam a lot of changes into a large number of repositories in one fell swoop.

The library holds everything that the program decides and computes, verified with
Verus. It never runs another program and never touches a file. A function that
needs the outside is a *conversation*: it takes the answers heard so far and
either names the next request or gives its result. The program under `app/`
carries the requests out, prints what the library has to say, and decides
nothing.

## Layout

| module | what it is about |
| --- | --- |
| `command` | requests, answers and conversations |
| `git`, `github`, `hooks` | what is asked of `git`, `gh` and `pre-commit`, and what the answers mean |
| `repo`, `report`, `diff` | a change to the files of a repository, and how it is shown |
| `create`, `create_laws` | making a change so that it can be undone, and what holds of every run |
| `review`, `review_laws` | reviewing pull requests, and what holds of every review |
| `sandbox`, `search`, `select` | refreshing clones, finding them, and choosing among them |
| `cli`, `commands` | the commands: what they take, and what they do stage by stage |
| `transaction` | a stack of rollback actions |
| `json`, `patterns`, `paint` | what other crates do: JSON, regular expressions and wildcards, colours |
| `text`, `numbers`, `order`, `paths`, `utils` | texts, numbers, sorting, paths and indentation |

Proof functions whose names start with `law_` state what the library promises as
a whole: that a run that fails rolls back all it has done, the latest first; that a
dry run commits nothing and leaves the remote alone; that a purge closes every open
pull request that is listed; that every clone below a directory is found.

## What is taken on trust

The contracts of the functions marked `#[verifier::external_body]`. Each of them
calls into another crate or the standard library, once or, where a value of the
other crate has to be made first, a few times over. Its documentation names the
calls and says what is claimed of them.

## Logging

The program logs through `env_logger`, to `slam.log` in the data directory of the
user and to the standard error; `RUST_LOG=debug slam ...` shows every request and
every answer.
