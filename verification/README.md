# Worktree Explorer

A terminal explorer for the worktrees and local branches of Git repositories. Its logic is a
library whose behaviour is stated in contracts and proved with Verus.

## Layout

- `src/` is the verified library.
  - `path`, `text`, `order`: paths by their components, text and numbers as they are shown,
    stable sorting.
  - `error`: everything that can be refused or can fail, and the words for it.
  - `objects`: what is read out of reference names and commit objects, through `gix`.
  - `commits`, `history`, `status`: sets of commits, logs, and the changes in a worktree.
  - `git`: the lists of worktrees and branches, and the status of a branch.
  - `deletion`: what is checked before a worktree or a branch is deleted, and the steps of
    deleting it.
  - `discovery`: which repositories a search lists.
  - `keys`, `tree`, `screen`, `app`, `control`: the state of the explorer, and how keys and
    answers change it.
  - `clock`, `layout`, `widget`, `render`: what is drawn for that state.
- `app/` is the program around it: arguments, reading and changing repositories on disk, and
  the terminal.
- `tests/` runs the library, together with the crates that it calls.

## How the two halves meet

The library never touches the disk or the terminal. The program hands it what was found, as
plain values, and does what comes back: a request to look something up, a step of a deletion, or
widgets to draw. The directories of a worktree are removed, and a branch is deleted, only when a
state of the deletion says so; that this takes an inspection, a second look and the user's
confirmation is proved in `deletion` and `control`.
