# slmtop

A terminal dashboard for Slurm clusters: jobs, nodes, GPUs, disks and a summary of who runs what,
refreshed from the Slurm command line tools.

`src/` is the library, written in Verus. It holds everything that the dashboard decides or
computes, with contracts that are proved:

- `text`, `number`, `order`, `map`, `keyed`, `units`, `clock`: texts, numbers, stable sorting and
  ordered maps.
- `model`, `panel`, `snapshot`, `summary`, `sorting`, `filter`: jobs, nodes and accounting records,
  how they are searched, sorted and added up.
- `amount`, `gres`, `rows`, `tables`, `disks`: parsers for the output of `squeue`, `sinfo`, `sacct`,
  `df`, `du`, `find` and `lfs quota`.
- `slurm`, `commands`, `paths`, `usage`: the commands, what their output comes to, and the search for
  the disk usage of a user.
- `dashboard`, `board`, `panels`, `cursor`, `columns`, `book`, `events`, `control`, `mouse`: the state
  of the dashboard, and how messages, keys and the mouse change it.
- `grid`, `theme`, `cells`, `listing`, `shown`, `wording`, `stamp`, `screen`, `popup`, `frame`: what
  the screen shows.

The public proof functions whose names begin with `law_` state what holds of the library as a whole.

`app/` is the program around it: arguments, processes, files, the terminal and the event loop.

The library calls `regex`, `ratatui` (its layout solver), `time`, `shell_words` and a few functions of
the standard library through small declarations whose contracts are not proved; each says what it
claims of the function that it calls.
