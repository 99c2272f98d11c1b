# resource_installer

A console installer that finds the game's directory (from the running
processes or from Steam's `libraryfolders.vdf`), downloads a resource archive
with a progress bar, and unpacks it.

- `src/` is the verified library (Verus): the menu's key handling and line,
  the library-file line grammar, the process scan and the search order, the
  download counters and status lines, the progress line layout, and the
  unpacking steps, counts and report lines. Each public function has an exact
  contract over spec functions; the laws are public proof functions beside
  them.
- `app/` is the program around it: terminal input and output, HTTP, process
  listing, files, the async loops, and the float arithmetic of the progress
  fraction, the speed and the megabyte figures.
- `tests/` runs the library on concrete values, including a comparison of the
  line grammar with the `regex` crate.
