# puzzle

The front end of the Puzzle build tool: it reads the command line of
`puzzle build`, checks the `puzzle.toml` files of a project, of the projects it
depends on and of their modules, applies the ignore rules of each module to
find its `.pzl` sources, and builds the tree of projects, modules and files
that a build works on.

- `src/` is the library, verified with Verus: the patterns that names,
  versions, groups and ignore rules follow (`pattern`), the checks of
  `puzzle.toml` (`driver::validate`), ignore rules and the search for sources
  (`driver::collect`, `driver::sources`), where projects and modules lie
  (`driver::locate`), the order in which projects are taken, dependences
  first (`driver::projects`), the report of ignore rules (`driver::report`), the
  command line (`cli`), the build tree (`context`), error reports (`error`) and
  string and path helpers (`text`, `extension`).
- `app/` is the program: it reads the file system and `puzzle.toml` files
  (with `toml`), caches them (with `postcard`), prints, and exits on errors.
- `tests/` exercises the library.
