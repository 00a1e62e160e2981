# unin

A universal installer: it recognizes a project's build system from the files in its
directory, builds it, copies the resulting executables into `/usr/local/bin`, and records
them as packages.

`src/` is the verified library. Each module states its behaviour as contracts over
character sequences and proves them:

- `text`: the string operations the installer relies on (trimming, searching, replacing,
  splitting, lines, lowercase), each against a specification of the standard-library
  behaviour it mirrors.
- `detect`: which build system a directory uses, and which cleaners to run.
- `executables`: which files of a build directory are installable executables.
- `install`: new binaries, install destinations, registry records, and the outcome of an
  installation run.
- `steps`: what each builder does after its build (stop, list binaries, install, finish);
  under `--noinstall` no builder installs.
- `display`: fitting a progress line into the terminal, by grapheme clusters or by width.
- `makefile`, `cmake`, `buildlog`, `commands`, `layout`, `paths`, `uniconf`: the rules for
  each build tool, the logs kept of their output, and the paths involved.

`app/` holds the parts that run processes, read the terminal, or touch the file system,
and calls the library for every decision.
