# rustybox

A small toolbox of Unix commands (`pwd`, `echo`, `cat`, `mkdir`, `rmdir`,
`chmod`, `rm`, `touch`, `ls`, `ln`, `grep`, `cp`, `mv`) whose decisions are
verified with Verus.

- `src/` is the verified library: for each command, what it makes of its
  command line and of what the file system reports, stated as contracts.
  `command` chooses the command, `echo` builds its text, `mode` reads
  octal and symbolic `chmod` masks (with `numeral` for the octal
  reading), `rm`, `touch`, `listing` (`ls`), `link` (`ln`),
  `grep` (through the `regex` crate), `copy` (`cp`, `mv`), `walk` (the step of
  `rm -r` and `cp -r`) and `path` (final names and joins of paths).
- `app/main.rs` is the program: it reads the arguments, calls the library,
  and does the file system work, the printing and the exit codes.
- `tests/` runs the library on concrete command lines.
