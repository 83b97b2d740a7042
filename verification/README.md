# archive

A command-line tool that compresses, extracts and lists zip, tar, gz, bz2, xz,
tar.gz, tar.bz2, tar.xz and 7z files, and extracts and lists RAR files.

- `src/` is the library, verified with Verus: format detection from file
  extensions, default output names, the planning of each command, the layout
  of content listings, what a directory walk adds to a zip or tar archive, the
  steps of RAR extraction, the source checks and their messages, in-memory
  xz, gzip and bzip2 compression, the reading of tar, zip and 7z contents,
  zip extraction (every member path stays under the output directory) and
  zip archive building, each through its crate.
- `app/` is the program around it: command-line parsing, the file system,
  and the container operations that read or write files themselves (tar
  packing and unpacking, 7z, RAR).
- `tests/` exercises the library.
