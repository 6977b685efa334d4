# dycon

A FUSE passthrough filesystem that injects content into files without changing them on
disk, verified with Verus.

The filesystem is mounted over a directory and passes all operations through to it. Files
whose name matches one of the given glob patterns are intercepted: their readers see the
content of the file, a line feed, and the snippets that a SQLite database holds for the
file. The size that is reported of such a file is the length of what its readers see.

## Usage

```bash
dycon --dir /path/to/project --db /tmp/dycon.db --intercept 'NOTES.md' --intercept '*.config'
```

The database has to lie outside the directory. Ctrl-C unmounts.

## Snippets

```sql
CREATE TABLE snippets (
    id INTEGER PRIMARY KEY,
    filename TEXT NOT NULL,     -- path relative to the mount (e.g. "NOTES.md")
    content TEXT NOT NULL,
    sort_order INTEGER DEFAULT 0
);
```

The snippets of a file are concatenated in the order of `sort_order`.

## Layout

- `src/` is the library. Every function in it is verified, but for the few that hand over to
  the glob matcher and to the standard library: what these are taken to do stands in their
  contracts, in `intercept` and `provider`.
  - `path`, `path_index`, `inode_map`: paths as byte strings, and the inode table.
  - `attr`: attributes of files and filesystems.
  - `intercept`, `provider`: which files are intercepted, and what their readers see.
  - `protocol`, `state`, `fs`: the steps of a request, how each is to be answered, and the
    filesystem that answers it.
  - `laws`, `invariants`: what holds of the filesystem as a whole.
- `app/` mounts the filesystem, makes the system calls and queries the database.
- `tests/` runs the library on examples.
