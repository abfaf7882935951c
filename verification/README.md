# quota_update

Keeps MarFS namespace quotas by ScoutFS xattr accounting: it walks the ScoutFS
change log in batches, gives every complete MarFS file a hidden
`scoutfs.hide.totl.acct.123.0.<namespace inode>` xattr holding its size, removes
that xattr from files their users deleted, and checkpoints its place in the
change log in a state file.

- `src/` is the library, verified with Verus: reading and writing the state file
  (`state_file`), planning each batch and deciding checkpoints (`changelog`),
  reading what the ScoutFS ioctls return (`scoutwrap`), MarFS file tags and the
  namespace map (`marfs`), the quota rule itself (`quota`), and the decimal and
  text handling they rest on (`decimal`, `text`).
- `app/` is the program: arguments, files, the ioctls and MarFS calls, and the
  loop that hands their results to the library.
- `tests/` runs the library on concrete values.
