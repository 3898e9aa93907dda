# wormhole

The core of a decentralised drive: a tree of inodes that every peer of a
network replicates, the decisions that the file-system calls and the requests
of the peers make on it, and the differences by which the changes of a file
travel. The library is written in Verus, and its contracts are proved.

## Layout

- `src/` — the verified library.
  - `pods/whpath.rs`: relative paths and entry names, parsed and normalised.
  - `pods/itree/`: the inode tree (`ITree`) with its invariant (a rooted tree
    without cycle), its entries and metadata, paths from inos and back,
    renaming, hosts of files, the listing of a subtree, and the indexing of a
    folder.
  - `pods/filesystem/`: what the system handlers ask of a pod (lookup,
    attributes, listing, creation, removal, rename, writes, flushes, extended
    attributes); each operation says what the disk is to do, and `drive.rs`
    does it.
  - `pods/filesystem/diffs.rs`: signatures and deltas of file contents, made
    by the `librsync` crate or sent whole.
  - `pods/drive.rs`: a pod's file system on a disk (any `DiskManager`):
    each operation of the system handlers and of the peers, decided on the
    tree, done on the disk, then recorded in the tree, and the requests of
    the peers dispatched to them; the calls made to the disk are recorded,
    so that contracts say which paths are made, moved, written, read or
    removed; a file that this peer does not hold is read from what its
    hosts answered when pulled.
  - `pods/filesystem/file_handle.rs`: the open files and how they were
    opened, which decide whether a read or a write is allowed.
  - `pods/network/`: the requests sent to the peers, redundancy, pulling
    files, callbacks, and the decisions of the network loop.
  - `pods/disk_managers/`: the `DiskManager` trait, and a disk held in
    memory with a model of its files.
  - `pods/pod.rs`: a pod, its statistics, the dialling of the entrypoints
    when it starts, and the offering of the files it alone holds to the
    other peers when it stops.
- `tests/` — tests run against the compiled library.
- `app/` — what runs the library against the machine: a disk manager on the
  local file system, the indexing of a folder, and errno numbers.
