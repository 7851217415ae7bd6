# file_alloc

Grows a file to a given size, on any platform: by the fast preallocation that the platform has
(`fallocate` on Unix, `SetFileValidData` on Windows), and by writing zeros where that does not
work. What is in the file stays there, a file that is long enough is left alone, and an allocation
may be interrupted at any time.

- `src/` is the library, verified with Verus. It makes no calls itself: its state machines say
  which call comes next and what to do with its outcome. `src/laws/` proves what whole runs leave
  in the file. These proofs assume of each system call what the `outcome` of its machine says that
  it may do to the file; that is written from the documentation of the calls and is not proved.
  Two things are asked of the caller on Windows. All of the file has to have been written, since
  `SetFileValidData` exposes what the disk holds in place of bytes that never were. And a fast path
  that a dropped allocation has left running has to have ended before the allocation is made again,
  since it may still cut the file back; on Unix it may run on.
- `app/` drives the state machines on `tokio::fs::File`.
- `tests/` runs them on a file in memory and on scripted outcomes.
