# eonix

The core of a small Unix-like kernel, written in Verus: the data structures,
rules and decoders of the kernel, each with a contract that Verus proves.

## Layout

- `src/` — the verified library.
  - `task/` — the process table (processes, groups, sessions, threads) and
    the rules that move processes between them; waiting for children,
    exit, `clone`, pid allocation, and the decisions of a thread's run loop.
  - `signal/` — signal sets, dispositions, the per-thread pending list and
    the layout of signal frames.
  - `vfs/` — paths, the dentry cache and path resolution, mounts, the
    working directory.
  - `mem/` — address ranges, memory areas and the page-fault decisions for
    copy-on-write and file mappings, page buffers and page metadata.
  - `loader/` — interpreter scripts, ELF header decoding, segment plans, the
    auxiliary vector and the initial stack.
  - `syscall/` — argument checks and plans of memory and process calls, and
    the `mremap` state machine.
  - `terminal.rs` — terminal settings and the line discipline.
  - `net/`, `pcie/`, `block/`, `rtc.rs`, `sync/` — port allocation, the
    loopback device, PCI configuration headers and BAR assignment, MBR
    partition tables, wall-clock time, a swappable shared pointer.
- `app/` — the code around the library: the console device, PCI probing,
  page-fault and file I/O, memory system calls, and the loops that perform
  I/O and waiting for the library's decisions.
- `tests/` — tests of the library on concrete values.

Program header flags and the ELF object type are read through `xmas-elf`.
