# oskernel

The verified core of a small teaching kernel for RISC-V (with x86_64 and
LoongArch page-table variants): everything in it that computes on plain
values, with contracts proved by Verus.

- `src/` is the library. Each module states its behaviour over
  mathematical models (`Seq`, `Map`, `Multiset`, `int`) and proves it:
  addresses and page-table entries (`addr`, `pagetable`, `sv39`, `x86_64`),
  memory areas and their split along page ranges (`map_area`,
  `memory_set`, `elf`, `user_stack`, `user_mem`), processes and signals
  (`process`, `signal`, `tid`, `task`, `manager`, `futex`, `timer`),
  files (`fdtable`, `pipe`, `path`, `efs`, `efs_inode`, `ext4_disk`) and the
  system-call table and dispatcher decisions (`syscall`, `error`).
- `elf_file` reads the ELF header, program headers and `.interp` section
  field by field from the bytes; `exec` states the task's start after
  `exec`; `efs_inode` models a file's block pointers and data.
- `app/` is ordinary Rust around it: the logger, the loops that wait on a
  pipe, the trap-context side of signal delivery, the dispatcher frame, and
  the places where machine addresses are read.
- `tests/` runs the library on concrete values.
