//! Verified core of a small RISC-V teaching kernel: address and page-table
//! entry arithmetic, memory-area bookkeeping, file-descriptor tables, id
//! allocators, pipes, signals and the easy-fs on-disk layout.
pub mod config;
pub mod addr;
pub mod pagetable;
pub mod sv39;
pub mod x86_64;
pub mod error;
pub mod fdtable;
pub mod tid;
pub mod pipe;
pub mod memory_set;
pub mod time;
pub mod aux;
pub mod context;
pub mod info;
pub mod vpn_range;
pub mod task;
pub mod signal;
pub mod syscall;
pub mod efs;
pub mod efs_inode;
pub mod map_area;
pub mod process;
pub mod user_stack;
pub mod elf;
pub mod elf_file;
pub mod exec;
pub mod ext4_disk;
pub mod futex;
pub mod manager;
pub mod path;
pub mod timer;
pub mod user_mem;
pub mod dirent;
