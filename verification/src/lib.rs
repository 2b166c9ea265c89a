//! A verified core for a type-2 AppImage runtime: argument handling, the
//! size of the ELF runtime in front of the embedded image, the content hash
//! that names temporary directories, listing and extraction plans for the
//! embedded squashfs image, and the decisions of the squashfuse mount.
pub mod text;
pub mod bytepath;
pub mod elf_size;
pub mod hash;
pub mod dir_table;
pub mod squashfs;
pub mod extract;
pub mod args;
pub mod mount;
