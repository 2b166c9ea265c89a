//! Reading the embedded squashfs image: its nodes (path, kind, symlink
//! target, modification time, permissions) in the reader's order, after a
//! check that keeps out images whose directories the reader cannot walk
//! without overflowing its arithmetic. Paths are raw bytes, as stored.
use vstd::prelude::*;

use backhand::v4::inode::{Inode, InodeInner};
use backhand::{InnerNode, Squashfs};
use std::io::Cursor;

use crate::dir_table::{keys_unique, layout_is_safe, layout_safe, InodeFields};

verus! {

/// The fields of a node: full path, kind (0 file, 1 directory, 2 symbolic
/// link, 3 anything else), symlink target (empty for other kinds),
/// modification time, permission bits.
pub type EntryFields = (Seq<u8>, u8, Seq<u8>, u32, u16);

/// The nodes of the squashfs image found at `offset` in `image`, in the
/// reader's order (sorted by path, the root `/` first), or the text of the
/// error the reader reports.
pub uninterp spec fn squashfs_entries(image: Seq<u8>, offset: u64) -> Result<Seq<EntryFields>, Seq<char>>;

/// What the superblock reader finds of the directories of the image at
/// `offset` in `image`: every inode of the inode table, the root inode, the
/// directory table's block index (block number, start in the table) and
/// the directory table itself, or the text of the error it reports.
pub uninterp spec fn squashfs_dir_layout(image: Seq<u8>, offset: u64) -> Result<(Set<InodeFields>, InodeFields, Set<(u64, u64)>, Seq<u8>), Seq<char>>;

/// The kind of a node of the image.
pub enum EntryKind {
    File,
    Dir,
    /// A symbolic link and its target.
    Symlink(Vec<u8>),
    /// A character or block device, a named pipe or a socket.
    Other,
}

/// A node of the image.
pub struct SquashfsEntry {
    /// Full path inside the image, starting with `/`.
    pub path: Vec<u8>,
    pub kind: EntryKind,
    /// Modification time, seconds since the Unix epoch.
    pub mtime: u32,
    /// Unix permission bits.
    pub permissions: u16,
}

impl SquashfsEntry {
    pub open spec fn fields(self) -> EntryFields {
        (
            self.path@,
            match self.kind {
                EntryKind::File => 0u8,
                EntryKind::Dir => 1u8,
                EntryKind::Symlink(_) => 2u8,
                EntryKind::Other => 3u8,
            },
            match self.kind {
                EntryKind::Symlink(t) => t@,
                _ => Seq::empty(),
            },
            self.mtime,
            self.permissions,
        )
    }
}

/// The fields of each entry.
pub open spec fn entries_view(entries: Seq<SquashfsEntry>) -> Seq<EntryFields> {
    entries.map_values(|e: SquashfsEntry| e.fields())
}

/// The image at `offset` either fails in the superblock reader or has a
/// safe directory layout.
pub open spec fn dir_layout_admitted(image: Seq<u8>, offset: u64) -> bool {
    match squashfs_dir_layout(image, offset) {
        Ok(l) => layout_safe(l.0, l.1, l.2, l.3),
        Err(_) => true,
    }
}

/// Reads the superblock, inode table and directory table of the image at
/// `offset` with backhand's `Squashfs::from_reader_with_offset` and returns
/// each inode of the inode map (in the order the map is walked) and the
/// root inode as `(kind, block_offset, file_size, block_index)` (kind 1 for
/// a basic directory, 2 for an extended one, 0 with zero fields for any
/// other inode), the directory table's block index and the table's bytes.
/// Claims that these, taken as sets where they come from maps, or the error
/// text, are what backhand gives for these bytes, and that the block index
/// holds each block number once, as a map does.
#[verifier::external_body]
fn read_dir_layout(image: &[u8], offset: u64) -> (r: Result<(Vec<InodeFields>, InodeFields, Vec<(u64, u64)>, Vec<u8>), String>)
    ensures
        match r {
            Ok((inodes, root, blocks, table)) => squashfs_dir_layout(image@, offset)
                == Ok::<_, Seq<char>>((inodes@.to_set(), root, blocks@.to_set(), table@))
                && keys_unique(blocks@.to_set()),
            Err(m) => squashfs_dir_layout(image@, offset)
                == Err::<(Set<InodeFields>, InodeFields, Set<(u64, u64)>, Seq<u8>), _>(m@),
        },
{
    let s = Squashfs::from_reader_with_offset(Cursor::new(image), offset).map_err(|e| e.to_string())?;
    let fields = |i: &Inode| match &i.inner {
        InodeInner::BasicDirectory(d) => (1, d.block_offset, u32::from(d.file_size), d.block_index),
        InodeInner::ExtendedDirectory(d) => (2, d.block_offset, d.file_size, d.block_index),
        _ => (0, 0, 0, 0),
    };
    let blocks = s.dir_blocks.0.iter().map(|(b, o)| (*b, *o)).collect();
    Ok((s.inodes.values().map(fields).collect(), fields(&s.root_inode), blocks, s.dir_blocks.1))
}

/// Reads the image at `offset` with backhand (`Squashfs::from_reader_with_offset`,
/// then `into_filesystem_reader`) and takes each node's path, kind, symlink
/// target, modification time and permissions, in the reader's order, paths
/// and targets as their raw bytes. Admitted are images every directory
/// inode of which (walked or not) passes `listing_safe`: on them the
/// reader's `block_offset + file_size - 3` and `inode_num + inode_offset`
/// do not overflow. Left unsaid: the reader walks directories recursively,
/// so whether a very deeply nested image fits in the thread's stack depends
/// on the stack the machine gives the thread.
#[verifier::external_body]
fn read_squashfs_entries(image: &[u8], offset: u64) -> (r: Result<Vec<SquashfsEntry>, String>)
    requires
        dir_layout_admitted(image@, offset),
    ensures
        match r {
            Ok(v) => squashfs_entries(image@, offset) == Ok::<_, Seq<char>>(entries_view(v@)),
            Err(m) => squashfs_entries(image@, offset) == Err::<Seq<EntryFields>, _>(m@),
        },
{
    let s = Squashfs::from_reader_with_offset(Cursor::new(image), offset).map_err(|e| e.to_string())?;
    let fs = s.into_filesystem_reader().map_err(|e| e.to_string())?;
    Ok(fs.root.nodes.iter().map(|n| SquashfsEntry {
        path: n.fullpath.as_os_str().as_encoded_bytes().to_vec(),
        kind: match &n.inner {
            InnerNode::File(_) => EntryKind::File,
            InnerNode::Dir(_) => EntryKind::Dir,
            InnerNode::Symlink(l) => EntryKind::Symlink(l.link.as_os_str().as_encoded_bytes().to_vec()),
            _ => EntryKind::Other,
        },
        mtime: n.header.mtime,
        permissions: n.header.permissions,
    }).collect())
}

/// What reading the image gives: its nodes, the reader's error, or a
/// refusal of a layout the reader cannot walk safely.
pub enum ImageRead {
    Entries(Seq<EntryFields>),
    Failed(Seq<char>),
    Refused,
}

/// The outcome of reading the image at `offset` in `image`.
pub open spec fn image_read(image: Seq<u8>, offset: u64) -> ImageRead {
    match squashfs_dir_layout(image, offset) {
        Err(m) => ImageRead::Failed(m),
        Ok(l) => if !layout_safe(l.0, l.1, l.2, l.3) {
            ImageRead::Refused
        } else {
            match squashfs_entries(image, offset) {
                Ok(es) => ImageRead::Entries(es),
                Err(m) => ImageRead::Failed(m),
            }
        },
    }
}

/// Errors of reading the image.
pub enum ImageError {
    /// The reader refused the image; its message.
    Squashfs(String),
    /// A directory listing of the image has a size or an inode number the
    /// reader cannot handle without overflowing.
    Refused,
}

impl ImageError {
    pub open spec fn matches_read(self, read: ImageRead) -> bool {
        match read {
            ImageRead::Failed(m) => self matches ImageError::Squashfs(t) && t@ == m,
            ImageRead::Refused => self is Refused,
            ImageRead::Entries(_) => false,
        }
    }
}

/// The nodes of the squashfs image that starts at `fs_offset` in `image`,
/// the root `/` first.
pub fn read_image_entries(image: &[u8], fs_offset: u64) -> (r: Result<Vec<SquashfsEntry>, ImageError>)
    ensures
        match image_read(image@, fs_offset) {
            ImageRead::Entries(es) => r matches Ok(v) && entries_view(v@) == es,
            other => r matches Err(e) && e.matches_read(other),
        },
{
    let (inodes, root, blocks, table) = match read_dir_layout(image, fs_offset) {
        Ok(l) => l,
        Err(m) => return Err(ImageError::Squashfs(m)),
    };
    if !layout_is_safe(&inodes, root, &blocks, &table) {
        return Err(ImageError::Refused);
    }
    match read_squashfs_entries(image, fs_offset) {
        Ok(v) => Ok(v),
        Err(m) => Err(ImageError::Squashfs(m)),
    }
}

/// The paths of a list of nodes.
pub fn entry_paths(entries: Vec<SquashfsEntry>) -> (paths: Vec<Vec<u8>>)
    ensures
        paths@.map_values(|s: Vec<u8>| s@) == entries_view(entries@).map_values(|e: EntryFields| e.0),
{
    let mut paths: Vec<Vec<u8>> = Vec::new();
    let n = entries.len();
    for i in 0..n
        invariant
            n == entries@.len(),
            paths@.len() == i,
            forall|j: int| 0 <= j < i ==> #[trigger] paths@[j]@ == entries@[j].path@,
    {
        paths.push(entries[i].path.clone());
    }
    assert(paths@.map_values(|s: Vec<u8>| s@) =~= entries_view(entries@).map_values(|e: EntryFields| e.0));
    paths
}

/// The full paths of all nodes of the squashfs image that starts at
/// `fs_offset` in `image`, the root `/` first.
pub fn list_files(image: &[u8], fs_offset: u64) -> (r: Result<Vec<Vec<u8>>, ImageError>)
    ensures
        match image_read(image@, fs_offset) {
            ImageRead::Entries(es) => r matches Ok(v)
                && v@.map_values(|s: Vec<u8>| s@) == es.map_values(|e: EntryFields| e.0),
            other => r matches Err(e) && e.matches_read(other),
        },
{
    match read_image_entries(image, fs_offset) {
        Ok(v) => Ok(entry_paths(v)),
        Err(e) => Err(e),
    }
}

} // verus!
