//! A virtual filesystem core: node attributes, path resolution over a
//! directory tree, an in-memory filesystem and a device filesystem.
//!
//! Nodes live in an arena and are named by [`NodeId`]; a directory owns its
//! children through its entry table and knows its parent by id.  Every
//! operation is a plain sequential function with a contract over the
//! mathematical view of the filesystem.
//!
//! - [`structs`], [`error`]: attributes, directory entries, error kinds.
//! - [`path`], [`name`]: the syntax of paths and the order of names.
//! - [`file`], [`null`], [`zero`], [`urandom`], [`device`]: the nodes that
//!   hold or yield bytes.
//! - [`dir`], [`model`], [`consistency`], [`tree`]: directories, the tree as
//!   mathematics, the proofs that it stays consistent, and the tree itself.
//! - [`ramfs`], [`devfs`]: the two filesystems.
//! - [`ops`]: the operations that every filesystem offers.
//! - [`laws`]: what holds between the operations.

pub mod consistency;
pub mod device;
pub mod devfs;
pub mod dir;
pub mod error;
pub mod file;
pub mod laws;
pub mod model;
pub mod name;
pub mod null;
pub mod ops;
pub mod path;
pub mod ramfs;
pub mod structs;
pub mod tree;
pub mod urandom;
pub mod zero;

pub use device::Device;
pub use devfs::DeviceFileSystem;
pub use dir::{DirNode, NodeId};
pub use error::{VfsError, VfsResult};
pub use file::FileNode;
pub use null::NullDev;
pub use ops::{VfsNodeOps, VfsOps};
pub use path::split_path;
pub use ramfs::RamFileSystem;
pub use structs::{FileSystemInfo, VfsDirEntry, VfsNodeAttr, VfsNodePerm, VfsNodeType};
pub use model::NodeRef;
pub use tree::{Done, Found, Node, Place, Tree};
pub use urandom::UrandomDev;
pub use zero::ZeroDev;
