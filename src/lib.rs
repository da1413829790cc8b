//! A read-mostly filesystem view of a remote storage account: the path/inode
//! identity map, the kernel operation handlers and the request protocol of the
//! remote client, stated and proved as plain functions over values.

pub mod inode_table;
pub mod paths;
pub mod fuse_ops;
pub mod api_client;
