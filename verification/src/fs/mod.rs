//! File systems: NextFS on a block device, and the file-descriptor layer on top
//! of it.

pub mod data_laws;
pub mod dir_laws;
pub mod directory;
pub mod fds;
pub mod file_laws;
pub mod format_laws;
pub mod laws;
pub mod layout_laws;
pub mod maker_laws;
pub mod metadata;
pub mod nextfs;
pub mod ondisk;
pub mod open_laws;
pub mod order_laws;
pub mod path;
pub mod path_laws;
pub mod vfs;
pub mod vfs_laws;
pub mod volume;
pub mod volume_laws;
