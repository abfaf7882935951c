pub mod changelog;
pub mod decimal;
pub mod quota;
pub mod scoutfs_ioctl_wrapper;
pub mod scoutwrap;
pub mod state_file;
pub mod text;
pub mod marfs;
