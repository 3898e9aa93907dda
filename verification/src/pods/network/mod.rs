pub mod event_loop;
pub mod callbacks;
pub mod network_interface;
pub mod pull_file;
pub mod redundancy;
pub mod xattrs;
