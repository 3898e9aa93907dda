pub mod background;
pub mod background_worker;
pub mod disk_managers;
pub mod drive;
pub mod filesystem;
pub mod itree;
pub mod network;
pub mod pod;
pub mod whpath;
