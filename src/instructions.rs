pub mod claim;
pub mod init_event;
