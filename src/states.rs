pub mod event_register;
pub mod bitmap;
