pub mod frame;
pub mod modal;
