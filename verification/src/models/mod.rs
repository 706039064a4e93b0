pub mod mode;
pub mod player;
pub mod stats;
