pub mod chip_format;
pub mod numtext;
pub mod rng;
pub mod text;
