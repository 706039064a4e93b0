pub mod animations;
pub mod components;
pub mod screens;
