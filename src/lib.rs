pub mod animation;
pub mod assets;
pub mod collision;
pub mod entity;
pub mod framebuffer;
pub mod game;
pub mod sprite;
pub mod types;
