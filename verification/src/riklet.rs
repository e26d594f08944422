//! The node agent's side: images, the commands that pull and unpack them,
//! and the command lines of the container runtime.

pub mod command;
pub mod config;
pub mod container;
pub mod emitters;
pub mod image;
pub mod image_manager;
