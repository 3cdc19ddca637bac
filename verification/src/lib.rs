//! EasyTex: the decision logic of a LaTeX preview server.

pub mod text;
pub mod counting;
pub mod state;
pub mod order;
pub mod builder;
pub mod frontend_assets;
pub mod paths;
pub mod utils;
pub mod events;
pub mod words;
pub mod diagnostics;
pub mod errors;
pub mod config;
pub mod artifacts;
pub mod handlers;
pub mod capabilities;
pub mod process;
pub mod dto;
pub mod fs_safety;
pub mod pipeline;
pub mod server;
