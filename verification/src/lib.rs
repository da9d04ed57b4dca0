//! Font stacks, themes and page assembly for a Markdown viewer.
pub mod text;
pub mod config;
pub mod theme;
pub mod check;
pub mod html;
pub mod launch;
pub mod encoding;
