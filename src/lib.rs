//! Turns a markdown reply into typed content blocks, and the small pieces of
//! state that sit around that conversion: providers, plugins and the console.

pub mod parser;
pub mod parser_laws;
pub mod plugins;
pub mod ai_providers;
pub mod ui;
