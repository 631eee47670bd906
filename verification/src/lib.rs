//! Verified core of the Grate Discord bot: the Grateic Phone game state
//! machine and the table of running games, the message and validation logic
//! around them, the Hytale management helpers, the per-server settings
//! model, and build verification.

pub mod text;

pub mod canvas;
pub mod choices;
pub mod state;
pub mod game_laws;
pub mod games;
pub mod commands;
pub mod status;
pub mod submission;
pub mod messages;

pub mod hytale;
pub mod hytale_config;
pub mod hytale_help;

pub mod settings;
pub mod bot;
