//! A guild-state cache and experience engine for a chat-platform bot.
//!
//! The cache mirrors guilds, voice channels and members as immutable
//! snapshots; the engine decides how much experience an event earns, which
//! level that experience amounts to, and which roles a member is owed.

pub mod avatar;
pub mod cache;
pub mod commands;
pub mod components;
pub mod decimal;
pub mod engine;
pub mod interaction;
pub mod leaderboard;
pub mod levels;
pub mod outside;
pub mod pages;
pub mod roles;
pub mod roster;
pub mod routing;
pub mod sets;
pub mod text;
pub mod types;
pub mod xp;
