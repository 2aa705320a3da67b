//! Core of an on-chain collectible game: generated items whose attributes are revealed
//! and priced, accounts with a bounded inventory, an escrowed auction for trading items,
//! a processor that applies signed commands to an explicit game state, and the word
//! encodings under which all of it is stored.

pub mod command;
pub mod config;
pub mod error;
pub mod events;
pub mod game;
pub mod market;
pub mod meme;
pub mod nugget;
pub mod player;
pub mod reward;
pub mod state;
pub mod storage;
