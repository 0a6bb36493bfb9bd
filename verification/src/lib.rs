//! Metadata organisation for music collections: the verified core.

pub mod actions;
pub mod allmusic;
pub mod error;
pub mod laws;
pub mod music_brainz;
pub mod num;
pub mod online;
pub mod structs;
pub mod text;
pub mod xml;
