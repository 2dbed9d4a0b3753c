//! Verified core of a music player: track catalogue bookkeeping, album
//! identifiers, queue views, lyrics request sequencing and radio streams.

pub mod charclass;
pub mod text;
pub mod models;
pub mod paths;
pub mod metadata;
pub mod library;
pub mod clock;
pub mod queue;
pub mod showcase;
pub mod lyrics;
pub mod radio;
pub mod stations;
