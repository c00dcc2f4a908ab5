//! Client-side wire protocol of a tile-based strategy game: byte cursor,
//! typed-object codec, world and entity decoders, packet framing and the
//! client session state machine, each with a machine-checked contract.

pub mod arc_types;
pub mod block_io;
pub mod client;
pub mod packet;
pub mod save_io;
pub mod stream_builder;
pub mod tables;
pub mod type_io;
pub mod unit_io;
