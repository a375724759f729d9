//! Verified core of the Avacity game server: the binary wire format, the
//! message framing, and the decisions and replies of the game modules.
pub mod checksum;
pub mod decoder;
pub mod encoder;
pub mod errors;
pub mod framing;
pub mod text;
pub mod value;
pub mod world;
pub mod laws;
pub mod messages;
pub mod modules;
pub mod parser;
pub mod inventory;
pub mod server;
pub mod properties;
pub mod session;
