//! A two-player board game played on one terminal or between two processes: the
//! game rules, the binary and text forms of a game state, the wire framing of
//! messages, the handshake decisions and the validation of states sent by a peer.

pub mod game;
pub mod network;
pub mod session;
pub mod state_codec;
pub mod state_text;
pub mod terminal;
