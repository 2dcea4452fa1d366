//! Chess for two over a network. One side hosts the game that counts and
//! lets the rules judge every move; the other side connects as a client and
//! mirrors what the host tells it.
//!
//! The library holds what the two sides agree on and what each of them
//! decides: `board` the squares, pieces and moves; `wire` the packets and
//! how a game's values are turned into them and back; `framing` how a stream
//! of bytes is cut into messages; `server` the host's session; `client` the
//! client's session; `local` a game at one table; `bridge` what a board on
//! screen asks of any of the three, and what the sessions ask of the rules;
//! `sync` what is proved of host and client together.
//!
//! A session touches no socket. The program around it hands it what has
//! arrived (`deliver`), lets it act (`update`) and sends what it has put up
//! (`take_outgoing`); none of these ever waits.

pub mod board;
pub mod bridge;
pub mod client;
pub mod framing;
pub mod local;
pub mod server;
pub mod sync;
pub mod wire;
