//! Server-side core of a multiplayer Minesweeper: the board engine, the game
//! rules, the wire messages, the shared registry, the lobby and the turn
//! driver. Everything here is synchronous; the surrounding program owns the
//! sockets, the tasks and the clock and feeds events into these types.

pub mod error;
pub mod random;
pub mod text;
pub mod game;
pub mod ws;
