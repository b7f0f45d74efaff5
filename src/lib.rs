//! A two-player five-in-a-row game on a 15 by 15 board, with the rules, the
//! wire format of its network mode, and the decisions of its client session
//! all verified.

pub mod board;
pub mod win;
pub mod game;
pub mod codec;
pub mod connection;
pub mod field;
