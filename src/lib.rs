//! A client library for driving a move-search engine over a line protocol:
//! the board and move encodings, the protocol codec and the session state
//! machine that decides which commands to send and what to do with replies.

pub mod moves;
pub mod text;
pub mod board;
pub mod number;
pub mod info;
pub mod ugi_engine;
pub mod transport;
