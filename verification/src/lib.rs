//! A web server with a single page. `GET /` is answered with a landing page
//! that embeds a random amount of random alphanumeric text; every other
//! request is answered with status 404. The server runs until a line arrives
//! on its console or its serving loop ends.
//!
//! This library holds what the server decides and computes: the filler text
//! and its layout, the page and its fragment, dispatch, the reading of the
//! command line, and the two states of the server's life. Sockets, the
//! console and the runtime are left to the program around it.

pub mod bytes;
pub mod config;
pub mod decimal;
pub mod entropy;
pub mod filler;
pub mod handler;
pub mod lifecycle;
pub mod messages;
pub mod page;
pub mod search;
