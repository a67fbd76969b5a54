//! Terminal chat client core: width-aware wrapping, the input editor,
//! scrolling, the bounded message feed, the send throttle, the chat and
//! authentication screens' key handling, and the line protocol's requests.

pub mod text;
pub mod editor;
pub mod model;
pub mod feed;
pub mod scroll;
pub mod send;
pub mod clock;
pub mod bridge;
pub mod screen;
pub mod layout;
pub mod auth;
pub mod wire;
