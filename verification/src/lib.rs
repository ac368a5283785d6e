//! Client-side logic of a game bot: reading the server-data directory
//! answer, planning where that answer comes from, the websocket link's
//! connection state, and the decisions of the credential fetch loop.

pub mod text;
pub mod server_data;
pub mod ws;
pub mod credentials;
