//! Tunnelling of TCP connections over short-lived HTTP requests: the proof
//! token, session identifiers, the server's session table and router, and the
//! decisions of the client's upload and download loops.

pub mod auth;
pub mod client;
pub mod server;
pub mod session;
pub mod table;
pub mod text;
pub mod uid;

pub use auth::{check_proof, current_proof};
pub use uid::generate_session_id;
