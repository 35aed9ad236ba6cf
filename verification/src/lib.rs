//! A small remote file system: a server that keeps a table of open
//! files and the clients that watch each of them, clients that keep a
//! local cache of the blocks they read, and the byte protocol between
//! the two. Everything that touches the network or the disk is done by
//! the caller; the library decides.
pub mod bytes;
pub mod protocol;
pub mod file_manager;
pub mod endereco;
pub mod client;
pub mod server;
pub mod coerencia;
pub mod agente;
