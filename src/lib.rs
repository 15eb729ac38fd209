//! Process resolution and the command protocol of a memory-access driver:
//! choosing the target process by name, finding the load base of its
//! executable in its mapping table, laying out the driver's requests, and
//! the sequence of one session.
pub mod channel;
pub mod communication;
pub mod error;
pub mod locate;
pub mod maps;
pub mod session;
