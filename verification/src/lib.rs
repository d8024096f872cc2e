//! An in-memory, command-driven key-value store with Redis-like semantics.
//!
//! The crate is organised around three layers: the protocol value type
//! ([`resp::RespFrame`]), the concurrent storage engine ([`backend::Backend`])
//! over three independent namespaces (scalars, hashes, sets), and the typed
//! command layer ([`cmd`]) that validates a request, turns it into one typed
//! command, and executes it against the store to produce a reply frame.

pub mod backend;
pub mod cmd;
pub mod laws;
pub mod resp;
pub mod shards;
pub mod text;

pub use backend::Backend;
pub use backend::BackendInner;
pub use cmd::echo::Echo;
pub use cmd::hmap::HGet;
pub use cmd::hmap::HGetAll;
pub use cmd::hmap::HMGet;
pub use cmd::hmap::HSet;
pub use cmd::map::Get;
pub use cmd::map::SetCmd;
pub use cmd::set::SAdd;
pub use cmd::set::SIsMember;
pub use cmd::set::SMembers;
pub use cmd::Command;
pub use cmd::CommandError;
pub use resp::RespArray;
pub use resp::RespFrame;
