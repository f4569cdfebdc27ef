//! A single-node blockchain validator pipeline: structural pre-checks,
//! per-object locking, a small instruction interpreter, effects
//! accumulation, and checkpoint sequencing, with the behaviour of each
//! stage stated as a contract and proved.

pub mod checkpoint;
pub mod codec;
pub mod effects;
pub mod kvmap;
pub mod locking;
pub mod messages;
pub mod network;
pub mod object;
pub mod precheck;
pub mod storage;
pub mod strutil;
pub mod transaction;
pub mod validator;
pub mod vm;
