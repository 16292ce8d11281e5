//! Building blocks: semantic versions, keyed tables, the index cache, and
//! terminal settings.


pub mod index;
pub mod keyed;
pub mod remote;
pub mod shell;
pub mod version;
