//! Decoding of flat, delimiter-separated character-sheet exports into a typed
//! aggregate, the mapping of that aggregate onto relational rows, and the
//! fudge-dice utility around it.

pub mod characters;
pub mod codec;
pub mod skills;
pub mod utilities;
