//! A punchcard: a record of a fixed number of slots, each of which its
//! authority may claim once, stored as a 48-byte header followed by a bitset.

pub mod bits;
pub mod card;
pub mod error;
pub mod layout;
pub mod laws;
pub mod program;

pub use bits::Bits;
pub use card::Punchcard;
pub use error::{Error, ProgramError};
pub use layout::{bitset_len, PunchcardHeader, PUNCHCARD_HEADER_LEN};
pub use program::{claim, create_space, initialize, Instruction};
