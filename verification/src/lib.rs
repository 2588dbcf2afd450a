//! A codec for the packed 64-bit account identifier used by the Steam
//! network, converting between its two historical textual encodings and a
//! structured in-memory identifier.
//!
//! The numeric form is a string of exactly 17 decimal digits holding a packed
//! 64-bit value; the legacy form is the colon-delimited triple
//! `STEAM_x:u:n`. Parsing tries the numeric form first, then the legacy
//! form; rendering produces the legacy form and is defined only for
//! individual accounts.

pub mod codec;
pub mod digits;
pub mod fields;
pub mod laws;

pub use codec::SteamID;
pub use fields::Instance;
pub use fields::Type;
pub use fields::Universe;
