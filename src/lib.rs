//! A deterministically addressed record store for movie entries: each record
//! lives at an address derived from its owner and its name, is allocated with
//! exactly the space its layout needs, and is written once.
pub mod address;
pub mod record;
pub mod ledger;
pub mod program;
pub mod laws;

pub use address::{Key, movie_address};
pub use ledger::{Ledger, MovieError, Slot};
pub use program::{AddMovie, add_movie};
pub use record::{Movie, decode_movie, encode_movie, movie_discriminator, movie_space};
