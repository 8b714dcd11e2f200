pub mod checksum;
pub mod config;
pub mod curve;
pub mod entropy;
pub mod hexspec;
pub mod keccak;
pub mod keygen;
pub mod matcher;
pub mod search;
pub mod strutil;
pub mod verify;

pub use crate::checksum::to_checksum_address;
pub use crate::checksum::verify_checksum;
pub use crate::entropy::calculate_years_to_crack;
pub use crate::search::VanityResult;
pub use crate::verify::verify_address;
