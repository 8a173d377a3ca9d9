//! Fixed-capacity vectors and UTF-8 strings whose maximum size is part of their type.

pub mod string;
pub mod utils;
pub mod vec;

pub use string::error::Error;
pub use string::StaticString;
pub use vec::{CapacityError, StaticVec};
pub use utils::new_from_value;
