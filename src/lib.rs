//! Conversion of address/comment exports into fixed-width binary records.

pub mod normalize;
pub mod pack;
pub mod record;
pub mod settings;
pub mod source;
