//! Reader for Apple Pascal (UCSD p-System) disk images: sector
//! deinterleaving, directory decoding, text-file detokenizing and file
//! extraction.

pub mod codec;
pub mod error;
pub mod sector;
pub mod text;
pub mod directory;
pub mod disk;
pub mod segment;
