//! Reading and writing of ZIP archives held in memory.

pub mod aes;
pub mod codec;
pub mod compression;
pub mod cp437;
pub mod crc32;
pub mod damage;
pub mod datetime;
pub mod decode;
pub mod end_of_central_directory_record;
pub mod extra;
pub mod extract;
pub mod headers;
pub mod limit;
pub mod names;
pub mod offset;
pub mod path;
pub mod read;
pub mod records;
pub mod result;
pub mod round_trip;
pub mod spool;
pub mod text;
pub mod types;
pub mod write;
pub mod zipcrypto;
