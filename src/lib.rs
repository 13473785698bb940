//! A small content-addressable object store in the style of git's loose
//! objects: typed objects are framed, hashed, compressed and parsed back.

pub mod addressing;
pub mod bytes;
pub mod codec;
pub mod object;
pub mod repo;
