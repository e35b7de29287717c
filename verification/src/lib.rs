//! Content fingerprints for files.
//!
//! A digest is a fixed number of raw bytes. It is computed from content,
//! written as lowercase hexadecimal text, read back from hexadecimal text of
//! either case, and compared byte by byte.
//!
//! - `hash_def`: the `HashValue` trait, which every digest algorithm
//!   implements, and the laws that hold of all of them.
//! - `hash_md5`: `HashMD5`, the 128-bit MD5 digest.
//! - `hex`: hexadecimal text and what it stands for.
//! - `text`: strings as characters and as UTF-8 bytes.
//! - `primitive`: the MD5 function, which comes from the `md-5` crate.

pub mod hash_def;
pub mod hash_md5;
pub mod hex;
pub mod primitive;
pub mod text;
