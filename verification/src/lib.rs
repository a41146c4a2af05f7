//! Brute-force search for vanity keypairs: candidates are generated from
//! random seeds, kept when their public identifier ends with a target
//! suffix, logged in an in-memory accumulator, and their secrets encrypted
//! with AES-256-CBC for persistence.

pub mod encryption;
pub mod hexcode;
pub mod matching;
pub mod records;
pub mod search;
