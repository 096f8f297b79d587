//! Authentication and encrypted persistence core of a local secrets vault.
//!
//! A master password, optionally strengthened by a hardware token, is turned
//! into a 256-bit key; that key seals and opens one encrypted record store.
use vstd::prelude::*;

pub mod crypto;
pub mod error;
pub mod identity;
pub mod storage;
pub mod yubikey;

verus! {

} // verus!
