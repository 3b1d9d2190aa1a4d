//! A passphrase-protected vault of key-value secrets: validated records,
//! authenticated encryption of their values, and the store that keeps them.

pub mod clipboard;
pub mod crypto;
pub mod secret;
pub mod storage;
