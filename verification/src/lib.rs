//! Reading and rewriting Dark Souls Remastered saves.
//!
//! A save is a BND4 container of encrypted entries. Ten of them hold one
//! character each; an eleventh, the directory, lists which slots are in use
//! and under which character name.
//!
//! - [`container`] parses the container's header and entry table, opens its
//!   entries and writes edited entries back into its buffer.
//! - [`entry`] holds one entry: header fields, encrypted body, and the payload
//!   once it has been decrypted.
//! - [`cipher`] is the entry cipher: AES-128 in CBC mode under the format's
//!   fixed key, the MD5 checksum, and the framing of a payload by a length
//!   prefix and two layers of padding.
//! - [`stats`] maps the character record onto its fixed byte offsets in a
//!   character payload, in both directions.
//! - [`slots`] reads the slot directory.
//! - [`monolithic`] converts the fixed-slot whole-file layout to and from its
//!   plaintext slots. It shares the cipher and the key with the rest, and
//!   nothing else.
//! - [`bytes`] and [`utf16`] read and write little-endian integers and
//!   UTF-16 text fields.
//!
//! Every function states what it returns and when it fails. What AES, MD5 and
//! the standard library's UTF-16 conversion compute is taken on trust, behind
//! five small functions in [`cipher`] and [`utf16`]; everything else is
//! proved.

pub mod bytes;
pub mod cipher;
pub mod container;
pub mod entry;
pub mod error;
pub mod monolithic;
pub mod slots;
pub mod stats;
pub mod utf16;
