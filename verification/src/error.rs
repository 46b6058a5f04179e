//! The failures the codecs report.

use vstd::prelude::*;

verus! {

/// The bytes do not have the layout a save has.
#[derive(Clone, Copy, Debug, PartialEq, Eq)]
pub enum FormatError {
    /// The buffer does not start with the container's magic tag.
    BadMagic,
    /// The buffer ends before a field that the layout places in it.
    Truncated,
    /// The header of the entry with this index does not start with the fixed
    /// entry magic.
    BadEntryMagic(usize),
    /// The name of the entry or slot with this index is not valid UTF-16.
    BadName(usize),
    /// The container has no entry with this index.
    NoSuchEntry(usize),
    /// The operation reads the slot directory, and this entry is not it.
    NotDirectory,
    /// The resealed entry would not have the size its header declares.
    SizeMismatch,
    /// The slots of the whole-file layout overlap, are not a whole number of
    /// blocks long, or do not lie inside the file.
    BadLayout,
    /// The buffer does not have the size of the whole-file layout.
    BadFileSize,
    /// The plaintext for the slot with this index is absent.
    MissingSlot(usize),
    /// The plaintext for the slot with this index does not have the slot size.
    BadSlotSize(usize),
}

/// The cipher cannot be applied, or what it returned is not a padded message.
#[derive(Clone, Copy, Debug, PartialEq, Eq)]
pub enum CryptoError {
    /// The decrypted bytes do not end in PKCS#7 padding, or the ciphertext is
    /// empty or not a whole number of blocks.
    PaddingInvalid,
    /// The initialisation vector is not one block long.
    InvalidLength,
    /// The payload is longer than its 32-bit length prefix can say.
    PayloadTooLong,
}

/// Any failure of a codec operation.
#[derive(Clone, Copy, Debug, PartialEq, Eq)]
pub enum SaveError {
    Format(FormatError),
    Crypto(CryptoError),
}

} // verus!
