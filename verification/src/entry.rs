//! One entry of the container: its header fields, its encrypted body, and,
//! once it has been opened, its decrypted payload.

use crate::cipher::{
    aes128_cbc_decrypt, aes128_cbc_encrypt, canonical, cbc_pair, custom_padding,
    custom_padding_for, decrypt, encrypt, lemma_reseal_reproduces, md5_digest, opened,
    plaintext_of, Sealed, BLOCK, SAVE_KEY,
};
use crate::error::{CryptoError, FormatError, SaveError};
use crate::slots::{directory_fault, lists_slots, slot_occupancy, SLOT_COUNT};
use crate::stats::{overlaid, record_of, CharacterStats, StatsModel, RECORD_END};
use crate::utf16::{field_text, read_field};
use std::collections::HashMap;
use vstd::prelude::*;
use vstd::slice::{slice_subrange, slice_to_vec};

verus! {

/// The number of UTF-16 code units in an entry's name field.
pub const ENTRY_NAME_UNITS: usize = 12;

/// The length of the checksum at the start of an entry's body.
pub const CHECKSUM_LEN: usize = 16;

/// The length of checksum and initialisation vector together: where in an
/// entry's body the ciphertext starts.
pub const HEAD_LEN: usize = 32;

/// The index of the entry that holds the slot directory.
pub const DIRECTORY_INDEX: usize = 10;

/// An entry of the container.
#[derive(Debug)]
pub struct Bnd4Entry {
    /// The whole container that the entry was read from.
    pub raw: Vec<u8>,
    /// The entry's position in the entry table, from 0.
    pub index: usize,
    /// The length of the entry's body: checksum, vector and ciphertext.
    pub size: usize,
    /// Where in the container the body starts.
    pub data_offset: usize,
    /// Where in the container the entry's name starts.
    pub name_offset: usize,
    /// The footer length that the header declares.
    pub footer_length: usize,
    /// The entry's name.
    pub name: String,
    /// The initialisation vector.
    pub iv: Vec<u8>,
    /// The ciphertext, without checksum and vector.
    pub encrypted_data: Vec<u8>,
    /// The payload, once the entry has been opened; empty before.
    pub decrypted_data: Vec<u8>,
    /// The stored checksum. It is read and never checked.
    pub checksum: Vec<u8>,
    /// Whether `decrypted_data` holds the payload.
    pub decrypted: bool,
    /// The name of the character in this slot, as the slot directory has it.
    pub character_name: String,
    /// The character record, once it has been loaded.
    pub character_stats: Option<CharacterStats>,
}

/// Why no entry can be made of these header fields, if none can: the name
/// field and the body must lie inside the container, the body must have room
/// for checksum and vector, and the name must be UTF-16.
pub open spec fn entry_fault(
    raw: Seq<u8>,
    index: usize,
    size: usize,
    data_offset: usize,
    name_offset: usize,
) -> Option<FormatError> {
    if name_offset + 2 * ENTRY_NAME_UNITS > raw.len() {
        Some(FormatError::Truncated)
    } else if field_text(raw, name_offset as int, ENTRY_NAME_UNITS as int) is None {
        Some(FormatError::BadName(index))
    } else if size < HEAD_LEN || data_offset + size > raw.len() {
        Some(FormatError::Truncated)
    } else {
        None
    }
}

/// `raw` with the bytes from `data_offset` on replaced by `body`, as many as
/// `body` has.
pub open spec fn spliced(raw: Seq<u8>, data_offset: int, body: Seq<u8>) -> Seq<u8> {
    raw.subrange(0, data_offset) + body + raw.subrange(
        data_offset + body.len(),
        raw.len() as int,
    )
}

/// A copy of `raw` in which `body` stands at `data_offset`. Fails, rather
/// than grow the buffer, where `body` does not lie inside `raw`.
pub fn splice(raw: &[u8], data_offset: usize, body: &[u8]) -> (r: Result<Vec<u8>, FormatError>)
    ensures
        data_offset + body@.len() <= raw@.len() ==> r is Ok && r->Ok_0@ == spliced(
            raw@,
            data_offset as int,
            body@,
        ),
        data_offset + body@.len() > raw@.len() ==> r is Err && r->Err_0 == FormatError::Truncated,
{
    let len: usize = raw.len();
    if body.len() > len || data_offset > len - body.len() {
        return Err(FormatError::Truncated);
    }
    let mut out: Vec<u8> = slice_to_vec(slice_subrange(raw, 0, data_offset));
    out.extend_from_slice(body);
    out.extend_from_slice(slice_subrange(raw, data_offset + body.len(), len));
    assert(out@ =~= spliced(raw@, data_offset as int, body@));
    Ok(out)
}

impl Bnd4Entry {
    /// The entry's parts are the bytes of its body, and an opened entry holds
    /// the payload that its ciphertext opens to.
    pub open spec fn wf(&self) -> bool {
        &&& self.size >= HEAD_LEN
        &&& self.data_offset + self.size <= self.raw@.len()
        &&& self.checksum@ == self.raw@.subrange(
            self.data_offset as int,
            self.data_offset + CHECKSUM_LEN,
        )
        &&& self.iv@ == self.raw@.subrange(self.data_offset + CHECKSUM_LEN, self.data_offset + HEAD_LEN)
        &&& self.encrypted_data@ == self.raw@.subrange(
            self.data_offset + HEAD_LEN,
            self.data_offset + self.size,
        )
        &&& self.decrypted ==> self.is_open()
    }

    /// `decrypted_data` is the payload that the ciphertext opens to, and the
    /// cipher takes the decrypted plaintext back to the ciphertext.
    pub open spec fn is_open(&self) -> bool {
        &&& opened(self.encrypted_data@, self.iv@) == Ok::<Seq<u8>, SaveError>(
            self.decrypted_data@,
        )
        &&& cbc_pair(
            self.iv@,
            aes128_cbc_decrypt(SAVE_KEY@, self.iv@, self.encrypted_data@),
            self.encrypted_data@,
        )
    }

    /// The payload that the entry's methods work on: the one it holds, or the
    /// one its ciphertext opens to.
    pub open spec fn payload(&self) -> Result<Seq<u8>, SaveError> {
        if self.decrypted {
            Ok(self.decrypted_data@)
        } else {
            opened(self.encrypted_data@, self.iv@)
        }
    }

    /// `self` has the header fields, the name and the body of `before`.
    pub open spec fn same_body(&self, before: &Bnd4Entry) -> bool {
        &&& self.raw == before.raw
        &&& self.index == before.index
        &&& self.size == before.size
        &&& self.data_offset == before.data_offset
        &&& self.name_offset == before.name_offset
        &&& self.footer_length == before.footer_length
        &&& self.name == before.name
        &&& self.iv == before.iv
        &&& self.encrypted_data == before.encrypted_data
        &&& self.checksum == before.checksum
    }

    /// `self` is `before` after it has been opened to `payload`.
    pub open spec fn opened_from(&self, before: &Bnd4Entry, payload: Seq<u8>) -> bool {
        &&& self.decrypted
        &&& self.decrypted_data@ == payload
        &&& self.same_body(before)
        &&& self.character_name == before.character_name
        &&& before.wf() ==> self.wf()
    }

    /// What loading the character record gives: the record that the payload
    /// holds, or why there is none.
    pub open spec fn loaded(&self) -> Result<StatsModel, SaveError> {
        match self.payload() {
            Err(e) => Err(e),
            Ok(p) => if p.len() < RECORD_END {
                Err(SaveError::Format(FormatError::Truncated))
            } else {
                Ok(record_of(p))
            },
        }
    }

    /// The body that the entry gets when the record `m` is written into it:
    /// the payload with `m` laid over it is sealed under the entry's own
    /// vector, and checksum, vector and ciphertext stand one after the other.
    /// The new body must have exactly the size that the header declares.
    pub open spec fn resealed(&self, m: StatsModel) -> Result<Seq<u8>, SaveError> {
        match self.payload() {
            Err(e) => Err(e),
            Ok(p) => if p.len() < RECORD_END {
                Err(SaveError::Format(FormatError::Truncated))
            } else if self.iv@.len() != BLOCK {
                Err(SaveError::Crypto(CryptoError::InvalidLength))
            } else if p.len() > u32::MAX {
                Err(SaveError::Crypto(CryptoError::PayloadTooLong))
            } else if HEAD_LEN + plaintext_of(overlaid(m, p)).len() != self.size {
                Err(SaveError::Format(FormatError::SizeMismatch))
            } else {
                let ciphertext = aes128_cbc_encrypt(
                    SAVE_KEY@,
                    self.iv@,
                    plaintext_of(overlaid(m, p)),
                );
                Ok(md5_digest(ciphertext) + self.iv@ + ciphertext)
            },
        }
    }

    /// The container after the record `m` has been written into this entry:
    /// the entry's own copy of it, with the new body in place of the old one.
    pub open spec fn modified(&self, m: StatsModel) -> Result<Seq<u8>, SaveError> {
        match self.resealed(m) {
            Err(e) => Err(e),
            Ok(body) => if self.data_offset + self.size > self.raw@.len() {
                Err(SaveError::Format(FormatError::Truncated))
            } else {
                Ok(spliced(self.raw@, self.data_offset as int, body))
            },
        }
    }

    /// Why the slot directory cannot be read from this entry, if it cannot.
    pub open spec fn occupancy_fault(&self) -> Option<SaveError> {
        if self.index != DIRECTORY_INDEX {
            Some(SaveError::Format(FormatError::NotDirectory))
        } else {
            match self.payload() {
                Err(e) => Some(e),
                Ok(p) => match directory_fault(p) {
                    Some(e) => Some(SaveError::Format(e)),
                    None => None,
                },
            }
        }
    }

    /// After a method that opens the entry where it must: the entry is as
    /// before where it already was open or could not be opened, and opened
    /// otherwise. The loaded record is not touched.
    pub open spec fn opened_if_needed(&self, before: &Bnd4Entry) -> bool {
        &&& self.character_stats == before.character_stats
        &&& match before.payload() {
            Ok(p) => self.opened_from(before, p),
            Err(_) => *self == *before,
        }
    }

    /// The entry's body is what sealing its payload makes: the ciphertext
    /// decrypts to the plaintext that is built for the payload inside it, and
    /// the stored checksum is that of the ciphertext.
    pub open spec fn is_canonical(&self) -> bool {
        &&& canonical(aes128_cbc_decrypt(SAVE_KEY@, self.iv@, self.encrypted_data@))
        &&& self.checksum@ == md5_digest(self.encrypted_data@)
    }

    /// Sealing the payload of an opened entry again, under the entry's own
    /// vector, reproduces the entry's checksum and ciphertext, and splicing
    /// them in leaves the container as it is. This holds of an entry whose
    /// body is what sealing makes; a body with any other valid padding opens
    /// to the same payload and is not reproduced.
    pub proof fn lemma_unmodified_reseals(&self, sealed: Sealed)
        requires
            self.wf(),
            self.decrypted,
            self.is_canonical(),
            sealed.seals(self.decrypted_data@, self.iv@),
        ensures
            sealed.ciphertext@ == self.encrypted_data@,
            sealed.checksum@ == self.checksum@,
            sealed.iv@ == self.iv@,
            spliced(
                self.raw@,
                self.data_offset as int,
                sealed.checksum@ + sealed.iv@ + sealed.ciphertext@,
            ) == self.raw@,
    {
        lemma_reseal_reproduces(
            sealed,
            self.decrypted_data@,
            self.iv@,
            self.encrypted_data@,
            self.checksum@,
        );
        assert(spliced(
            self.raw@,
            self.data_offset as int,
            self.checksum@ + self.iv@ + self.encrypted_data@,
        ) =~= self.raw@);
    }

    /// Makes the entry that the header fields describe: reads its name, in
    /// front of the first zero code unit of the name field, and takes
    /// checksum, vector and ciphertext out of the container.
    pub fn new(
        raw: Vec<u8>,
        index: usize,
        size: usize,
        data_offset: usize,
        name_offset: usize,
        footer_length: usize,
    ) -> (r: Result<Bnd4Entry, FormatError>)
        ensures
            match r {
                Ok(entry) => {
                    &&& entry_fault(raw@, index, size, data_offset, name_offset) is None
                    &&& entry.wf()
                    &&& entry.raw == raw
                    &&& entry.index == index
                    &&& entry.size == size
                    &&& entry.data_offset == data_offset
                    &&& entry.name_offset == name_offset
                    &&& entry.footer_length == footer_length
                    &&& field_text(raw@, name_offset as int, ENTRY_NAME_UNITS as int) == Some(
                        entry.name@,
                    )
                    &&& !entry.decrypted
                    &&& entry.decrypted_data@.len() == 0
                    &&& entry.character_name@.len() == 0
                    &&& entry.character_stats is None
                },
                Err(e) => entry_fault(raw@, index, size, data_offset, name_offset) == Some(e),
            },
    {
        let len: usize = raw.len();
        if len < 2 * ENTRY_NAME_UNITS || name_offset > len - 2 * ENTRY_NAME_UNITS {
            return Err(FormatError::Truncated);
        }
        let name: String = match read_field(raw.as_slice(), name_offset, ENTRY_NAME_UNITS) {
            Some(text) => text,
            None => { return Err(FormatError::BadName(index)); },
        };
        if size < HEAD_LEN || size > len || data_offset > len - size {
            return Err(FormatError::Truncated);
        }
        let checksum: Vec<u8> = slice_to_vec(
            slice_subrange(raw.as_slice(), data_offset, data_offset + CHECKSUM_LEN),
        );
        let iv: Vec<u8> = slice_to_vec(
            slice_subrange(raw.as_slice(), data_offset + CHECKSUM_LEN, data_offset + HEAD_LEN),
        );
        let encrypted_data: Vec<u8> = slice_to_vec(
            slice_subrange(raw.as_slice(), data_offset + HEAD_LEN, data_offset + size),
        );
        Ok(
            Bnd4Entry {
                raw,
                index,
                size,
                data_offset,
                name_offset,
                footer_length,
                name,
                iv,
                encrypted_data,
                decrypted_data: Vec::new(),
                checksum,
                decrypted: false,
                character_name: String::new(),
                character_stats: None,
            },
        )
    }

    /// Opens the entry: decrypts the ciphertext and keeps the payload. The
    /// stored checksum is not looked at. On failure the entry is as before.
    pub fn decrypt(&mut self) -> (r: Result<(), SaveError>)
        ensures
            match r {
                Ok(()) => {
                    &&& opened(old(self).encrypted_data@, old(self).iv@) == Ok::<
                        Seq<u8>,
                        SaveError,
                    >(final(self).decrypted_data@)
                    &&& final(self).opened_from(old(self), final(self).decrypted_data@)
                    &&& final(self).is_open()
                    &&& final(self).character_stats == old(self).character_stats
                },
                Err(e) => opened(old(self).encrypted_data@, old(self).iv@) == Err::<
                    Seq<u8>,
                    SaveError,
                >(e) && *final(self) == *old(self),
            },
    {
        match decrypt(self.encrypted_data.as_slice(), self.iv.as_slice()) {
            Ok(payload) => {
                self.decrypted_data = payload;
                self.decrypted = true;
                Ok(())
            },
            Err(e) => Err(e),
        }
    }

    /// The format's own padding for the payload that the entry holds.
    pub fn custom_pkcs7_padding(&self) -> (pad: Vec<u8>)
        ensures
            pad@ == custom_padding(self.decrypted_data@.len() as int),
    {
        custom_padding_for(self.decrypted_data.len())
    }

    /// Opens the entry unless it is open.
    fn ensure_open(&mut self) -> (r: Result<(), SaveError>)
        ensures
            match r {
                Ok(()) => {
                    &&& old(self).payload() is Ok
                    &&& final(self).decrypted
                    &&& final(self).decrypted_data@ == old(self).payload()->Ok_0
                },
                Err(e) => old(self).payload() == Err::<Seq<u8>, SaveError>(e),
            },
            final(self).opened_if_needed(old(self)),
    {
        if self.decrypted {
            Ok(())
        } else {
            self.decrypt()
        }
    }

    /// Opens the entry where it is not open yet, and reads the character
    /// record out of its payload into `character_stats`.
    pub fn load_character_stats(&mut self) -> (r: Result<(), SaveError>)
        ensures
            match r {
                Ok(()) => {
                    &&& old(self).loaded() is Ok
                    &&& final(self).character_stats is Some
                    &&& final(self).character_stats->Some_0@ == old(self).loaded()->Ok_0
                },
                Err(e) => {
                    &&& old(self).loaded() == Err::<StatsModel, SaveError>(e)
                    &&& final(self).character_stats == old(self).character_stats
                },
            },
            match old(self).payload() {
                Ok(p) => final(self).opened_from(old(self), p),
                Err(_) => *final(self) == *old(self),
            },
    {
        match self.ensure_open() {
            Ok(()) => {},
            Err(e) => { return Err(e); },
        }
        match CharacterStats::deserialize(self.decrypted_data.as_slice()) {
            Ok(stats) => {
                self.character_stats = Some(stats);
                Ok(())
            },
            Err(e) => Err(SaveError::Format(e)),
        }
    }

    /// Opens the entry where it is not open yet, writes `new_stats` into a
    /// copy of its payload, seals the copy under the entry's own vector, and
    /// returns the new body: checksum, vector and ciphertext. Fails where the
    /// new body does not have the size that the header declares. The entry
    /// itself keeps its payload and its record.
    pub fn reseal(&mut self, new_stats: CharacterStats) -> (r: Result<Vec<u8>, SaveError>)
        ensures
            match r {
                Ok(body) => old(self).resealed(new_stats@) == Ok::<Seq<u8>, SaveError>(body@)
                    && body@.len() == old(self).size,
                Err(e) => old(self).resealed(new_stats@) == Err::<Seq<u8>, SaveError>(e),
            },
            final(self).opened_if_needed(old(self)),
    {
        match self.ensure_open() {
            Ok(()) => {},
            Err(e) => { return Err(e); },
        }
        let mut payload: Vec<u8> = self.decrypted_data.clone();
        match new_stats.serialize(&mut payload) {
            Ok(()) => {},
            Err(e) => { return Err(SaveError::Format(e)); },
        }
        let sealed: Sealed = match encrypt(payload.as_slice(), self.iv.as_slice()) {
            Ok(sealed) => sealed,
            Err(e) => { return Err(SaveError::Crypto(e)); },
        };
        if self.size < HEAD_LEN || self.size - HEAD_LEN != sealed.ciphertext.len() {
            return Err(SaveError::Format(FormatError::SizeMismatch));
        }
        let mut body: Vec<u8> = sealed.checksum;
        body.extend_from_slice(sealed.iv.as_slice());
        body.extend_from_slice(sealed.ciphertext.as_slice());
        assert(body@ =~= sealed.checksum@ + sealed.iv@ + sealed.ciphertext@);
        Ok(body)
    }

    /// Writes `new_stats` into the entry, as `reseal` does, and returns a copy
    /// of the entry's container in which the new body stands in place of the
    /// old one.
    pub fn modify_character_stats(&mut self, new_stats: CharacterStats) -> (r: Result<
        Vec<u8>,
        SaveError,
    >)
        ensures
            match r {
                Ok(new_raw) => old(self).modified(new_stats@) == Ok::<Seq<u8>, SaveError>(
                    new_raw@,
                ),
                Err(e) => old(self).modified(new_stats@) == Err::<Seq<u8>, SaveError>(e),
            },
            final(self).opened_if_needed(old(self)),
    {
        let body: Vec<u8> = match self.reseal(new_stats) {
            Ok(body) => body,
            Err(e) => { return Err(e); },
        };
        match splice(self.raw.as_slice(), self.data_offset, body.as_slice()) {
            Ok(new_raw) => Ok(new_raw),
            Err(e) => Err(SaveError::Format(e)),
        }
    }

    /// Reads the slot directory. Only the directory entry has one. Opens the
    /// entry where it is not open yet.
    pub fn get_slot_occupancy(&mut self) -> (r: Result<HashMap<usize, String>, SaveError>)
        ensures
            match r {
                Ok(names) => old(self).occupancy_fault() is None && lists_slots(
                    names@,
                    old(self).payload()->Ok_0,
                    SLOT_COUNT as int,
                ),
                Err(e) => old(self).occupancy_fault() == Some(e),
            },
            old(self).index == DIRECTORY_INDEX ==> final(self).opened_if_needed(old(self)),
            old(self).index != DIRECTORY_INDEX ==> *final(self) == *old(self),
    {
        if self.index != DIRECTORY_INDEX {
            return Err(SaveError::Format(FormatError::NotDirectory));
        }
        match self.ensure_open() {
            Ok(()) => {},
            Err(e) => { return Err(e); },
        }
        match slot_occupancy(self.decrypted_data.as_slice()) {
            Ok(names) => Ok(names),
            Err(e) => Err(SaveError::Format(e)),
        }
    }
}

} // verus!
