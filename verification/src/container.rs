//! The container: a magic tag, an entry count, and a table of fixed-size entry
//! headers that say where each entry's name and body lie in the same buffer.

use crate::bytes::{read_u32_le, u32_at};
use crate::cipher::opened;
use crate::entry::{entry_fault, splice, spliced, Bnd4Entry, DIRECTORY_INDEX, ENTRY_NAME_UNITS};
use crate::error::{FormatError, SaveError};
use crate::slots::{directory_fault, lists_slots, SLOT_COUNT};
use crate::stats::{CharacterStats, StatsModel};
use crate::utf16::field_text;
use std::collections::HashMap;
use vstd::prelude::*;

verus! {

/// The tag at the start of a container.
pub const MAGIC: [u8; 4] = [0x42, 0x4e, 0x44, 0x34];

/// The bytes that every entry header starts with.
pub const ENTRY_MAGIC: [u8; 8] = [0x50, 0x00, 0x00, 0x00, 0xff, 0xff, 0xff, 0xff];

/// Byte offset of the entry count.
pub const COUNT_AT: usize = 12;

/// Byte offset of the first entry header.
pub const HEADERS_AT: usize = 64;

/// The length of an entry header.
pub const HEADER_LEN: usize = 32;

/// Offset of the body size inside an entry header.
pub const SIZE_IN_HEADER: usize = 8;

/// Offset of the body's position inside an entry header.
pub const DATA_OFFSET_IN_HEADER: usize = 16;

/// Offset of the name's position inside an entry header.
pub const NAME_OFFSET_IN_HEADER: usize = 20;

/// Offset of the footer length inside an entry header.
pub const FOOTER_LENGTH_IN_HEADER: usize = 24;

/// A parsed container: the buffer and its entries in table order.
#[derive(Debug)]
pub struct Container {
    /// The buffer the container was read from.
    pub raw: Vec<u8>,
    /// The entries, in the order of their headers.
    pub entries: Vec<Bnd4Entry>,
}

/// The buffer starts with the container's magic tag.
pub open spec fn has_magic(raw: Seq<u8>) -> bool {
    raw.len() >= 4 && raw.subrange(0, 4) == MAGIC@
}

/// The number of entries that the buffer declares.
pub open spec fn entry_count(raw: Seq<u8>) -> int {
    u32_at(raw, COUNT_AT as int) as int
}

/// Byte offset of the header of entry `i`.
pub open spec fn header_at(i: int) -> int {
    HEADERS_AT + HEADER_LEN * i
}

/// The header of entry `i` starts with the entry magic.
pub open spec fn has_entry_magic(raw: Seq<u8>, i: int) -> bool {
    raw.subrange(header_at(i), header_at(i) + 8) == ENTRY_MAGIC@
}

/// The body size that the header of entry `i` declares.
pub open spec fn declared_size(raw: Seq<u8>, i: int) -> usize {
    u32_at(raw, header_at(i) + SIZE_IN_HEADER) as usize
}

/// The body position that the header of entry `i` declares.
pub open spec fn declared_data_offset(raw: Seq<u8>, i: int) -> usize {
    u32_at(raw, header_at(i) + DATA_OFFSET_IN_HEADER) as usize
}

/// The name position that the header of entry `i` declares.
pub open spec fn declared_name_offset(raw: Seq<u8>, i: int) -> usize {
    u32_at(raw, header_at(i) + NAME_OFFSET_IN_HEADER) as usize
}

/// The footer length that the header of entry `i` declares.
pub open spec fn declared_footer_length(raw: Seq<u8>, i: int) -> usize {
    u32_at(raw, header_at(i) + FOOTER_LENGTH_IN_HEADER) as usize
}

/// What is wrong with entry `i`, if anything: its header must lie inside the
/// buffer and start with the entry magic, and the fields it declares must
/// describe an entry.
pub open spec fn header_fault(raw: Seq<u8>, i: int) -> Option<FormatError> {
    if header_at(i) + HEADER_LEN > raw.len() {
        Some(FormatError::Truncated)
    } else if !has_entry_magic(raw, i) {
        Some(FormatError::BadEntryMagic(i as usize))
    } else {
        entry_fault(
            raw,
            i as usize,
            declared_size(raw, i),
            declared_data_offset(raw, i),
            declared_name_offset(raw, i),
        )
    }
}

/// The fault of the first entry below `n` that has one.
pub open spec fn first_fault(raw: Seq<u8>, n: int) -> Option<FormatError>
    decreases n,
{
    if n <= 0 {
        None
    } else if first_fault(raw, n - 1) is Some {
        first_fault(raw, n - 1)
    } else {
        header_fault(raw, n - 1)
    }
}

/// Why the buffer is no container, if it is none.
pub open spec fn container_fault(raw: Seq<u8>) -> Option<FormatError> {
    if raw.len() < 4 {
        Some(FormatError::Truncated)
    } else if !has_magic(raw) {
        Some(FormatError::BadMagic)
    } else if raw.len() < COUNT_AT + 4 {
        Some(FormatError::Truncated)
    } else {
        first_fault(raw, entry_count(raw))
    }
}

/// `entry` is entry `i` of the container in `raw`, as it is after parsing:
/// not opened yet.
pub open spec fn is_entry_of(entry: Bnd4Entry, raw: Seq<u8>, i: int) -> bool {
    &&& entry.wf()
    &&& entry.raw@ == raw
    &&& entry.index == i
    &&& entry.size == declared_size(raw, i)
    &&& entry.data_offset == declared_data_offset(raw, i)
    &&& entry.name_offset == declared_name_offset(raw, i)
    &&& entry.footer_length == declared_footer_length(raw, i)
    &&& field_text(raw, entry.name_offset as int, ENTRY_NAME_UNITS as int) == Some(entry.name@)
    &&& !entry.decrypted
    &&& entry.decrypted_data@.len() == 0
    &&& entry.character_name@.len() == 0
    &&& entry.character_stats is None
}

/// What goes wrong when the entry at position `i` is opened, if anything: its
/// ciphertext must open, and at the directory's position the entry must be the
/// directory and its payload must hold one.
pub open spec fn opening_fault(entries: Seq<Bnd4Entry>, i: int) -> Option<SaveError> {
    match opened(entries[i].encrypted_data@, entries[i].iv@) {
        Err(e) => Some(e),
        Ok(p) => if i != DIRECTORY_INDEX {
            None
        } else if entries[i].index != DIRECTORY_INDEX {
            Some(SaveError::Format(FormatError::NotDirectory))
        } else {
            match directory_fault(p) {
                Some(e) => Some(SaveError::Format(e)),
                None => None,
            }
        },
    }
}

/// The fault of the first position below `n` at which opening goes wrong.
pub open spec fn first_opening_fault(entries: Seq<Bnd4Entry>, n: int) -> Option<SaveError>
    decreases n,
{
    if n <= 0 {
        None
    } else if first_opening_fault(entries, n - 1) is Some {
        first_opening_fault(entries, n - 1)
    } else {
        opening_fault(entries, n - 1)
    }
}

/// The first position below `n` at which opening goes wrong, where there is
/// one.
pub open spec fn fault_position(entries: Seq<Bnd4Entry>, n: int) -> int
    decreases n,
{
    if n <= 0 {
        0
    } else if first_opening_fault(entries, n - 1) is Some {
        fault_position(entries, n - 1)
    } else {
        n - 1
    }
}

/// The first position at which opening goes wrong decides.
pub proof fn lemma_first_opening_fault_decides(entries: Seq<Bnd4Entry>, i: int, n: int)
    requires
        0 <= i < n,
        first_opening_fault(entries, i) is None,
        opening_fault(entries, i) is Some,
    ensures
        first_opening_fault(entries, n) == opening_fault(entries, i),
        fault_position(entries, n) == i,
    decreases n,
{
    if i < n - 1 {
        lemma_first_opening_fault_decides(entries, i, n - 1);
    }
}

/// `after` is `before`, opened to the payload that its ciphertext opens to.
/// The loaded record is not touched.
pub open spec fn is_opened(after: Bnd4Entry, before: Bnd4Entry) -> bool {
    &&& opened(before.encrypted_data@, before.iv@) is Ok
    &&& after.opened_from(&before, opened(before.encrypted_data@, before.iv@)->Ok_0)
    &&& after.is_open()
    &&& after.character_stats == before.character_stats
}

/// `after` are the entries `before` with those in front of position `k`
/// opened and those behind it untouched.
pub open spec fn opened_up_to(after: Seq<Bnd4Entry>, before: Seq<Bnd4Entry>, k: int) -> bool {
    &&& after.len() == before.len()
    &&& forall|j: int| 0 <= j < k && j < before.len() ==> is_opened(#[trigger] after[j], before[j])
    &&& forall|j: int| k < j < before.len() ==> #[trigger] after[j] == before[j]
}

/// Which slots an edit is meant for.
#[derive(Clone, Copy, Debug, PartialEq, Eq)]
pub enum SlotChoice {
    /// Every slot in use.
    All,
    /// The slot with this index.
    One(usize),
}

impl SlotChoice {
    /// The choice that a number stands for: `-1` for every slot, `0` to `9`
    /// for one slot, and none for any other number.
    pub fn from_number(slot: i64) -> (choice: Option<SlotChoice>)
        ensures
            slot == -1 ==> choice == Some(SlotChoice::All),
            0 <= slot < SLOT_COUNT ==> choice == Some(SlotChoice::One(slot as usize)),
            slot < -1 || slot >= SLOT_COUNT ==> choice is None,
    {
        if slot == -1 {
            Some(SlotChoice::All)
        } else if 0 <= slot && slot < SLOT_COUNT as i64 {
            Some(SlotChoice::One(slot as usize))
        } else {
            None
        }
    }

    /// Slot `i` is one that the choice is meant for.
    pub open spec fn includes(&self, i: usize) -> bool {
        match self {
            SlotChoice::All => true,
            SlotChoice::One(slot) => *slot == i,
        }
    }

    /// Whether slot `i` is one that the choice is meant for.
    pub fn selects(&self, i: usize) -> (yes: bool)
        ensures
            yes == self.includes(i),
    {
        match self {
            SlotChoice::All => true,
            SlotChoice::One(slot) => *slot == i,
        }
    }
}

/// The first entry at fault decides, whatever the entries behind it hold.
pub proof fn lemma_first_fault_decides(raw: Seq<u8>, i: int, n: int)
    requires
        0 <= i < n,
        first_fault(raw, i) is None,
        header_fault(raw, i) is Some,
    ensures
        first_fault(raw, n) == header_fault(raw, i),
    decreases n,
{
    if i < n - 1 {
        lemma_first_fault_decides(raw, i, n - 1);
    }
}

/// A header that does not start with the entry magic fails the whole
/// container with its index, whatever the headers behind it hold, provided
/// that the headers in front of it are sound.
pub proof fn lemma_bad_entry_magic_stops(raw: Seq<u8>, i: int)
    requires
        has_magic(raw),
        raw.len() >= COUNT_AT + 4,
        0 <= i < entry_count(raw),
        first_fault(raw, i) is None,
        header_at(i) + HEADER_LEN <= raw.len(),
        !has_entry_magic(raw, i),
    ensures
        container_fault(raw) == Some(FormatError::BadEntryMagic(i as usize)),
{
    lemma_first_fault_decides(raw, i, entry_count(raw));
}

/// Whether the `N` bytes of `s` from `at` on are those of `tag`.
fn starts_with<const N: usize>(s: &[u8], at: usize, tag: &[u8; N]) -> (same: bool)
    requires
        at + N <= s.len(),
    ensures
        same == (s@.subrange(at as int, at + N) == tag@),
{
    let mut k: usize = 0;
    while k < N
        invariant
            k <= N,
            at + N <= s.len(),
            forall|j: int| 0 <= j < k ==> s@[at + j] == tag@[j],
        decreases N - k,
    {
        if s[at + k] != tag[k] {
            assert(s@.subrange(at as int, at + N)[k as int] != tag@[k as int]);
            return false;
        }
        k = k + 1;
    }
    assert(s@.subrange(at as int, at + N) =~= tag@);
    true
}

impl Container {
    /// Every entry is sound, and the container it was read from is as long as
    /// the buffer, so that each entry's body lies inside the buffer.
    pub open spec fn wf(&self) -> bool {
        forall|i: int|
            0 <= i < self.entries@.len() ==> (#[trigger] self.entries@[i]).wf()
                && self.entries@[i].raw@.len() == self.raw@.len()
    }

    /// Every entry but the one at position `i` is as it is in `before`.
    pub open spec fn others_kept(&self, before: &Container, i: usize) -> bool {
        &&& self.entries@.len() == before.entries@.len()
        &&& forall|j: int|
            0 <= j < self.entries@.len() && j != i ==> #[trigger] self.entries@[j]
                == before.entries@[j]
    }

    /// The buffer after the record `m` has been written into the entry at
    /// position `i`: the entry's new body stands in place of the old one.
    pub open spec fn edited(&self, i: usize, m: StatsModel) -> Result<Seq<u8>, SaveError> {
        if i >= self.entries@.len() {
            Err(SaveError::Format(FormatError::NoSuchEntry(i)))
        } else {
            let entry = self.entries@[i as int];
            match entry.resealed(m) {
                Err(e) => Err(e),
                Ok(body) => if entry.data_offset + entry.size > self.raw@.len() {
                    Err(SaveError::Format(FormatError::Truncated))
                } else {
                    Ok(spliced(self.raw@, entry.data_offset as int, body))
                },
            }
        }
    }

    /// Parses a container: checks the magic tag, reads the entry count, and
    /// makes an entry of each header in turn. The first header at fault fails
    /// the whole container; no header behind it is read.
    pub fn decode(raw: Vec<u8>) -> (r: Result<Container, FormatError>)
        ensures
            match r {
                Ok(container) => {
                    &&& container_fault(raw@) is None
                    &&& container.wf()
                    &&& container.raw == raw
                    &&& container.entries@.len() == entry_count(raw@)
                    &&& forall|i: int|
                        0 <= i < container.entries@.len() ==> is_entry_of(
                            #[trigger] container.entries@[i],
                            raw@,
                            i,
                        )
                },
                Err(e) => container_fault(raw@) == Some(e),
            },
    {
        let len: usize = raw.len();
        if len < 4 {
            return Err(FormatError::Truncated);
        }
        let magic: [u8; 4] = MAGIC;
        if !starts_with(raw.as_slice(), 0, &magic) {
            return Err(FormatError::BadMagic);
        }
        if len < COUNT_AT + 4 {
            return Err(FormatError::Truncated);
        }
        let count: usize = read_u32_le(raw.as_slice(), COUNT_AT) as usize;
        let entry_magic: [u8; 8] = ENTRY_MAGIC;
        let mut entries: Vec<Bnd4Entry> = Vec::new();
        let mut i: usize = 0;
        let mut at: usize = HEADERS_AT;
        while i < count
            invariant
                i <= count,
                len == raw@.len(),
                count == entry_count(raw@),
                len >= COUNT_AT + 4,
                has_magic(raw@),
                entry_magic == ENTRY_MAGIC,
                i > 0 ==> at <= len,
                at == header_at(i as int),
                first_fault(raw@, i as int) is None,
                entries@.len() == i,
                forall|j: int| 0 <= j < i ==> is_entry_of(#[trigger] entries@[j], raw@, j),
            decreases count - i,
        {
            if at > len || len - at < HEADER_LEN {
                proof {
                    lemma_first_fault_decides(raw@, i as int, count as int);
                }
                return Err(FormatError::Truncated);
            }
            if !starts_with(raw.as_slice(), at, &entry_magic) {
                proof {
                    lemma_first_fault_decides(raw@, i as int, count as int);
                }
                return Err(FormatError::BadEntryMagic(i));
            }
            let size: usize = read_u32_le(raw.as_slice(), at + SIZE_IN_HEADER) as usize;
            let data_offset: usize = read_u32_le(raw.as_slice(), at + DATA_OFFSET_IN_HEADER)
                as usize;
            let name_offset: usize = read_u32_le(raw.as_slice(), at + NAME_OFFSET_IN_HEADER)
                as usize;
            let footer_length: usize = read_u32_le(raw.as_slice(), at + FOOTER_LENGTH_IN_HEADER)
                as usize;
            let copy: Vec<u8> = raw.clone();
            match Bnd4Entry::new(copy, i, size, data_offset, name_offset, footer_length) {
                Ok(entry) => {
                    entries.push(entry);
                },
                Err(e) => {
                    proof {
                        lemma_first_fault_decides(raw@, i as int, count as int);
                    }
                    return Err(e);
                },
            }
            i = i + 1;
            at = at + HEADER_LEN;
        }
        Ok(Container { raw, entries })
    }

    /// Opens every entry in table order and reads the slot directory out of
    /// the entry at the directory's position. A container without that entry
    /// has no slot in use. The first failure ends the run, with the entries in
    /// front of it opened and those behind it untouched.
    pub fn open_entries(&mut self) -> (r: Result<HashMap<usize, String>, SaveError>)
        ensures
            old(self).wf() ==> final(self).wf(),
            final(self).raw == old(self).raw,
            match r {
                Ok(names) => {
                    let n = old(self).entries@.len() as int;
                    &&& first_opening_fault(old(self).entries@, n) is None
                    &&& opened_up_to(final(self).entries@, old(self).entries@, n)
                    &&& if n > DIRECTORY_INDEX {
                        lists_slots(
                            names@,
                            final(self).entries@[DIRECTORY_INDEX as int].decrypted_data@,
                            SLOT_COUNT as int,
                        )
                    } else {
                        names@.dom() =~= Set::<usize>::empty()
                    }
                },
                Err(e) => {
                    let n = old(self).entries@.len() as int;
                    let k = fault_position(old(self).entries@, n);
                    let before = old(self).entries@[k];
                    &&& first_opening_fault(old(self).entries@, n) == Some(e)
                    &&& 0 <= k < n
                    &&& opened_up_to(final(self).entries@, old(self).entries@, k)
                    &&& if opened(before.encrypted_data@, before.iv@) is Ok {
                        is_opened(final(self).entries@[k], before)
                    } else {
                        final(self).entries@[k] == before
                    }
                },
            },
    {
        broadcast use vstd::std_specs::hash::group_hash_axioms;

        let n: usize = self.entries.len();
        let mut names: HashMap<usize, String> = HashMap::new();
        let mut i: usize = 0;
        while i < n
            invariant
                i <= n,
                n == old(self).entries@.len(),
                self.raw == old(self).raw,
                first_opening_fault(old(self).entries@, i as int) is None,
                opened_up_to(self.entries@, old(self).entries@, i as int),
                i < n ==> self.entries@[i as int] == old(self).entries@[i as int],
                old(self).wf() ==> self.wf(),
                if i > DIRECTORY_INDEX {
                    lists_slots(
                        names@,
                        self.entries@[DIRECTORY_INDEX as int].decrypted_data@,
                        SLOT_COUNT as int,
                    )
                } else {
                    names@.dom() =~= Set::<usize>::empty()
                },
            decreases n - i,
        {
            match self.entries[i].decrypt() {
                Ok(()) => {},
                Err(e) => {
                    proof {
                        lemma_first_opening_fault_decides(old(self).entries@, i as int, n as int);
                    }
                    return Err(e);
                },
            }
            if i == DIRECTORY_INDEX {
                match self.entries[i].get_slot_occupancy() {
                    Ok(found) => {
                        names = found;
                    },
                    Err(e) => {
                        proof {
                            lemma_first_opening_fault_decides(
                                old(self).entries@,
                                i as int,
                                n as int,
                            );
                        }
                        return Err(e);
                    },
                }
            }
            i = i + 1;
        }
        Ok(names)
    }

    /// Notes `name` as the character's name in the entry at position `i` and
    /// loads the entry's character record.
    pub fn load_slot(&mut self, i: usize, name: &str) -> (r: Result<(), SaveError>)
        ensures
            old(self).wf() ==> final(self).wf(),
            final(self).raw == old(self).raw,
            final(self).others_kept(old(self), i),
            i >= old(self).entries@.len() ==> r == Err::<(), SaveError>(
                SaveError::Format(FormatError::NoSuchEntry(i)),
            ),
            i < old(self).entries@.len() ==> {
                let before = old(self).entries@[i as int];
                let after = final(self).entries@[i as int];
                &&& after.character_name@ == name@
                &&& after.same_body(&before)
                &&& before.wf() ==> after.wf()
                &&& match before.payload() {
                    Ok(p) => after.decrypted && after.decrypted_data@ == p,
                    Err(_) => after.decrypted == before.decrypted && after.decrypted_data
                        == before.decrypted_data,
                }
                &&& match r {
                    Ok(()) => {
                        &&& before.loaded() is Ok
                        &&& after.character_stats is Some
                        &&& after.character_stats->Some_0@ == before.loaded()->Ok_0
                    },
                    Err(e) => before.loaded() == Err::<StatsModel, SaveError>(e)
                        && after.character_stats == before.character_stats,
                }
            },
    {
        if i >= self.entries.len() {
            return Err(SaveError::Format(FormatError::NoSuchEntry(i)));
        }
        self.entries[i].character_name = name.to_owned();
        self.entries[i].load_character_stats()
    }

    /// Writes `new_stats` into the entry at position `i` and puts the new body
    /// in place of the old one in the container's buffer. Bodies written into
    /// other entries before stay. On failure the buffer is as before.
    pub fn edit(&mut self, i: usize, new_stats: CharacterStats) -> (r: Result<(), SaveError>)
        ensures
            old(self).wf() ==> final(self).wf(),
            final(self).others_kept(old(self), i),
            i < old(self).entries@.len() ==> final(self).entries@[i as int].opened_if_needed(
                &old(self).entries@[i as int],
            ),
            match r {
                Ok(()) => old(self).edited(i, new_stats@) == Ok::<Seq<u8>, SaveError>(
                    final(self).raw@,
                ) && final(self).raw@.len() == old(self).raw@.len(),
                Err(e) => old(self).edited(i, new_stats@) == Err::<Seq<u8>, SaveError>(e)
                    && final(self).raw == old(self).raw,
            },
    {
        if i >= self.entries.len() {
            return Err(SaveError::Format(FormatError::NoSuchEntry(i)));
        }
        let body: Vec<u8> = match self.entries[i].reseal(new_stats) {
            Ok(body) => body,
            Err(e) => { return Err(e); },
        };
        let at: usize = self.entries[i].data_offset;
        match splice(self.raw.as_slice(), at, body.as_slice()) {
            Ok(new_raw) => {
                self.raw = new_raw;
                Ok(())
            },
            Err(e) => Err(SaveError::Format(e)),
        }
    }
}

} // verus!
