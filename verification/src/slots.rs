//! The slot directory: which of the ten character slots are in use, and under
//! which character name. It is read from the decrypted payload of the
//! container's directory entry.

use crate::error::FormatError;
use crate::utf16::{field_text, read_field};
use std::collections::HashMap;
use vstd::prelude::*;

verus! {

/// The number of character slots.
pub const SLOT_COUNT: usize = 10;

/// Byte offset of the occupancy bitmap: one byte for each slot, not zero where
/// the slot is in use.
pub const OCCUPANCY_AT: usize = 176;

/// Byte offset of the name field of slot 0.
pub const SLOT_NAMES_AT: usize = 192;

/// Distance in bytes from one slot's name field to the next.
pub const SLOT_NAME_STRIDE: usize = 400;

/// The number of UTF-16 code units in a slot's name field.
pub const SLOT_NAME_UNITS: usize = 13;

/// Byte offset of the name field of slot `i`.
pub open spec fn slot_name_at(i: int) -> int {
    SLOT_NAMES_AT + SLOT_NAME_STRIDE * i
}

/// Slot `i` is marked as in use.
pub open spec fn occupied(payload: Seq<u8>, i: int) -> bool {
    payload[OCCUPANCY_AT + i] != 0
}

/// The name of slot `i`, if its name field is UTF-16.
pub open spec fn slot_name(payload: Seq<u8>, i: int) -> Option<Seq<char>> {
    field_text(payload, slot_name_at(i), SLOT_NAME_UNITS as int)
}

/// What is wrong with slot `i`, if anything: an occupied slot must have its
/// name field inside the payload, and the name must be UTF-16. A slot that is
/// not in use is never at fault.
pub open spec fn slot_fault(payload: Seq<u8>, i: int) -> Option<FormatError> {
    if !occupied(payload, i) {
        None
    } else if slot_name_at(i) + 2 * SLOT_NAME_UNITS > payload.len() {
        Some(FormatError::Truncated)
    } else if slot_name(payload, i) is None {
        Some(FormatError::BadName(i as usize))
    } else {
        None
    }
}

/// The fault of the first slot below `n` that has one.
pub open spec fn first_slot_fault(payload: Seq<u8>, n: int) -> Option<FormatError>
    decreases n,
{
    if n <= 0 {
        None
    } else if first_slot_fault(payload, n - 1) is Some {
        first_slot_fault(payload, n - 1)
    } else {
        slot_fault(payload, n - 1)
    }
}

/// Why the directory cannot be read, if it cannot: the payload ends inside the
/// occupancy bitmap, or a slot is at fault.
pub open spec fn directory_fault(payload: Seq<u8>) -> Option<FormatError> {
    if payload.len() < OCCUPANCY_AT + SLOT_COUNT {
        Some(FormatError::Truncated)
    } else {
        first_slot_fault(payload, SLOT_COUNT as int)
    }
}

/// `names` maps exactly the occupied slots below `n`, each to its name.
pub open spec fn lists_slots(names: Map<usize, String>, payload: Seq<u8>, n: int) -> bool {
    &&& forall|i: usize|
        #![trigger names.dom().contains(i)]
        names.dom().contains(i) <==> (i < n && occupied(payload, i as int))
    &&& forall|i: usize|
        #![trigger names.dom().contains(i)]
        names.dom().contains(i) ==> slot_name(payload, i as int) == Some(names[i]@)
}

/// The first slot at fault decides, whatever the slots behind it hold.
pub proof fn lemma_first_fault_decides(payload: Seq<u8>, i: int, n: int)
    requires
        0 <= i < n,
        first_slot_fault(payload, i) is None,
        slot_fault(payload, i) is Some,
    ensures
        first_slot_fault(payload, n) == slot_fault(payload, i),
    decreases n,
{
    if i < n - 1 {
        lemma_first_fault_decides(payload, i, n - 1);
    }
}

/// Reads the slot directory out of the decrypted payload of the directory
/// entry. The result has a key for each slot in use and for no other.
pub fn slot_occupancy(payload: &[u8]) -> (r: Result<HashMap<usize, String>, FormatError>)
    ensures
        match r {
            Ok(names) => directory_fault(payload@) is None && lists_slots(
                names@,
                payload@,
                SLOT_COUNT as int,
            ),
            Err(e) => directory_fault(payload@) == Some(e),
        },
{
    broadcast use vstd::std_specs::hash::group_hash_axioms;

    if payload.len() < OCCUPANCY_AT + SLOT_COUNT {
        return Err(FormatError::Truncated);
    }
    let mut names: HashMap<usize, String> = HashMap::new();
    let mut i: usize = 0;
    while i < SLOT_COUNT
        invariant
            i <= SLOT_COUNT,
            payload@.len() >= OCCUPANCY_AT + SLOT_COUNT,
            first_slot_fault(payload@, i as int) is None,
            lists_slots(names@, payload@, i as int),
        decreases SLOT_COUNT - i,
    {
        let ghost before = names@;
        if payload[OCCUPANCY_AT + i] != 0 {
            let at: usize = SLOT_NAMES_AT + SLOT_NAME_STRIDE * i;
            if payload.len() < at + 2 * SLOT_NAME_UNITS {
                proof {
                    lemma_first_fault_decides(payload@, i as int, SLOT_COUNT as int);
                }
                return Err(FormatError::Truncated);
            }
            match read_field(payload, at, SLOT_NAME_UNITS) {
                Some(text) => {
                    names.insert(i, text);
                    assert(names@ == before.insert(i, text));
                },
                None => {
                    proof {
                        lemma_first_fault_decides(payload@, i as int, SLOT_COUNT as int);
                    }
                    return Err(FormatError::BadName(i));
                },
            }
        }
        assert(lists_slots(names@, payload@, i + 1)) by {
            assert forall|j: usize| #![trigger names@.dom().contains(j)]
                names@.dom().contains(j) <==> (j < i + 1 && occupied(payload@, j as int)) by {
                assert(before.dom().contains(j) <==> (j < i && occupied(payload@, j as int)));
            }
            assert forall|j: usize| #![trigger names@.dom().contains(j)]
                names@.dom().contains(j) implies slot_name(payload@, j as int) == Some(
                names@[j]@,
            ) by {
                if j != i {
                    assert(before.dom().contains(j));
                }
            }
        }
        i = i + 1;
    }
    Ok(names)
}

} // verus!
