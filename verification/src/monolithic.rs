//! The whole-file layout: a buffer of fixed size that holds a fixed number of
//! slots at a fixed distance from each other. A slot is an initialisation
//! vector followed by a ciphertext of fixed length, with no length prefix, no
//! padding and no checksum. Unpacking decrypts every slot under the vector it
//! finds; packing encrypts every slot under the all-zero vector.

use crate::cipher::{
    aes128_cbc_encrypt, cbc_decrypt_blocks, cbc_encrypt_blocks, cbc_pair, BLOCK, SAVE_KEY,
};
use crate::error::FormatError;
use vstd::prelude::*;
use vstd::slice::slice_subrange;

verus! {

/// The sizes that fix a whole-file layout.
#[derive(Clone, Copy, Debug, PartialEq, Eq)]
pub struct SlotLayout {
    /// The length of the whole file.
    pub total_size: usize,
    /// The number of slots.
    pub slot_count: usize,
    /// Byte offset of slot 0.
    pub base_offset: usize,
    /// Distance in bytes from one slot to the next.
    pub stride: usize,
    /// The length of a slot's ciphertext, and so of its plaintext.
    pub slot_size: usize,
}

/// The all-zero initialisation vector that packing uses.
pub open spec fn zero_iv() -> Seq<u8> {
    Seq::new(16, |k: int| 0u8)
}

/// The views of a sequence of byte vectors.
pub open spec fn views(slots: Seq<Vec<u8>>) -> Seq<Seq<u8>> {
    Seq::new(slots.len(), |i: int| slots[i]@)
}

/// The plaintexts that a sequence of present slots holds.
pub open spec fn present(slots: Seq<Option<Vec<u8>>>) -> Seq<Seq<u8>> {
    Seq::new(slots.len(), |i: int| slots[i]->Some_0@)
}

impl SlotLayout {
    /// The slots are a whole number of blocks long, do not overlap, and lie
    /// inside the file.
    pub open spec fn wf(&self) -> bool {
        &&& self.slot_size % 16 == 0
        &&& self.stride >= 16 + self.slot_size
        &&& self.slot_count > 0 ==> self.base_offset + self.stride * (self.slot_count - 1) + 16
            + self.slot_size <= self.total_size
    }

    /// Byte offset of slot `i`.
    pub open spec fn slot_at(&self, i: int) -> int {
        self.base_offset + self.stride * i
    }

    /// `j` is the offset of a byte of slot `i`, vector or ciphertext.
    pub open spec fn in_slot(&self, i: int, j: int) -> bool {
        self.slot_at(i) <= j < self.slot_at(i) + 16 + self.slot_size
    }

    /// `j` is the offset of a byte of one of the slots below `n`.
    pub open spec fn covered(&self, j: int, n: int) -> bool
        decreases n,
    {
        n > 0 && (self.in_slot(n - 1, j) || self.covered(j, n - 1))
    }

    /// The initialisation vector of slot `i` in `buf`.
    pub open spec fn slot_iv(&self, buf: Seq<u8>, i: int) -> Seq<u8> {
        buf.subrange(self.slot_at(i), self.slot_at(i) + 16)
    }

    /// The ciphertext of slot `i` in `buf`.
    pub open spec fn slot_ciphertext(&self, buf: Seq<u8>, i: int) -> Seq<u8> {
        buf.subrange(self.slot_at(i) + 16, self.slot_at(i) + 16 + self.slot_size)
    }

    /// `plains` are the plaintexts of the slots of `buf`, each decrypted under
    /// the vector that stands in front of it.
    pub open spec fn unpacks(&self, buf: Seq<u8>, plains: Seq<Seq<u8>>) -> bool {
        &&& plains.len() == self.slot_count
        &&& forall|i: int|
            0 <= i < self.slot_count ==> cbc_pair(
                self.slot_iv(buf, i),
                #[trigger] plains[i],
                self.slot_ciphertext(buf, i),
            )
    }

    /// Byte `k` of a packed slot: the zero vector, then the plaintext
    /// encrypted under it.
    pub open spec fn slot_byte(plain: Seq<u8>, k: int) -> u8 {
        if k < 16 {
            0u8
        } else {
            aes128_cbc_encrypt(SAVE_KEY@, zero_iv(), plain)[k - 16]
        }
    }

    /// Byte `j` of the file after the first `n` slots have been packed into a
    /// file of zeros.
    pub open spec fn packed_byte(&self, plains: Seq<Seq<u8>>, n: int, j: int) -> u8
        decreases n,
    {
        if n <= 0 {
            0u8
        } else if self.in_slot(n - 1, j) {
            Self::slot_byte(plains[n - 1], j - self.slot_at(n - 1))
        } else {
            self.packed_byte(plains, n - 1, j)
        }
    }

    /// The file that packing `plains` gives.
    pub open spec fn packed(&self, plains: Seq<Seq<u8>>) -> Seq<u8> {
        Seq::new(
            self.total_size as nat,
            |j: int| self.packed_byte(plains, self.slot_count as int, j),
        )
    }

    /// What is wrong with the input for slot `i`, if anything: it must be
    /// there, and have the slot size.
    pub open spec fn input_fault(&self, slots: Seq<Option<Vec<u8>>>, i: int) -> Option<
        FormatError,
    > {
        if i >= slots.len() || slots[i] is None {
            Some(FormatError::MissingSlot(i as usize))
        } else if slots[i]->Some_0@.len() != self.slot_size {
            Some(FormatError::BadSlotSize(i as usize))
        } else {
            None
        }
    }

    /// The fault of the first input below `n` that has one.
    pub open spec fn first_input_fault(&self, slots: Seq<Option<Vec<u8>>>, n: int) -> Option<
        FormatError,
    >
        decreases n,
    {
        if n <= 0 {
            None
        } else if self.first_input_fault(slots, n - 1) is Some {
            self.first_input_fault(slots, n - 1)
        } else {
            self.input_fault(slots, n - 1)
        }
    }

    /// Why a buffer of `len` bytes cannot be unpacked, if it cannot.
    pub open spec fn unpack_fault(&self, len: int) -> Option<FormatError> {
        if !self.wf() {
            Some(FormatError::BadLayout)
        } else if len != self.total_size {
            Some(FormatError::BadFileSize)
        } else {
            None
        }
    }

    /// Why `slots` cannot be packed, if they cannot.
    pub open spec fn pack_fault(&self, slots: Seq<Option<Vec<u8>>>) -> Option<FormatError> {
        if !self.wf() {
            Some(FormatError::BadLayout)
        } else {
            self.first_input_fault(slots, self.slot_count as int)
        }
    }

    /// The first input at fault decides, whatever the inputs behind it hold.
    pub proof fn lemma_first_input_fault_decides(
        &self,
        slots: Seq<Option<Vec<u8>>>,
        i: int,
        n: int,
    )
        requires
            0 <= i < n,
            self.first_input_fault(slots, i) is None,
            self.input_fault(slots, i) is Some,
        ensures
            self.first_input_fault(slots, n) == self.input_fault(slots, i),
        decreases n,
    {
        if i < n - 1 {
            self.lemma_first_input_fault_decides(slots, i, n - 1);
        }
    }

    /// Slots lie in the order of their indices, a stride apart or more, and
    /// each ends inside the file.
    pub proof fn lemma_slot_order(&self, i: int, k: int)
        requires
            self.wf(),
            0 <= i <= k < self.slot_count,
        ensures
            i < k ==> self.slot_at(i) + self.stride <= self.slot_at(k),
            self.slot_at(k) + 16 + self.slot_size <= self.total_size,
            self.base_offset <= self.slot_at(i),
    {
        let s = self.stride as int;
        let n = self.slot_count as int;
        assert(i < k ==> s * i + s <= s * k) by (nonlinear_arith)
            requires
                0 <= i <= k,
                0 <= s,
        ;
        assert(s * k <= s * (n - 1)) by (nonlinear_arith)
            requires
                0 <= k <= n - 1,
                0 <= s,
        ;
        assert(0 <= s * i) by (nonlinear_arith)
            requires
                0 <= i,
                0 <= s,
        ;
    }

    /// Once slot `i` has been packed, its bytes stay: the slots behind it do
    /// not reach into it.
    pub proof fn lemma_packed_slot(&self, plains: Seq<Seq<u8>>, n: int, i: int, k: int)
        requires
            self.wf(),
            0 <= i < n <= self.slot_count,
            0 <= k < 16 + self.slot_size,
        ensures
            self.packed_byte(plains, n, self.slot_at(i) + k) == Self::slot_byte(plains[i], k),
        decreases n,
    {
        if i < n - 1 {
            self.lemma_slot_order(i, n - 1);
            self.lemma_packed_slot(plains, n - 1, i, k);
        }
    }

    /// A packed file is zero wherever no slot lies.
    pub proof fn lemma_packed_gap(&self, plains: Seq<Seq<u8>>, n: int, j: int)
        requires
            !self.covered(j, n),
        ensures
            self.packed_byte(plains, n, j) == 0,
        decreases n,
    {
        if n > 0 {
            self.lemma_packed_gap(plains, n - 1, j);
        }
    }

    /// A file in which some slot's vector is not all zero is not what packing
    /// gives, whatever the plaintexts: packing after unpacking changes it.
    pub proof fn lemma_round_trip_needs_zero_iv(
        &self,
        file: Seq<u8>,
        plains: Seq<Seq<u8>>,
        i: int,
        k: int,
    )
        requires
            self.wf(),
            0 <= i < self.slot_count,
            0 <= k < 16,
            self.slot_iv(file, i)[k] != 0,
            file.len() == self.total_size,
        ensures
            self.packed(plains) != file,
    {
        self.lemma_slot_order(i, i);
        self.lemma_packed_slot(plains, self.slot_count as int, i, k);
        let j = self.slot_at(i) + k;
        assert(self.packed(plains)[j] == 0);
        assert(file[j] == self.slot_iv(file, i)[k]);
    }

    /// The first `n` slots of a file with all-zero vectors come back from
    /// packing what they unpack to.
    proof fn lemma_repacked_byte(&self, file: Seq<u8>, plains: Seq<Seq<u8>>, n: int, j: int)
        requires
            self.wf(),
            file.len() == self.total_size,
            self.unpacks(file, plains),
            forall|i: int| 0 <= i < self.slot_count ==> self.slot_iv(file, i) == zero_iv(),
            0 <= n <= self.slot_count,
            0 <= j < self.total_size,
        ensures
            self.packed_byte(plains, n, j) == if self.covered(j, n) {
                file[j]
            } else {
                0u8
            },
        decreases n,
    {
        if n > 0 {
            let i = n - 1;
            if self.in_slot(i, j) {
                self.lemma_slot_order(i, i);
                let k = j - self.slot_at(i);
                if k < 16 {
                    assert(self.slot_iv(file, i)[k] == file[j]);
                    assert(zero_iv()[k] == 0);
                } else {
                    assert(cbc_pair(
                        self.slot_iv(file, i),
                        plains[i],
                        self.slot_ciphertext(file, i),
                    ));
                    assert(self.slot_ciphertext(file, i)[k - 16] == file[j]);
                }
            } else {
                self.lemma_repacked_byte(file, plains, n - 1, j);
            }
        }
    }

    /// Packing what a file unpacks to gives the file back, provided that every
    /// slot's vector is all zero and the file is zero outside its slots.
    pub proof fn lemma_pack_unpack(&self, file: Seq<u8>, plains: Seq<Seq<u8>>)
        requires
            self.wf(),
            file.len() == self.total_size,
            self.unpacks(file, plains),
            forall|i: int| 0 <= i < self.slot_count ==> self.slot_iv(file, i) == zero_iv(),
            forall|j: int|
                0 <= j < self.total_size && !self.covered(j, self.slot_count as int) ==> file[j]
                    == 0,
        ensures
            self.packed(plains) == file,
    {
        assert forall|j: int| 0 <= j < self.total_size implies self.packed(plains)[j]
            == file[j] by {
            self.lemma_repacked_byte(file, plains, self.slot_count as int, j);
        }
        assert(self.packed(plains) =~= file);
    }

    /// Each of `plains` and its ciphertext under the all-zero vector are each
    /// other's image under the cipher.
    pub open spec fn sealed_under_zero(plains: Seq<Seq<u8>>) -> bool {
        forall|i: int|
            0 <= i < plains.len() ==> cbc_pair(
                zero_iv(),
                #[trigger] plains[i],
                aes128_cbc_encrypt(SAVE_KEY@, zero_iv(), plains[i]),
            )
    }

    /// Unpacking what packing gives returns the plaintexts that were packed.
    pub proof fn lemma_unpack_pack(&self, plains: Seq<Seq<u8>>)
        requires
            self.wf(),
            plains.len() == self.slot_count,
            forall|i: int| 0 <= i < plains.len() ==> (#[trigger] plains[i]).len() == self.slot_size,
            Self::sealed_under_zero(plains),
        ensures
            self.unpacks(self.packed(plains), plains),
    {
        let file = self.packed(plains);
        assert forall|i: int| 0 <= i < self.slot_count implies cbc_pair(
            self.slot_iv(file, i),
            #[trigger] plains[i],
            self.slot_ciphertext(file, i),
        ) by {
            self.lemma_slot_order(i, i);
            let ciphertext = aes128_cbc_encrypt(SAVE_KEY@, zero_iv(), plains[i]);
            assert(cbc_pair(zero_iv(), plains[i], ciphertext));
            assert forall|k: int| 0 <= k < 16 implies self.slot_iv(file, i)[k] == zero_iv()[k] by {
                self.lemma_packed_slot(plains, self.slot_count as int, i, k);
                assert(self.slot_iv(file, i)[k] == file[self.slot_at(i) + k]);
            }
            assert(self.slot_iv(file, i) =~= zero_iv());
            assert forall|k: int| 0 <= k < self.slot_size implies self.slot_ciphertext(file, i)[k]
                == ciphertext[k] by {
                self.lemma_packed_slot(plains, self.slot_count as int, i, k + 16);
                assert(self.slot_ciphertext(file, i)[k] == file[self.slot_at(i) + 16 + k]);
            }
            assert(self.slot_ciphertext(file, i) =~= ciphertext);
        }
    }

    /// Whether the layout is sound.
    pub fn is_valid(&self) -> (ok: bool)
        ensures
            ok == self.wf(),
    {
        if self.slot_size % 16 != 0 {
            return false;
        }
        if self.slot_size > usize::MAX - 16 || self.stride < 16 + self.slot_size {
            return false;
        }
        if self.slot_count == 0 {
            return true;
        }
        let span: usize = match self.stride.checked_mul(self.slot_count - 1) {
            Some(span) => span,
            None => {
                proof {
                    self.lemma_span_too_long();
                }
                return false;
            },
        };
        let start: usize = match self.base_offset.checked_add(span) {
            Some(start) => start,
            None => { return false; },
        };
        let end: usize = match start.checked_add(16 + self.slot_size) {
            Some(end) => end,
            None => { return false; },
        };
        end <= self.total_size
    }

    /// A span of slots that does not fit a machine word does not fit the file.
    proof fn lemma_span_too_long(&self)
        requires
            self.slot_count > 0,
            self.stride * (self.slot_count - 1) > usize::MAX,
        ensures
            !self.wf(),
    {
    }

    /// Byte offset of slot `i`.
    fn offset_of(&self, i: usize) -> (at: usize)
        requires
            self.wf(),
            i < self.slot_count,
        ensures
            at == self.slot_at(i as int),
            at + 16 + self.slot_size <= self.total_size,
    {
        proof {
            self.lemma_slot_order(i as int, i as int);
            self.lemma_slot_order(0, i as int);
            assert(0 <= self.stride * i) by (nonlinear_arith)
                requires
                    0 <= i,
                    0 <= self.stride,
            ;
        }
        self.base_offset + self.stride * i
    }

    /// Splits a whole file into the plaintexts of its slots: each slot's
    /// ciphertext is decrypted under the save key and the vector that stands
    /// in front of it.
    pub fn unpack(&self, buffer: &[u8]) -> (r: Result<Vec<Vec<u8>>, FormatError>)
        ensures
            match r {
                Ok(slots) => self.unpack_fault(buffer@.len() as int) is None && self.unpacks(
                    buffer@,
                    views(slots@),
                ),
                Err(e) => self.unpack_fault(buffer@.len() as int) == Some(e),
            },
    {
        if !self.is_valid() {
            return Err(FormatError::BadLayout);
        }
        if buffer.len() != self.total_size {
            return Err(FormatError::BadFileSize);
        }
        let key: [u8; 16] = SAVE_KEY;
        let mut slots: Vec<Vec<u8>> = Vec::new();
        let mut i: usize = 0;
        while i < self.slot_count
            invariant
                i <= self.slot_count,
                self.wf(),
                buffer@.len() == self.total_size,
                key == SAVE_KEY,
                slots@.len() == i,
                forall|k: int|
                    0 <= k < i ==> cbc_pair(
                        self.slot_iv(buffer@, k),
                        (#[trigger] slots@[k])@,
                        self.slot_ciphertext(buffer@, k),
                    ),
            decreases self.slot_count - i,
        {
            let at: usize = self.offset_of(i);
            let iv: &[u8] = slice_subrange(buffer, at, at + BLOCK);
            let ciphertext: &[u8] = slice_subrange(buffer, at + BLOCK, at + BLOCK + self.slot_size);
            let plain: Vec<u8> = cbc_decrypt_blocks(key.as_slice(), iv, ciphertext);
            slots.push(plain);
            i = i + 1;
        }
        assert(self.unpacks(buffer@, views(slots@))) by {
            assert forall|k: int| 0 <= k < self.slot_count implies cbc_pair(
                self.slot_iv(buffer@, k),
                #[trigger] views(slots@)[k],
                self.slot_ciphertext(buffer@, k),
            ) by {
                assert(views(slots@)[k] == slots@[k]@);
            }
        }
        Ok(slots)
    }

    /// Joins the plaintexts of the slots into a whole file: a file of zeros in
    /// which each slot holds the all-zero vector and the plaintext encrypted
    /// under it. Every slot's plaintext must be there and have the slot size;
    /// inputs behind the last slot are not looked at.
    pub fn pack(&self, slots: &Vec<Option<Vec<u8>>>) -> (r: Result<Vec<u8>, FormatError>)
        ensures
            match r {
                Ok(file) => {
                    &&& self.pack_fault(slots@) is None
                    &&& file@ == self.packed(present(slots@))
                    &&& Self::sealed_under_zero(present(slots@).take(self.slot_count as int))
                },
                Err(e) => self.pack_fault(slots@) == Some(e),
            },
    {
        if !self.is_valid() {
            return Err(FormatError::BadLayout);
        }
        let key: [u8; 16] = SAVE_KEY;
        let iv: Vec<u8> = vec![0u8; 16];
        assert(iv@ =~= zero_iv());
        let mut file: Vec<u8> = vec![0u8; self.total_size];
        let ghost plains = present(slots@);
        let mut i: usize = 0;
        while i < self.slot_count
            invariant
                i <= self.slot_count,
                self.wf(),
                key == SAVE_KEY,
                iv@ == zero_iv(),
                plains == present(slots@),
                file@.len() == self.total_size,
                self.first_input_fault(slots@, i as int) is None,
                i <= slots@.len(),
                Self::sealed_under_zero(plains.take(i as int)),
                forall|j: int|
                    0 <= j < self.total_size ==> file@[j] == self.packed_byte(plains, i as int, j),
            decreases self.slot_count - i,
        {
            if i >= slots.len() {
                proof {
                    self.lemma_first_input_fault_decides(slots@, i as int, self.slot_count as int);
                }
                return Err(FormatError::MissingSlot(i));
            }
            let plain: &Vec<u8> = match &slots[i] {
                Some(plain) => plain,
                None => {
                    proof {
                        self.lemma_first_input_fault_decides(
                            slots@,
                            i as int,
                            self.slot_count as int,
                        );
                    }
                    return Err(FormatError::MissingSlot(i));
                },
            };
            if plain.len() != self.slot_size {
                proof {
                    self.lemma_first_input_fault_decides(slots@, i as int, self.slot_count as int);
                }
                return Err(FormatError::BadSlotSize(i));
            }
            assert(plain@ == plains[i as int]);
            let at: usize = self.offset_of(i);
            let ciphertext: Vec<u8> = cbc_encrypt_blocks(
                key.as_slice(),
                iv.as_slice(),
                plain.as_slice(),
            );
            let ghost before = file@;
            let mut k: usize = 0;
            while k < BLOCK + self.slot_size
                invariant
                    k <= BLOCK + self.slot_size,
                    at + BLOCK + self.slot_size <= self.total_size,
                    file@.len() == self.total_size,
                    ciphertext@.len() == self.slot_size,
                    ciphertext@ == aes128_cbc_encrypt(SAVE_KEY@, zero_iv(), plain@),
                    forall|j: int|
                        0 <= j < self.total_size ==> file@[j] == if at <= j < at + k {
                            Self::slot_byte(plain@, j - at)
                        } else {
                            before[j]
                        },
                decreases BLOCK + self.slot_size - k,
            {
                let b: u8 = if k < BLOCK {
                    0
                } else {
                    ciphertext[k - BLOCK]
                };
                file.set(at + k, b);
                k = k + 1;
            }
            assert(Self::sealed_under_zero(plains.take(i + 1))) by {
                assert forall|m: int| 0 <= m < i + 1 implies cbc_pair(
                    zero_iv(),
                    #[trigger] plains.take(i + 1)[m],
                    aes128_cbc_encrypt(SAVE_KEY@, zero_iv(), plains.take(i + 1)[m]),
                ) by {
                    if m < i {
                        assert(plains.take(i as int)[m] == plains.take(i + 1)[m]);
                    }
                }
            }
            i = i + 1;
        }
        assert(file@ =~= self.packed(plains));
        Ok(file)
    }
}

} // verus!
