//! The entry cipher: AES-128 in CBC mode under the game's fixed key, the MD5
//! checksum of a ciphertext, and the framing of a payload inside the
//! plaintext.

use aes::cipher::block_padding::NoPadding;
use aes::cipher::{BlockDecryptMut, BlockEncryptMut, KeyIvInit};
use crate::bytes::{le_byte, lemma_u32_round_trip, read_u32_le, u32_at, write_le};
use crate::error::{CryptoError, FormatError, SaveError};
use vstd::prelude::*;
use vstd::slice::{slice_subrange, slice_to_vec};

verus! {

/// The cipher's block length in bytes. Key and initialisation vector have the
/// same length.
pub const BLOCK: usize = 16;

/// The key every save is encrypted under. It belongs to the format.
pub const SAVE_KEY: [u8; 16] = [
    0x01, 0x23, 0x45, 0x67, 0x89, 0xab, 0xcd, 0xef, 0xfe, 0xdc, 0xba, 0x98, 0x76, 0x54, 0x32, 0x10,
];

/// What AES-128-CBC encryption without padding gives for a key, an
/// initialisation vector and a whole number of blocks.
pub uninterp spec fn aes128_cbc_encrypt(key: Seq<u8>, iv: Seq<u8>, data: Seq<u8>) -> Seq<u8>;

/// What AES-128-CBC decryption without unpadding gives for a key, an
/// initialisation vector and a whole number of blocks.
pub uninterp spec fn aes128_cbc_decrypt(key: Seq<u8>, iv: Seq<u8>, data: Seq<u8>) -> Seq<u8>;

/// The MD5 digest of a byte string.
pub uninterp spec fn md5_digest(data: Seq<u8>) -> Seq<u8>;

/// Encrypts a whole number of blocks with `cbc::Encryptor<aes::Aes128>`, made
/// by `new_from_slices` and run by `encrypt_padded_mut` with `NoPadding`.
///
/// Nothing of this is proved. It is taken on trust that the ciphertext is as
/// long as the plaintext, since the blocks are encrypted in place; that it
/// depends on key, vector and plaintext alone; and that decrypting it under
/// the same key and vector gives the plaintext back, which is what makes the
/// two directions one cipher. Key and vector must have the block length, and
/// the data a multiple of it: the calls fail on anything else.
#[verifier::external_body]
pub(crate) fn cbc_encrypt_blocks(key: &[u8], iv: &[u8], data: &[u8]) -> (out: Vec<u8>)
    requires
        key.len() == BLOCK,
        iv.len() == BLOCK,
        data.len() % BLOCK == 0,
    ensures
        out@ == aes128_cbc_encrypt(key@, iv@, data@),
        out@.len() == data@.len(),
        aes128_cbc_decrypt(key@, iv@, out@) == data@,
{
    let mut buf = data.to_vec();
    let enc = cbc::Encryptor::<aes::Aes128>::new_from_slices(key, iv).unwrap();
    enc.encrypt_padded_mut::<NoPadding>(&mut buf, data.len()).unwrap().to_vec()
}

/// Decrypts a whole number of blocks with `cbc::Decryptor<aes::Aes128>`, made
/// by `new_from_slices` and run by `decrypt_padded_mut` with `NoPadding`.
///
/// Nothing of this is proved. It is taken on trust that the plaintext is as
/// long as the ciphertext, since the blocks are decrypted in place; that it
/// depends on key, vector and ciphertext alone; and that encrypting it under
/// the same key and vector gives the ciphertext back: on data of one length
/// the cipher is a one-to-one map, so the direction that undoes it on one
/// side undoes it on the other. Key and vector must have the block length,
/// and the data a multiple of it: the calls fail on anything else.
#[verifier::external_body]
pub(crate) fn cbc_decrypt_blocks(key: &[u8], iv: &[u8], data: &[u8]) -> (out: Vec<u8>)
    requires
        key.len() == BLOCK,
        iv.len() == BLOCK,
        data.len() % BLOCK == 0,
    ensures
        out@ == aes128_cbc_decrypt(key@, iv@, data@),
        out@.len() == data@.len(),
        aes128_cbc_encrypt(key@, iv@, out@) == data@,
{
    let mut buf = data.to_vec();
    let dec = cbc::Decryptor::<aes::Aes128>::new_from_slices(key, iv).unwrap();
    dec.decrypt_padded_mut::<NoPadding>(&mut buf).unwrap().to_vec()
}

/// Takes the digest of `data` with `md5::compute`.
///
/// Nothing of this is proved. It is taken on trust that the digest has
/// sixteen bytes, which is the length of the array that comes back, and that
/// it depends on the data alone.
#[verifier::external_body]
pub(crate) fn md5_of(data: &[u8]) -> (out: Vec<u8>)
    ensures
        out@ == md5_digest(data@),
        out@.len() == 16,
{
    md5::compute(data).0.to_vec()
}

/// `plain` and `cipher` are each other's image under the cipher with the save
/// key and the vector `iv`.
pub open spec fn cbc_pair(iv: Seq<u8>, plain: Seq<u8>, cipher: Seq<u8>) -> bool {
    &&& cipher == aes128_cbc_encrypt(SAVE_KEY@, iv, plain)
    &&& plain == aes128_cbc_decrypt(SAVE_KEY@, iv, cipher)
    &&& plain.len() == cipher.len()
}

/// How many bytes PKCS#7 appends to a message of `len` bytes: between one and a
/// whole block, so that the length becomes a multiple of the block length.
pub open spec fn pkcs7_pad_len(len: int) -> int {
    16 - len % 16
}

/// `data` with its PKCS#7 padding: each appended byte holds their number.
pub open spec fn pkcs7_padded(data: Seq<u8>) -> Seq<u8> {
    data + Seq::new(
        pkcs7_pad_len(data.len() as int) as nat,
        |i: int| pkcs7_pad_len(data.len() as int) as u8,
    )
}

/// `padded` is a whole, positive number of blocks that ends in PKCS#7 padding.
pub open spec fn pkcs7_valid(padded: Seq<u8>) -> bool {
    &&& padded.len() > 0
    &&& padded.len() % 16 == 0
    &&& 1 <= padded.last() <= 16
    &&& forall|i: int|
        padded.len() - padded.last() <= i < padded.len() ==> padded[i] == padded.last()
}

/// `padded` without the padding that its last byte counts.
pub open spec fn pkcs7_stripped(padded: Seq<u8>) -> Seq<u8> {
    padded.take(padded.len() - padded.last())
}

/// How many bytes the format's own padding appends behind a payload of
/// `payload_len` bytes and its four-byte length prefix: what is missing to the
/// next block boundary, and nothing where the boundary is already met.
pub open spec fn custom_pad_len(payload_len: int) -> int {
    let p = 16 - (payload_len + 4) % 16;
    if p == 16 {
        0
    } else {
        p
    }
}

/// The format's own padding for a payload of `payload_len` bytes: each byte
/// holds their number.
pub open spec fn custom_padding(payload_len: int) -> Seq<u8> {
    Seq::new(custom_pad_len(payload_len) as nat, |i: int| custom_pad_len(payload_len) as u8)
}

/// The four-byte little-endian length prefix.
pub open spec fn length_prefix(len: int) -> Seq<u8> {
    Seq::new(4, |k: int| le_byte(len, k))
}

/// The plaintext that is encrypted for `payload`: length prefix, payload, the
/// format's own padding up to a block boundary, and PKCS#7 padding on top,
/// which is then always one whole block.
pub open spec fn plaintext_of(payload: Seq<u8>) -> Seq<u8> {
    let len = payload.len() as int;
    pkcs7_padded(length_prefix(len) + payload + custom_padding(len))
}

/// The payload inside a decrypted plaintext, or why there is none: the
/// plaintext must end in PKCS#7 padding, and what is left without it must
/// hold the length prefix and as many bytes as the prefix says.
pub open spec fn unframed(plain: Seq<u8>) -> Result<Seq<u8>, SaveError> {
    if !pkcs7_valid(plain) {
        Err(SaveError::Crypto(CryptoError::PaddingInvalid))
    } else {
        let body = pkcs7_stripped(plain);
        if body.len() < 4 || 4 + u32_at(body, 0) > body.len() {
            Err(SaveError::Format(FormatError::Truncated))
        } else {
            Ok(body.subrange(4, 4 + u32_at(body, 0)))
        }
    }
}

/// The plaintext is exactly the one that is built for the payload inside it.
pub open spec fn canonical(plain: Seq<u8>) -> bool {
    unframed(plain) matches Ok(payload) && plain == plaintext_of(payload)
}

/// What decrypting `ciphertext` under the vector `iv` returns: the vector
/// must be one block long and the ciphertext a whole number of blocks, and
/// the decrypted plaintext must hold a payload.
pub open spec fn opened(ciphertext: Seq<u8>, iv: Seq<u8>) -> Result<Seq<u8>, SaveError> {
    if iv.len() != 16 {
        Err(SaveError::Crypto(CryptoError::InvalidLength))
    } else if ciphertext.len() % 16 != 0 {
        Err(SaveError::Crypto(CryptoError::PaddingInvalid))
    } else {
        unframed(aes128_cbc_decrypt(SAVE_KEY@, iv, ciphertext))
    }
}

/// An encrypted entry body: the three parts that stand one after the other at
/// the entry's data offset.
pub struct Sealed {
    /// The MD5 digest of `ciphertext`.
    pub checksum: Vec<u8>,
    /// The initialisation vector the ciphertext was made with.
    pub iv: Vec<u8>,
    /// The encrypted plaintext.
    pub ciphertext: Vec<u8>,
}

impl Sealed {
    /// `self` is what sealing `payload` under `iv` gives.
    pub open spec fn seals(&self, payload: Seq<u8>, iv: Seq<u8>) -> bool {
        &&& self.iv@ == iv
        &&& self.ciphertext@ == aes128_cbc_encrypt(SAVE_KEY@, iv, plaintext_of(payload))
        &&& self.checksum@ == md5_digest(self.ciphertext@)
        &&& self.checksum@.len() == 16
        &&& cbc_pair(iv, plaintext_of(payload), self.ciphertext@)
    }
}

/// PKCS#7 padding is valid, fills the last block, and comes off again.
pub proof fn lemma_pkcs7_round_trip(data: Seq<u8>)
    ensures
        pkcs7_valid(pkcs7_padded(data)),
        pkcs7_stripped(pkcs7_padded(data)) == data,
        pkcs7_padded(data).len() == data.len() + pkcs7_pad_len(data.len() as int),
{
    let n = pkcs7_pad_len(data.len() as int);
    let padded = pkcs7_padded(data);
    assert(padded.len() == data.len() + n);
    assert(padded.last() == n as u8);
    assert(pkcs7_stripped(padded) =~= data);
}

/// The plaintext made for a payload is a whole number of blocks, and the
/// payload comes out of it again.
pub proof fn lemma_unframe_frame(payload: Seq<u8>)
    requires
        payload.len() <= u32::MAX,
    ensures
        unframed(plaintext_of(payload)) == Ok::<Seq<u8>, SaveError>(payload),
        plaintext_of(payload).len() % 16 == 0,
        plaintext_of(payload).len() == 4 + payload.len() + custom_pad_len(payload.len() as int)
            + 16,
{
    let len = payload.len() as int;
    let body = length_prefix(len) + payload + custom_padding(len);
    lemma_pkcs7_round_trip(body);
    assert(body.len() == 4 + len + custom_pad_len(len));
    assert(body.len() % 16 == 0);
    assert forall|k: int| 0 <= k < 4 implies body[0 + k] == #[trigger] le_byte(
        len as u32 as int,
        k,
    ) by {
        assert(body[k] == length_prefix(len)[k]);
    }
    lemma_u32_round_trip(body, 0, len as u32);
    assert(body.subrange(4, 4 + len) =~= payload);
}

/// Decrypting what sealing a payload gives returns the payload, and the
/// plaintext behind it is the one that sealing builds.
pub proof fn lemma_open_sealed(sealed: Sealed, payload: Seq<u8>, iv: Seq<u8>)
    requires
        iv.len() == 16,
        payload.len() <= u32::MAX,
        sealed.seals(payload, iv),
    ensures
        opened(sealed.ciphertext@, iv) == Ok::<Seq<u8>, SaveError>(payload),
        canonical(aes128_cbc_decrypt(SAVE_KEY@, iv, sealed.ciphertext@)),
{
    lemma_unframe_frame(payload);
}

/// Sealing the payload of a body again, under the body's own vector, gives
/// the body back byte for byte: the same ciphertext and the same checksum.
/// This holds of a body that opens, whose plaintext is the one that sealing
/// builds for its payload, and whose checksum is that of its ciphertext. A
/// plaintext with any other valid padding behind the payload opens to the
/// same payload and is not given back.
pub proof fn lemma_reseal_reproduces(
    sealed: Sealed,
    payload: Seq<u8>,
    iv: Seq<u8>,
    ciphertext: Seq<u8>,
    checksum: Seq<u8>,
)
    requires
        opened(ciphertext, iv) == Ok::<Seq<u8>, SaveError>(payload),
        cbc_pair(iv, aes128_cbc_decrypt(SAVE_KEY@, iv, ciphertext), ciphertext),
        canonical(aes128_cbc_decrypt(SAVE_KEY@, iv, ciphertext)),
        checksum == md5_digest(ciphertext),
        sealed.seals(payload, iv),
    ensures
        sealed.ciphertext@ == ciphertext,
        sealed.checksum@ == checksum,
        sealed.iv@ == iv,
{
}

/// The format's own padding for a payload of `payload_len` bytes.
pub fn custom_padding_for(payload_len: usize) -> (pad: Vec<u8>)
    ensures
        pad@ == custom_padding(payload_len as int),
{
    let over: usize = (payload_len % 16 + 4) % 16;
    let p: usize = 16 - over;
    let mut pad: Vec<u8> = Vec::new();
    if p == 16 {
        assert(pad@ =~= custom_padding(payload_len as int));
        return pad;
    }
    let mut k: usize = 0;
    while k < p
        invariant
            k <= p < 16,
            p == custom_pad_len(payload_len as int),
            pad@ == Seq::new(k as nat, |i: int| p as u8),
        decreases p - k,
    {
        pad.push(p as u8);
        k = k + 1;
        assert(pad@ =~= Seq::new(k as nat, |i: int| p as u8));
    }
    assert(pad@ =~= custom_padding(payload_len as int));
    pad
}

/// Appends PKCS#7 padding to `buf`.
pub fn pkcs7_pad(buf: &mut Vec<u8>)
    ensures
        final(buf)@ == pkcs7_padded(old(buf)@),
{
    let n: usize = 16 - buf.len() % 16;
    let mut k: usize = 0;
    while k < n
        invariant
            k <= n <= 16,
            n == pkcs7_pad_len(old(buf)@.len() as int),
            buf@ == old(buf)@ + Seq::new(k as nat, |i: int| n as u8),
        decreases n - k,
    {
        buf.push(n as u8);
        k = k + 1;
        assert(buf@ =~= old(buf)@ + Seq::new(k as nat, |i: int| n as u8));
    }
}

/// The length of `padded` without its PKCS#7 padding, or `None` where it does
/// not end in such padding.
pub fn pkcs7_unpad(padded: &[u8]) -> (r: Option<usize>)
    ensures
        r is Some <==> pkcs7_valid(padded@),
        r matches Some(n) ==> n == padded@.len() - padded@.last() && padded@.take(n as int)
            == pkcs7_stripped(padded@),
{
    let len: usize = padded.len();
    if len == 0 || len % 16 != 0 {
        return None;
    }
    let n: u8 = padded[len - 1];
    if n == 0 || n > 16 {
        return None;
    }
    let start: usize = len - n as usize;
    let mut i: usize = start;
    while i < len
        invariant
            start <= i <= len,
            len == padded@.len(),
            n == padded@.last(),
            start == len - n,
            forall|j: int| start <= j < i ==> padded@[j] == n,
        decreases len - i,
    {
        if padded[i] != n {
            return None;
        }
        i = i + 1;
    }
    Some(start)
}

/// Builds the plaintext that is encrypted for `payload`. Fails only where the
/// payload's length does not fit the 32-bit prefix.
pub fn frame(payload: &[u8]) -> (r: Result<Vec<u8>, CryptoError>)
    ensures
        payload@.len() <= u32::MAX ==> r is Ok && r->Ok_0@ == plaintext_of(payload@),
        payload@.len() > u32::MAX ==> r == Err::<Vec<u8>, CryptoError>(CryptoError::PayloadTooLong),
{
    if payload.len() > 0xFFFF_FFFF {
        return Err(CryptoError::PayloadTooLong);
    }
    let mut out: Vec<u8> = Vec::new();
    out.push(0);
    out.push(0);
    out.push(0);
    out.push(0);
    write_le(&mut out, 0, 4, payload.len() as u64);
    assert(out@ =~= length_prefix(payload@.len() as int));
    out.extend_from_slice(payload);
    assert(out@ =~= length_prefix(payload@.len() as int) + payload@);
    let pad: Vec<u8> = custom_padding_for(payload.len());
    out.extend_from_slice(pad.as_slice());
    assert(out@ =~= length_prefix(payload@.len() as int) + payload@ + custom_padding(
        payload@.len() as int,
    ));
    pkcs7_pad(&mut out);
    Ok(out)
}

/// Takes the payload out of a decrypted plaintext.
pub fn unframe(plain: &[u8]) -> (r: Result<Vec<u8>, SaveError>)
    ensures
        match r {
            Ok(payload) => unframed(plain@) == Ok::<Seq<u8>, SaveError>(payload@),
            Err(e) => unframed(plain@) == Err::<Seq<u8>, SaveError>(e),
        },
{
    let body_len: usize = match pkcs7_unpad(plain) {
        Some(n) => n,
        None => { return Err(SaveError::Crypto(CryptoError::PaddingInvalid)); },
    };
    let body: &[u8] = slice_subrange(plain, 0, body_len);
    assert(body@ == pkcs7_stripped(plain@));
    if body_len < 4 {
        return Err(SaveError::Format(FormatError::Truncated));
    }
    let declared: u32 = read_u32_le(body, 0);
    if declared as u64 > (body_len - 4) as u64 {
        return Err(SaveError::Format(FormatError::Truncated));
    }
    let payload: Vec<u8> = slice_to_vec(slice_subrange(body, 4, 4 + declared as usize));
    Ok(payload)
}

/// Encrypts `payload` for an entry: frames and pads it, encrypts it under the
/// save key with the vector `iv`, which is handed back unchanged, and takes
/// the checksum of the ciphertext.
pub fn encrypt(payload: &[u8], iv: &[u8]) -> (r: Result<Sealed, CryptoError>)
    ensures
        iv@.len() == 16 && payload@.len() <= u32::MAX ==> r is Ok && r->Ok_0.seals(payload@, iv@),
        iv@.len() != 16 ==> r is Err && r->Err_0 == CryptoError::InvalidLength,
        iv@.len() == 16 && payload@.len() > u32::MAX ==> r is Err && r->Err_0
            == CryptoError::PayloadTooLong,
{
    if iv.len() != BLOCK {
        return Err(CryptoError::InvalidLength);
    }
    let plain: Vec<u8> = match frame(payload) {
        Ok(p) => p,
        Err(e) => { return Err(e); },
    };
    let key: [u8; 16] = SAVE_KEY;
    let ciphertext: Vec<u8> = cbc_encrypt_blocks(key.as_slice(), iv, plain.as_slice());
    let checksum: Vec<u8> = md5_of(ciphertext.as_slice());
    Ok(Sealed { checksum, iv: slice_to_vec(iv), ciphertext })
}

/// Decrypts an entry's ciphertext under the save key with the vector `iv` and
/// takes the payload out of the plaintext. The checksum plays no part.
pub fn decrypt(ciphertext: &[u8], iv: &[u8]) -> (r: Result<Vec<u8>, SaveError>)
    ensures
        match r {
            Ok(payload) => opened(ciphertext@, iv@) == Ok::<Seq<u8>, SaveError>(payload@),
            Err(e) => opened(ciphertext@, iv@) == Err::<Seq<u8>, SaveError>(e),
        },
        iv@.len() == 16 && ciphertext@.len() % 16 == 0 ==> cbc_pair(
            iv@,
            aes128_cbc_decrypt(SAVE_KEY@, iv@, ciphertext@),
            ciphertext@,
        ),
{
    if iv.len() != BLOCK {
        return Err(SaveError::Crypto(CryptoError::InvalidLength));
    }
    if ciphertext.len() % BLOCK != 0 {
        return Err(SaveError::Crypto(CryptoError::PaddingInvalid));
    }
    let key: [u8; 16] = SAVE_KEY;
    let plain: Vec<u8> = cbc_decrypt_blocks(key.as_slice(), iv, ciphertext);
    unframe(plain.as_slice())
}

} // verus!
