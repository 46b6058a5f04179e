use aes::cipher::block_padding::Pkcs7;
use aes::cipher::{BlockDecryptMut, BlockEncryptMut, KeyIvInit};
use dsr_save::cipher::{
    custom_padding_for, decrypt, encrypt, frame, pkcs7_pad, pkcs7_unpad, unframe, SAVE_KEY,
};
use dsr_save::error::{CryptoError, FormatError, SaveError};

fn hex(s: &str) -> Vec<u8> {
    let digits: Vec<u8> = s.bytes().map(|c| (c as char).to_digit(16).unwrap() as u8).collect();
    digits.chunks(2).map(|p| p[0] * 16 + p[1]).collect()
}

fn counting_iv() -> Vec<u8> {
    (0u8..16).collect()
}

/// The crate's own padded encryption, for comparison.
fn padded_encrypt(iv: &[u8], msg: &[u8]) -> Vec<u8> {
    let mut buf = vec![0u8; msg.len() + 16];
    buf[..msg.len()].copy_from_slice(msg);
    let enc = cbc::Encryptor::<aes::Aes128>::new_from_slices(&SAVE_KEY, iv).unwrap();
    enc.encrypt_padded_mut::<Pkcs7>(&mut buf, msg.len()).unwrap().to_vec()
}

/// The crate's own padded decryption, for comparison.
fn padded_decrypt(iv: &[u8], ciphertext: &[u8]) -> Option<Vec<u8>> {
    let mut buf = ciphertext.to_vec();
    let dec = cbc::Decryptor::<aes::Aes128>::new_from_slices(&SAVE_KEY, iv).unwrap();
    dec.decrypt_padded_mut::<Pkcs7>(&mut buf).ok().map(|p| p.to_vec())
}

#[test]
fn save_key_is_the_format_key() {
    assert_eq!(SAVE_KEY.to_vec(), hex("0123456789abcdeffedcba9876543210"));
}

#[test]
fn custom_padding_fills_up_to_the_block() {
    assert_eq!(custom_padding_for(0), vec![12u8; 12]);
    assert_eq!(custom_padding_for(5), vec![7u8; 7]);
    assert_eq!(custom_padding_for(11), vec![1u8]);
    assert_eq!(custom_padding_for(13), vec![15u8; 15]);
    assert_eq!(custom_padding_for(28), vec![16u8; 0]);
}

#[test]
fn custom_padding_is_empty_on_the_boundary() {
    assert_eq!(custom_padding_for(12), Vec::<u8>::new());
    assert_eq!(custom_padding_for(127452), Vec::<u8>::new());
    assert_eq!(custom_padding_for(usize::MAX - 3).len(), 0);
}

#[test]
fn custom_padding_near_the_largest_length() {
    assert_eq!(custom_padding_for(usize::MAX), vec![13u8; 13]);
}

#[test]
fn pkcs7_pads_to_the_next_block() {
    let mut a = vec![1u8, 2, 3];
    pkcs7_pad(&mut a);
    let mut want = vec![1u8, 2, 3];
    want.extend_from_slice(&[13u8; 13]);
    assert_eq!(a, want);
    let mut b = vec![9u8; 15];
    pkcs7_pad(&mut b);
    assert_eq!(b.len(), 16);
    assert_eq!(b[15], 1);
}

#[test]
fn pkcs7_adds_a_whole_block_to_whole_blocks() {
    let mut a = vec![7u8; 16];
    pkcs7_pad(&mut a);
    assert_eq!(a.len(), 32);
    assert_eq!(&a[16..], &[16u8; 16]);
    let mut empty = Vec::new();
    pkcs7_pad(&mut empty);
    assert_eq!(empty, vec![16u8; 16]);
}

#[test]
fn pkcs7_unpad_gives_the_message_length() {
    let mut block = vec![1u8, 2, 3];
    block.extend_from_slice(&[13u8; 13]);
    assert_eq!(pkcs7_unpad(&block), Some(3));
    assert_eq!(pkcs7_unpad(&[16u8; 16]), Some(0));
    let mut two = vec![0u8; 31];
    two.push(1);
    assert_eq!(pkcs7_unpad(&two), Some(31));
}

#[test]
fn pkcs7_unpad_rejects_malformed_padding() {
    assert_eq!(pkcs7_unpad(&[]), None);
    assert_eq!(pkcs7_unpad(&[1u8; 15]), None);
    assert_eq!(pkcs7_unpad(&[0u8; 16]), None);
    assert_eq!(pkcs7_unpad(&[17u8; 16]), None);
    let mut bad = vec![3u8; 16];
    bad[13] = 2;
    assert_eq!(pkcs7_unpad(&bad), None);
    let mut good = vec![0u8; 16];
    good[13] = 3;
    good[14] = 3;
    good[15] = 3;
    assert_eq!(pkcs7_unpad(&good), Some(13));
}

#[test]
fn pkcs7_agrees_with_the_cipher_crate() {
    for len in 0usize..40 {
        let msg: Vec<u8> = (0..len).map(|i| (i * 7 + 1) as u8).collect();
        let mut padded = msg.clone();
        pkcs7_pad(&mut padded);
        let iv = [0u8; 16];
        let by_crate = padded_encrypt(&iv, &msg);
        assert_eq!(by_crate.len(), padded.len());
        assert_eq!(padded_decrypt(&iv, &by_crate), Some(msg.clone()));
        assert_eq!(pkcs7_unpad(&padded), Some(len));
    }
}

#[test]
fn frame_of_hello() {
    let framed = frame(b"hello").unwrap();
    assert_eq!(
        framed,
        hex("0500000068656c6c6f0707070707070710101010101010101010101010101010")
    );
}

#[test]
fn frame_of_the_empty_payload() {
    let framed = frame(b"").unwrap();
    assert_eq!(
        framed,
        hex("000000000c0c0c0c0c0c0c0c0c0c0c0c10101010101010101010101010101010")
    );
}

#[test]
fn frame_on_the_block_boundary_has_no_custom_padding() {
    let framed = frame(b"0123456789ab").unwrap();
    assert_eq!(
        framed,
        hex("0c00000030313233343536373839616210101010101010101010101010101010")
    );
}

#[test]
fn frame_length_follows_the_payload() {
    for len in 0usize..70 {
        let payload = vec![0x5au8; len];
        let framed = frame(&payload).unwrap();
        let body = (len + 4 + 15) / 16 * 16;
        assert_eq!(framed.len(), body + 16);
        assert_eq!(&framed[4..4 + len], &payload[..]);
        assert_eq!(&framed[body..], &[16u8; 16]);
    }
}

#[test]
fn unframe_takes_the_payload_out() {
    let framed = hex("0500000068656c6c6f0707070707070710101010101010101010101010101010");
    assert_eq!(unframe(&framed), Ok(b"hello".to_vec()));
}

#[test]
fn unframe_accepts_any_valid_padding() {
    // length 5, payload, then plain PKCS#7 padding of seven bytes
    let plain = hex("0500000068656c6c6f07070707070707");
    assert_eq!(unframe(&plain), Ok(b"hello".to_vec()));
    // bytes behind the declared length are padding, whatever they hold
    let loose = hex("02000000414258595a01020304050601");
    assert_eq!(unframe(&loose), Ok(b"AB".to_vec()));
}

#[test]
fn unframe_rejects_bad_padding() {
    let bad = Err(SaveError::Crypto(CryptoError::PaddingInvalid));
    assert_eq!(unframe(&[]), bad);
    assert_eq!(unframe(&hex("0500000068656c6c6f07070707070700")), bad);
    assert_eq!(unframe(&hex("0500000068656c6c6f07070707070611")), bad);
    assert_eq!(unframe(&hex("0500000068656c6c6f070707070707")), bad);
    assert_eq!(unframe(&hex("0500000068656c6c6f07070707070607")), bad);
}

#[test]
fn unframe_rejects_a_length_beyond_the_plaintext() {
    let short = Err(SaveError::Format(FormatError::Truncated));
    // declared length 6, five bytes left
    assert_eq!(unframe(&hex("0600000068656c6c6f07070707070707")), short);
    // no room for the prefix
    assert_eq!(unframe(&hex("0000000d0d0d0d0d0d0d0d0d0d0d0d0d")), short);
    assert_eq!(unframe(&[16u8; 16]), short);
    assert_eq!(unframe(&hex("ffffffff68656c6c6f07070707070707")), short);
}

#[test]
fn unframe_of_an_empty_payload() {
    assert_eq!(unframe(&hex("000000000c0c0c0c0c0c0c0c0c0c0c0c")), Ok(Vec::new()));
}

#[test]
fn encrypt_hello_exact() {
    let sealed = encrypt(b"hello", &counting_iv()).unwrap();
    assert_eq!(
        sealed.ciphertext,
        hex("97bb8d50692c59301db3728f076ec25855f6e828d0a8d56400600ea0b293a383")
    );
    assert_eq!(sealed.checksum, hex("19a62344638bbff2b89be93d148c5e3c"));
    assert_eq!(sealed.iv, counting_iv());
}

#[test]
fn encrypt_empty_exact() {
    let sealed = encrypt(b"", &counting_iv()).unwrap();
    assert_eq!(
        sealed.ciphertext,
        hex("5e06ef5d748900de984427006309241362efa688c6a3f3b24055a9a30bda4d47")
    );
    assert_eq!(sealed.checksum, hex("d821af62283c4cb914d7b71fb2d60cc6"));
}

#[test]
fn encrypt_on_the_boundary_exact() {
    let sealed = encrypt(b"0123456789ab", &counting_iv()).unwrap();
    assert_eq!(
        sealed.ciphertext,
        hex("6535f0f1a6404a45257789f6515e058d86dc620bd6a562dc4a7a5d688ccc0a39")
    );
    assert_eq!(sealed.checksum, hex("754c32b6b6da1bd38579e26ee09dcd1b"));
}

#[test]
fn encrypt_is_the_padded_encryption_of_the_custom_padded_frame() {
    for len in 0usize..50 {
        let payload: Vec<u8> = (0..len).map(|i| (i * 3) as u8).collect();
        let iv: Vec<u8> = (0..16).map(|i| (i * 11 + len) as u8).collect();
        let mut pre = (len as u32).to_le_bytes().to_vec();
        pre.extend_from_slice(&payload);
        pre.extend_from_slice(&custom_padding_for(len));
        let sealed = encrypt(&payload, &iv).unwrap();
        assert_eq!(sealed.ciphertext, padded_encrypt(&iv, &pre));
        assert_eq!(sealed.checksum, md5::compute(&sealed.ciphertext).0.to_vec());
        assert_eq!(sealed.iv, iv);
    }
}

#[test]
fn encrypt_depends_on_the_vector() {
    let a = encrypt(b"hello", &[0u8; 16]).unwrap();
    let b = encrypt(b"hello", &counting_iv()).unwrap();
    assert_ne!(a.ciphertext, b.ciphertext);
    assert_ne!(a.checksum, b.checksum);
}

#[test]
fn encrypt_rejects_a_vector_of_the_wrong_length() {
    assert_eq!(encrypt(b"hello", &[0u8; 15]).err(), Some(CryptoError::InvalidLength));
    assert_eq!(encrypt(b"hello", &[0u8; 17]).err(), Some(CryptoError::InvalidLength));
    assert_eq!(encrypt(b"hello", &[]).err(), Some(CryptoError::InvalidLength));
}

#[test]
fn decrypt_exact() {
    let ciphertext = hex("97bb8d50692c59301db3728f076ec25855f6e828d0a8d56400600ea0b293a383");
    assert_eq!(decrypt(&ciphertext, &counting_iv()), Ok(b"hello".to_vec()));
}

#[test]
fn decrypt_returns_what_encrypt_took() {
    for len in 0usize..70 {
        let payload: Vec<u8> = (0..len).map(|i| (255 - i) as u8).collect();
        let iv: Vec<u8> = (0..16).map(|i| (i + len) as u8).collect();
        let sealed = encrypt(&payload, &iv).unwrap();
        assert_eq!(decrypt(&sealed.ciphertext, &sealed.iv), Ok(payload));
    }
}

#[test]
fn decrypt_opens_plain_pkcs7_bodies() {
    // length prefix and payload under the cipher crate's padding alone
    let mut pre = 5u32.to_le_bytes().to_vec();
    pre.extend_from_slice(b"hello");
    let ciphertext = padded_encrypt(&counting_iv(), &pre);
    assert_eq!(ciphertext.len(), 16);
    assert_eq!(decrypt(&ciphertext, &counting_iv()), Ok(b"hello".to_vec()));
}

#[test]
fn decrypt_agrees_with_the_cipher_crate_on_padding() {
    let iv = counting_iv();
    for seed in 0u8..40 {
        let ciphertext: Vec<u8> = (0..32).map(|i| (i as u8).wrapping_mul(seed).wrapping_add(seed)).collect();
        let by_crate = padded_decrypt(&iv, &ciphertext);
        let ours = decrypt(&ciphertext, &iv);
        match by_crate {
            None => assert_eq!(ours, Err(SaveError::Crypto(CryptoError::PaddingInvalid))),
            Some(plain) => {
                assert_ne!(ours, Err(SaveError::Crypto(CryptoError::PaddingInvalid)));
                assert_eq!(ours, unframe_padded(&plain));
            },
        }
    }
}

fn unframe_padded(plain: &[u8]) -> Result<Vec<u8>, SaveError> {
    let mut padded = plain.to_vec();
    pkcs7_pad(&mut padded);
    unframe(&padded)
}

#[test]
fn decrypt_rejects_a_vector_of_the_wrong_length() {
    let ciphertext = [0u8; 32];
    let bad = Err(SaveError::Crypto(CryptoError::InvalidLength));
    assert_eq!(decrypt(&ciphertext, &[0u8; 8]), bad);
    assert_eq!(decrypt(&ciphertext, &[0u8; 32]), bad);
    // the vector is looked at first
    assert_eq!(decrypt(&[0u8; 5], &[]), bad);
}

#[test]
fn decrypt_rejects_partial_blocks_and_nothing() {
    let bad = Err(SaveError::Crypto(CryptoError::PaddingInvalid));
    assert_eq!(decrypt(&[0u8; 15], &counting_iv()), bad);
    assert_eq!(decrypt(&[0u8; 33], &counting_iv()), bad);
    assert_eq!(decrypt(&[], &counting_iv()), bad);
}

#[test]
fn decrypt_under_another_vector_differs() {
    let sealed = encrypt(b"a payload of some length", &counting_iv()).unwrap();
    assert_ne!(decrypt(&sealed.ciphertext, &[0u8; 16]), Ok(b"a payload of some length".to_vec()));
}

#[test]
fn sealing_an_opened_body_again_reproduces_it() {
    let first = encrypt(b"unchanged payload", &counting_iv()).unwrap();
    let payload = decrypt(&first.ciphertext, &first.iv).unwrap();
    let again = encrypt(&payload, &first.iv).unwrap();
    assert_eq!(again.ciphertext, first.ciphertext);
    assert_eq!(again.checksum, first.checksum);
    assert_eq!(again.iv, first.iv);
}

#[test]
fn sealing_a_plain_pkcs7_body_again_does_not_reproduce_it() {
    let mut pre = 5u32.to_le_bytes().to_vec();
    pre.extend_from_slice(b"hello");
    let ciphertext = padded_encrypt(&counting_iv(), &pre);
    let payload = decrypt(&ciphertext, &counting_iv()).unwrap();
    let again = encrypt(&payload, &counting_iv()).unwrap();
    assert_eq!(again.ciphertext.len(), ciphertext.len() + 16);
    assert_eq!(&again.ciphertext[..16], &ciphertext[..16] as &[u8]);
}
