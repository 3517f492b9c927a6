use pwbox::{CipherWithMac, Eraser, ErasedPwBox, Error, KdfParams, PwBox, SimpleCipher,
    SimpleCipherFactory, SimpleKdf, SimpleKdfFactory, SimpleMac, SimpleStreamCipher, SimpleSuite,
    suite_builder};
use rand::RngCore;

fn seal_box(password: &[u8], message: &[u8]) -> PwBox<SimpleKdf, SimpleCipher> {
    PwBox::new(SimpleKdf::light(), SimpleCipher {}, password, message).unwrap()
}

fn suite_eraser() -> Eraser {
    let mut eraser = Eraser::new();
    eraser.add_suite::<SimpleSuite>();
    eraser
}

#[test]
fn round_trip() {
    let pwbox = seal_box(b"open sesame", b"forty thieves");
    let plaintext = pwbox.open(b"open sesame").unwrap();
    assert_eq!(plaintext.as_bytes(), b"forty thieves");
}

#[test]
fn round_trip_empty_message() {
    let pwbox = seal_box(b"pw", b"");
    assert_eq!(pwbox.len(), 0);
    let plaintext = pwbox.open(b"pw").unwrap();
    assert_eq!(plaintext.as_bytes(), b"");
}

#[test]
fn round_trip_empty_password() {
    let pwbox = seal_box(b"", b"some data");
    let plaintext = pwbox.open(b"").unwrap();
    assert_eq!(plaintext.as_bytes(), b"some data");
}

#[test]
fn open_into_buffer() {
    let pwbox = seal_box(b"pw", b"twelve bytes");
    let mut buf: Vec<u8> = vec![0; pwbox.len()];
    pwbox.open_into(&mut buf, b"pw").unwrap();
    assert_eq!(&buf, b"twelve bytes");
}

#[test]
fn tamper_ciphertext_any_bit_detected() {
    let mut pwbox = seal_box(b"password", b"payload!");
    let n = pwbox.inner.encrypted.ciphertext.len();
    for i in 0..n {
        for b in 0..8u32 {
            pwbox.inner.encrypted.ciphertext[i] ^= 1u8 << b;
            let r = pwbox.open(b"password");
            assert!(matches!(r, Err(Error::MacMismatch)));
            pwbox.inner.encrypted.ciphertext[i] ^= 1u8 << b;
        }
    }
    assert!(pwbox.open(b"password").is_ok());
}

#[test]
fn tamper_mac_any_bit_detected() {
    let mut pwbox = seal_box(b"password", b"payload!");
    let n = pwbox.inner.encrypted.mac.len();
    for i in 0..n {
        for b in 0..8u32 {
            pwbox.inner.encrypted.mac[i] ^= 1u8 << b;
            let r = pwbox.open(b"password");
            assert!(matches!(r, Err(Error::MacMismatch)));
            pwbox.inner.encrypted.mac[i] ^= 1u8 << b;
        }
    }
    assert!(pwbox.open(b"password").is_ok());
}

#[test]
fn wrong_password_rejected() {
    let pwbox = seal_box(b"right", b"secret");
    let r = pwbox.open(b"wrong!");
    assert!(matches!(r, Err(Error::MacMismatch)));
}

#[test]
fn fresh_salt_nonce_ciphertext() {
    let a = seal_box(b"same password", b"same message");
    let b = seal_box(b"same password", b"same message");
    assert_ne!(a.inner.salt, b.inner.salt);
    assert_ne!(a.inner.nonce, b.inner.nonce);
    assert_ne!(a.inner.encrypted.ciphertext, b.inner.encrypted.ciphertext);
}

#[test]
fn builder_custom_kdf() {
    let pwbox = suite_builder::<SimpleSuite>()
        .kdf(SimpleKdf { rounds: 3 })
        .seal(b"pw", b"built")
        .unwrap();
    assert_eq!(pwbox.len(), 5);
    assert_eq!(pwbox.open(b"pw").unwrap().as_bytes(), b"built");
}

#[test]
fn erase_restore_round_trip() {
    let eraser = suite_eraser();
    let pwbox = seal_box(b"pw", b"important data");
    let erased = eraser.erase(&pwbox).unwrap();
    assert_eq!(erased.kdf_name, "simple-kdf");
    assert_eq!(erased.cipher_name, "simple-cipher");
    assert_eq!(erased.len(), 14);
    let restored = eraser.restore(&erased).unwrap();
    assert_eq!(restored.len(), 14);
    let plaintext = restored.open(b"pw").unwrap();
    assert_eq!(plaintext.as_bytes(), b"important data");
}

#[test]
fn restored_open_into() {
    let eraser = suite_eraser();
    let pwbox = seal_box(b"pw", b"1234");
    let erased = eraser.erase(&pwbox).unwrap();
    let restored = eraser.restore(&erased).unwrap();
    let mut buf: Vec<u8> = vec![0; restored.len()];
    restored.open_into(&mut buf, b"pw").unwrap();
    assert_eq!(&buf, b"1234");
}

#[test]
fn restored_wrong_password_rejected() {
    let eraser = suite_eraser();
    let pwbox = seal_box(b"pw", b"data");
    let erased = eraser.erase(&pwbox).unwrap();
    let restored = eraser.restore(&erased).unwrap();
    assert!(matches!(restored.open(b"other"), Err(Error::MacMismatch)));
}

#[test]
fn erase_unregistered_kdf_fails() {
    let eraser = Eraser::new();
    let pwbox = seal_box(b"pw", b"data");
    let r = eraser.erase(&pwbox);
    match r {
        Err(Error::NoKdf(name)) => assert_eq!(name, "simple-kdf"),
        other => panic!("expected unknown-KDF error, got {:?}", other.map(|_| ())),
    }
}

#[test]
fn restore_unregistered_kdf_fails() {
    let eraser = suite_eraser();
    let pwbox = seal_box(b"pw", b"data");
    let mut erased = eraser.erase(&pwbox).unwrap();
    erased.kdf_name = "no-such-kdf".to_string();
    match eraser.restore(&erased) {
        Err(Error::NoKdf(name)) => assert_eq!(name, "no-such-kdf"),
        _ => panic!("expected unknown-KDF error"),
    }
}

#[test]
fn restore_unregistered_cipher_fails() {
    let eraser = suite_eraser();
    let pwbox = seal_box(b"pw", b"data");
    let mut erased = eraser.erase(&pwbox).unwrap();
    erased.cipher_name = "no-such-cipher".to_string();
    match eraser.restore(&erased) {
        Err(Error::NoCipher(name)) => assert_eq!(name, "no-such-cipher"),
        _ => panic!("expected unknown-cipher error"),
    }
}

#[test]
fn restore_bad_salt_len_fails() {
    let eraser = suite_eraser();
    let pwbox = seal_box(b"pw", b"data");
    let mut erased = eraser.erase(&pwbox).unwrap();
    erased.salt.pop();
    assert!(matches!(eraser.restore(&erased), Err(Error::SaltLen)));
}

#[test]
fn restore_bad_nonce_len_fails() {
    let eraser = suite_eraser();
    let pwbox = seal_box(b"pw", b"data");
    let mut erased = eraser.erase(&pwbox).unwrap();
    erased.nonce.push(0);
    assert!(matches!(eraser.restore(&erased), Err(Error::NonceLen)));
}

#[test]
fn restore_bad_mac_len_fails() {
    let eraser = suite_eraser();
    let pwbox = seal_box(b"pw", b"data");
    let mut erased = eraser.erase(&pwbox).unwrap();
    erased.mac.pop();
    assert!(matches!(eraser.restore(&erased), Err(Error::MacLen)));
}

#[test]
fn restore_malformed_params_fails() {
    let eraser = suite_eraser();
    let pwbox = seal_box(b"pw", b"data");
    let mut erased = eraser.erase(&pwbox).unwrap();
    erased.kdf_params = KdfParams::new();
    assert!(matches!(eraser.restore(&erased), Err(Error::KdfParams(_))));

    let mut params = KdfParams::new();
    params.push_entry("cost".to_string(), 1);
    erased.kdf_params = params;
    assert!(matches!(eraser.restore(&erased), Err(Error::KdfParams(_))));

    let mut params = KdfParams::new();
    params.push_entry("rounds".to_string(), u64::MAX);
    erased.kdf_params = params;
    assert!(matches!(eraser.restore(&erased), Err(Error::KdfParams(_))));
}

#[test]
fn restore_manual_record() {
    let eraser = suite_eraser();
    let pwbox = seal_box(b"pw", b"data");
    let original = eraser.erase(&pwbox).unwrap();
    let mut params = KdfParams::new();
    params.push_entry("rounds".to_string(), 1);
    let record = ErasedPwBox {
        kdf_name: "simple-kdf".to_string(),
        kdf_params: params,
        cipher_name: "simple-cipher".to_string(),
        salt: original.salt.clone(),
        nonce: original.nonce.clone(),
        ciphertext: original.ciphertext.clone(),
        mac: original.mac.clone(),
    };
    let restored = eraser.restore(&record).unwrap();
    assert_eq!(restored.open(b"pw").unwrap().as_bytes(), b"data");
}

#[test]
fn scenario_correct_horse() {
    let pwbox = suite_builder::<SimpleSuite>()
        .kdf(SimpleKdf::light())
        .seal(b"correct horse", b"battery staple")
        .unwrap();
    assert_eq!(pwbox.len(), 14);
    let plaintext = pwbox.open(b"correct horse").unwrap();
    assert_eq!(plaintext.as_bytes(), b"battery staple");
    assert!(matches!(pwbox.open(b"wrong"), Err(Error::MacMismatch)));
}

#[test]
fn erased_record_carries_bytes_verbatim() {
    let eraser = suite_eraser();
    let pwbox = seal_box(b"pw", b"xyz");
    let erased = eraser.erase(&pwbox).unwrap();
    assert_eq!(erased.salt, pwbox.inner.salt);
    assert_eq!(erased.nonce, pwbox.inner.nonce);
    assert_eq!(erased.ciphertext, pwbox.inner.encrypted.ciphertext);
    assert_eq!(erased.mac, pwbox.inner.encrypted.mac);
    assert_eq!(erased.salt.len(), 8);
    assert_eq!(erased.nonce.len(), 8);
    assert_eq!(erased.mac.len(), 4);
}

#[test]
fn error_descriptions() {
    assert_eq!(Error::MacMismatch.kind_description(), "incorrect password or corrupted box");
    assert_eq!(Error::SaltLen.kind_description(), "incorrect salt length");
    assert_eq!(Error::NoKdf("x".to_string()).kind_description(), "unknown KDF");
}

#[test]
fn zeroed_vec_is_zero() {
    let v = pwbox::zeroed_vec(9);
    assert_eq!(v, vec![0u8; 9]);
}

#[test]
fn sensitive_zeros() {
    let s = pwbox::SensitiveData::zeros(5);
    assert_eq!(s.len(), 5);
    assert_eq!(s.as_bytes(), &[0u8; 5]);
}

#[test]
fn derived_key_depends_on_password_and_salt() {
    let pwbox = seal_box(b"password a", b"same message");
    let wrong = pwbox.open(b"password b");
    assert!(wrong.is_err());
    let right = pwbox.open(b"password a");
    assert!(right.is_ok());
}

#[test]
fn test_kdf_and_cipher() {
    let mut message = vec![0u8; 64];
    rand::thread_rng().fill_bytes(&mut message);
    let pwbox = suite_builder::<SimpleSuite>()
        .kdf(SimpleKdf::light())
        .seal(b"correct horse battery staple", &message)
        .unwrap();
    assert_eq!(message.len(), pwbox.len());
    assert_eq!(message, pwbox.open(b"correct horse battery staple").unwrap().as_bytes());
}

#[test]
fn large_message_round_trip() {
    let message = vec![0xabu8; 1000];
    let pwbox = seal_box(b"pw", &message);
    assert_eq!(pwbox.len(), 1000);
    let plaintext = pwbox.open(b"pw").unwrap();
    assert_eq!(plaintext.len(), 1000);
    assert_eq!(plaintext.as_bytes(), &message[..]);
}

#[test]
fn cipher_with_mac_composition() {
    let cipher = CipherWithMac { cipher: SimpleStreamCipher {}, mac: SimpleMac {} };
    let pwbox = PwBox::new(SimpleKdf::light(), cipher, b"pw", b"composed message").unwrap();
    assert_eq!(pwbox.len(), 16);
    assert_eq!(pwbox.open(b"pw").unwrap().as_bytes(), b"composed message");
    assert!(matches!(pwbox.open(b"no"), Err(Error::MacMismatch)));
}

#[test]
fn cipher_with_mac_tamper_detected() {
    let cipher = CipherWithMac { cipher: SimpleStreamCipher {}, mac: SimpleMac {} };
    let mut pwbox = PwBox::new(SimpleKdf::light(), cipher, b"pw", b"abcdef").unwrap();
    pwbox.inner.encrypted.ciphertext[3] ^= 0x40;
    assert!(matches!(pwbox.open(b"pw"), Err(Error::MacMismatch)));
    pwbox.inner.encrypted.ciphertext[3] ^= 0x40;
    pwbox.inner.encrypted.mac[0] ^= 0x01;
    assert!(matches!(pwbox.open(b"pw"), Err(Error::MacMismatch)));
}

#[test]
fn custom_registration_names() {
    let mut eraser = Eraser::new();
    eraser.add_kdf(
        "my-kdf".to_string(),
        "simple-kdf".to_string(),
        Box::new(SimpleKdfFactory {}),
    );
    eraser.add_cipher(
        "my-cipher".to_string(),
        "simple-cipher".to_string(),
        Box::new(SimpleCipherFactory {}),
    );
    let pwbox = seal_box(b"pw", b"data");
    let erased = eraser.erase(&pwbox).unwrap();
    assert_eq!(erased.kdf_name, "my-kdf");
    assert_eq!(erased.cipher_name, "my-cipher");
    let restored = eraser.restore(&erased).unwrap();
    assert_eq!(restored.open(b"pw").unwrap().as_bytes(), b"data");
}

#[test]
fn wipe_zeroes_in_place() {
    let mut v = vec![1u8, 2, 3, 4];
    pwbox::wipe(&mut v);
    assert_eq!(v, vec![0u8; 4]);
}
