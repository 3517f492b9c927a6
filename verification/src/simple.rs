//! A bundled KDF and cipher pair built from XOR folds.
//!
//! These primitives exist so that containers can be sealed, opened, erased
//! and restored without an external cryptographic backend; they are a
//! demonstration pair, not cryptographically secure. Real deployments plug
//! in their own [`DeriveKey`] and [`Cipher`] implementations.

use vstd::prelude::*;

use crate::Error;
use crate::cipher_with_mac::{Mac, UnauthenticatedCipher};
use crate::erased::{CipherFactory, ErasableCipher, ErasableKdf, KdfFactory, KdfParams, Suite,
    params_view};
use crate::pwbox::PwBoxInner;
use crate::traits::{Cipher, CipherOutput, DeriveKey, KdfError, constant_time_eq};

verus! {

/// Salt length of [`SimpleKdf`], in bytes.
pub const SIMPLE_SALT_LEN: usize = 8;

/// Key length of [`SimpleCipher`], in bytes.
pub const SIMPLE_KEY_LEN: usize = 16;

/// Nonce length of [`SimpleCipher`], in bytes.
pub const SIMPLE_NONCE_LEN: usize = 8;

/// MAC length of [`SimpleCipher`], in bytes.
pub const SIMPLE_MAC_LEN: usize = 4;

/// XOR fold of a byte sequence.
pub open spec fn byte_xor(s: Seq<u8>) -> u8
    decreases s.len(),
{
    if s.len() == 0 {
        0u8
    } else {
        byte_xor(s.drop_last()) ^ s.last()
    }
}

/// Computes the XOR fold of a slice.
fn fold_xor(s: &[u8]) -> (r: u8)
    ensures
        r == byte_xor(s@),
{
    let mut acc: u8 = 0;
    let mut i: usize = 0;
    while i < s.len()
        invariant
            i <= s@.len(),
            acc == byte_xor(s@.take(i as int)),
        decreases s@.len() - i,
    {
        assert(s@.take(i + 1).drop_last() =~= s@.take(i as int));
        assert(s@.take(i + 1).last() == s@[i as int]);
        acc = acc ^ s[i];
        i = i + 1;
    }
    assert(s@.take(s@.len() as int) =~= s@);
    acc
}

/// Byte `i` of the key that [`SimpleKdf`] derives.
pub open spec fn simple_key_byte(rounds: u32, password: Seq<u8>, salt: Seq<u8>, i: int) -> u8 {
    if salt.len() > 0 {
        (byte_xor(password) ^ salt[i % salt.len() as int]) ^ (((i % 256) as u8) ^ ((rounds
            % 256) as u8))
    } else {
        (i % 256) as u8
    }
}

/// The bundled key-derivation function: every key byte mixes an XOR fold of
/// the password with a salt byte, the byte's position and the difficulty
/// parameter. One `SimpleKdf` value stands for one parameter choice.
#[derive(Clone, Copy, Debug, PartialEq, Eq, Structural)]
pub struct SimpleKdf {
    /// Difficulty parameter; only its low byte enters the key.
    pub rounds: u32,
}

impl SimpleKdf {
    /// A parameter choice suitable for tests: a single round.
    pub fn light() -> (r: SimpleKdf)
        ensures
            r.rounds == 1,
    {
        SimpleKdf { rounds: 1 }
    }
}

impl DeriveKey for SimpleKdf {
    open spec fn spec_salt_len(&self) -> usize {
        SIMPLE_SALT_LEN
    }

    open spec fn spec_infallible(&self) -> bool {
        true
    }

    open spec fn spec_succeeds(&self, password: Seq<u8>, salt: Seq<u8>) -> bool {
        true
    }

    open spec fn spec_key(&self, key_len: nat, password: Seq<u8>, salt: Seq<u8>) -> Seq<u8> {
        Seq::new(key_len, |i: int| simple_key_byte(self.rounds, password, salt, i))
    }

    fn salt_len(&self) -> usize {
        SIMPLE_SALT_LEN
    }

    fn derive_key(&self, buf: &mut Vec<u8>, password: &[u8], salt: &[u8]) -> (r: Result<
        (),
        KdfError,
    >) {
        let fx = fold_xor(password);
        let rb: u8 = (self.rounds % 256) as u8;
        let n = buf.len();
        let mut i: usize = 0;
        while i < n
            invariant
                i <= n,
                n == buf@.len(),
                salt@.len() == SIMPLE_SALT_LEN,
                fx == byte_xor(password@),
                rb == ((self.rounds % 256) as u8),
                forall|j: int|
                    0 <= j < i ==> buf@[j] == simple_key_byte(self.rounds, password@, salt@, j),
            decreases n - i,
        {
            let sb = salt[i % salt.len()];
            let ib: u8 = (i % 256) as u8;
            buf.set(i, (fx ^ sb) ^ (ib ^ rb));
            i = i + 1;
        }
        assert(buf@ =~= self.spec_key(old(buf)@.len() as nat, password@, salt@));
        Ok(())
    }
}

/// Byte `i` of the keystream that [`SimpleCipher`] XORs into the message.
pub open spec fn stream_byte(nonce: Seq<u8>, key: Seq<u8>, i: int) -> u8 {
    if key.len() > 0 && nonce.len() > 0 {
        (key[i % key.len() as int] ^ nonce[i % nonce.len() as int]) ^ ((i % 256) as u8)
    } else {
        (i % 256) as u8
    }
}

/// Byte `j` of the MAC that [`SimpleCipher`] computes over a ciphertext.
pub open spec fn simple_mac_byte(ciphertext: Seq<u8>, nonce: Seq<u8>, key: Seq<u8>, j: int) -> u8 {
    if key.len() > 0 && nonce.len() > 0 {
        ((byte_xor(ciphertext) ^ key[j % key.len() as int]) ^ nonce[j % nonce.len() as int]) ^ ((
        j % 256) as u8)
    } else {
        (j % 256) as u8
    }
}

/// The bundled authenticated cipher: a keystream XOR for confidentiality and
/// an XOR-fold MAC over the ciphertext, verified in constant time before any
/// decryption.
#[derive(Clone, Copy, Debug, PartialEq, Eq, Structural)]
pub struct SimpleCipher {
}

/// Computes one keystream byte.
fn stream_byte_exec(nonce: &[u8], key: &[u8], i: usize) -> (r: u8)
    requires
        key@.len() > 0,
        nonce@.len() > 0,
    ensures
        r == stream_byte(nonce@, key@, i as int),
{
    (key[i % key.len()] ^ nonce[i % nonce.len()]) ^ ((i % 256) as u8)
}

/// Computes the MAC of a ciphertext slice.
fn mac_exec(ciphertext: &[u8], nonce: &[u8], key: &[u8]) -> (r: Vec<u8>)
    requires
        key@.len() > 0,
        nonce@.len() > 0,
    ensures
        r@ == Seq::new(SIMPLE_MAC_LEN as nat, |j: int| simple_mac_byte(ciphertext@, nonce@,
        key@, j)),
{
    let fx = fold_xor(ciphertext);
    let mut mac: Vec<u8> = Vec::new();
    let mut j: usize = 0;
    while j < SIMPLE_MAC_LEN
        invariant
            j <= SIMPLE_MAC_LEN,
            key@.len() > 0,
            nonce@.len() > 0,
            fx == byte_xor(ciphertext@),
            mac@.len() == j,
            forall|l: int|
                0 <= l < j ==> mac@[l] == simple_mac_byte(ciphertext@, nonce@, key@, l),
        decreases SIMPLE_MAC_LEN - j,
    {
        let jb: u8 = (j % 256) as u8;
        mac.push(((fx ^ key[j % key.len()]) ^ nonce[j % nonce.len()]) ^ jb);
        j = j + 1;
    }
    assert(mac@ =~= Seq::new(SIMPLE_MAC_LEN as nat, |j: int| simple_mac_byte(ciphertext@, nonce@,
    key@, j)));
    mac
}

impl Cipher for SimpleCipher {
    open spec fn spec_key_len(&self) -> usize {
        SIMPLE_KEY_LEN
    }

    open spec fn spec_nonce_len(&self) -> usize {
        SIMPLE_NONCE_LEN
    }

    open spec fn spec_mac_len(&self) -> usize {
        SIMPLE_MAC_LEN
    }

    open spec fn spec_ciphertext(&self, message: Seq<u8>, nonce: Seq<u8>, key: Seq<u8>) -> Seq<
        u8,
    > {
        Seq::new(message.len(), |i: int| message[i] ^ stream_byte(nonce, key, i))
    }

    open spec fn spec_plaintext(&self, ciphertext: Seq<u8>, nonce: Seq<u8>, key: Seq<u8>) -> Seq<
        u8,
    > {
        Seq::new(ciphertext.len(), |i: int| ciphertext[i] ^ stream_byte(nonce, key, i))
    }

    open spec fn spec_mac(&self, ciphertext: Seq<u8>, nonce: Seq<u8>, key: Seq<u8>) -> Seq<u8> {
        Seq::new(SIMPLE_MAC_LEN as nat, |j: int| simple_mac_byte(ciphertext, nonce, key, j))
    }

    fn key_len(&self) -> usize {
        SIMPLE_KEY_LEN
    }

    fn nonce_len(&self) -> usize {
        SIMPLE_NONCE_LEN
    }

    fn mac_len(&self) -> usize {
        SIMPLE_MAC_LEN
    }

    fn seal(&self, message: &[u8], nonce: &[u8], key: &[u8]) -> (r: CipherOutput) {
        let mut ciphertext: Vec<u8> = Vec::new();
        let n = message.len();
        let mut i: usize = 0;
        while i < n
            invariant
                i <= n,
                n == message@.len(),
                key@.len() == SIMPLE_KEY_LEN,
                nonce@.len() == SIMPLE_NONCE_LEN,
                ciphertext@.len() == i,
                forall|j: int|
                    0 <= j < i ==> ciphertext@[j] == (message@[j] ^ stream_byte(nonce@, key@, j)),
            decreases n - i,
        {
            ciphertext.push(message[i] ^ stream_byte_exec(nonce, key, i));
            i = i + 1;
        }
        assert(ciphertext@ =~= self.spec_ciphertext(message@, nonce@, key@));
        proof {
            lemma_stream_cancel(*self, message@, nonce@, key@);
        }
        let mac = mac_exec(ciphertext.as_slice(), nonce, key);
        CipherOutput { ciphertext, mac }
    }

    fn open(&self, output: &mut Vec<u8>, encrypted: &CipherOutput, nonce: &[u8], key: &[u8]) -> (r:
        Result<(), ()>) {
        let expected = mac_exec(encrypted.ciphertext.as_slice(), nonce, key);
        if !constant_time_eq(expected.as_slice(), encrypted.mac.as_slice()) {
            return Err(());
        }
        let n = encrypted.ciphertext.len();
        let mut i: usize = 0;
        while i < n
            invariant
                i <= n,
                n == encrypted.ciphertext@.len(),
                key@.len() == SIMPLE_KEY_LEN,
                nonce@.len() == SIMPLE_NONCE_LEN,
                output@.len() == n,
                forall|j: int|
                    0 <= j < i ==> output@[j] == (encrypted.ciphertext@[j] ^ stream_byte(nonce@,
                    key@, j)),
            decreases n - i,
        {
            output.set(i, encrypted.ciphertext[i] ^ stream_byte_exec(nonce, key, i));
            i = i + 1;
        }
        assert(output@ =~= self.spec_plaintext(encrypted.ciphertext@, nonce@, key@));
        Ok(())
    }
}

/// Decryption by [`SimpleCipher`] inverts its encryption: XORing the same
/// keystream twice gives the message back.
pub proof fn lemma_stream_cancel(cipher: SimpleCipher, message: Seq<u8>, nonce: Seq<u8>, key: Seq<
    u8,
>)
    ensures
        cipher.spec_plaintext(cipher.spec_ciphertext(message, nonce, key), nonce, key) == message,
{
    let ct = cipher.spec_ciphertext(message, nonce, key);
    assert forall|i: int| 0 <= i < message.len() implies cipher.spec_plaintext(ct, nonce, key)[i]
        == message[i] by {
        let m = message[i];
        let s = stream_byte(nonce, key, i);
        assert((m ^ s) ^ s == m) by (bit_vector);
    }
    assert(cipher.spec_plaintext(ct, nonce, key) =~= message);
}

/// Round trip for the bundled pair: a well-formed container whose stored
/// output is exactly what sealing a message under a password produces — the
/// ciphertext of the message under the derived key, and that ciphertext's
/// MAC — opens under that password, and its content under that password is
/// the message.
pub proof fn lemma_seal_open_round_trip(
    b: PwBoxInner<SimpleKdf, SimpleCipher>,
    password: Seq<u8>,
    message: Seq<u8>,
)
    requires
        b.wf(),
        b.encrypted.ciphertext@ == b.cipher.spec_ciphertext(
            message,
            b.nonce@,
            b.spec_key_of(password),
        ),
        b.encrypted.mac@ == b.cipher.spec_mac(
            b.encrypted.ciphertext@,
            b.nonce@,
            b.spec_key_of(password),
        ),
    ensures
        b.spec_opens(password),
        b.spec_content(password) == message,
{
    lemma_stream_cancel(b.cipher, message, b.nonce@, b.spec_key_of(password));
}

/// Wrong-password rejection for the bundled pair: opening with a password
/// whose XOR fold differs from the sealing password's fails MAC
/// verification. Passwords with equal folds derive the same key under this
/// toy KDF and are excluded; a collision-resistant KDF makes such pairs
/// vanishingly rare.
pub proof fn lemma_wrong_password_rejected(
    b: PwBoxInner<SimpleKdf, SimpleCipher>,
    sealing: Seq<u8>,
    other: Seq<u8>,
)
    requires
        b.wf(),
        b.spec_opens(sealing),
        byte_xor(other) != byte_xor(sealing),
    ensures
        !b.spec_opens(other),
{
    let z = ((0int % 256) as u8);
    let salt0 = b.salt@[0];
    let rb = ((b.kdf.rounds % 256) as u8);
    let f1 = byte_xor(sealing);
    let f2 = byte_xor(other);
    let k1 = b.spec_key_of(sealing)[0];
    let k2 = b.spec_key_of(other)[0];
    assert(k1 == ((f1 ^ salt0) ^ (z ^ rb)));
    assert(k2 == ((f2 ^ salt0) ^ (z ^ rb)));
    assert(f1 != f2 ==> ((f1 ^ salt0) ^ (z ^ rb)) != ((f2 ^ salt0) ^ (z ^ rb))) by (bit_vector);
    if b.spec_opens(other) {
        let ct = b.encrypted.ciphertext@;
        let x = byte_xor(ct);
        let n0 = b.nonce@[0];
        assert(b.encrypted.mac@[0] == simple_mac_byte(ct, b.nonce@, b.spec_key_of(sealing), 0));
        assert(b.encrypted.mac@[0] == simple_mac_byte(ct, b.nonce@, b.spec_key_of(other), 0));
        assert(simple_mac_byte(ct, b.nonce@, b.spec_key_of(sealing), 0) == (((x ^ k1) ^ n0) ^ z));
        assert(simple_mac_byte(ct, b.nonce@, b.spec_key_of(other), 0) == (((x ^ k2) ^ n0) ^ z));
        assert(k1 != k2 ==> (((x ^ k1) ^ n0) ^ z) != (((x ^ k2) ^ n0) ^ z)) by (bit_vector);
        assert(false);
    }
}

/// XOR fold of a sequence updated at one index: the fold changes by the XOR
/// of the old and new bytes.
pub proof fn lemma_byte_xor_update(s: Seq<u8>, i: int, v: u8)
    requires
        0 <= i < s.len(),
    ensures
        byte_xor(s.update(i, v)) == (byte_xor(s) ^ (s[i] ^ v)),
    decreases s.len(),
{
    let t = s.update(i, v);
    if i == s.len() - 1 {
        assert(t.drop_last() =~= s.drop_last());
        let x = byte_xor(s.drop_last());
        let a = s[i];
        assert((x ^ v) == ((x ^ a) ^ (a ^ v))) by (bit_vector);
    } else {
        assert(t.drop_last() =~= s.drop_last().update(i, v));
        lemma_byte_xor_update(s.drop_last(), i, v);
        let x = byte_xor(s.drop_last());
        let l = s.last();
        let a = s[i];
        assert(((x ^ (a ^ v)) ^ l) == ((x ^ l) ^ (a ^ v))) by (bit_vector);
    }
}

/// Tamper detection for the bundled cipher: changing any single byte of the
/// stored ciphertext of a container that opens under a password yields a
/// container that no longer opens under that password — the MAC no longer
/// matches. A container differing in a single bit differs in a single byte,
/// so single-bit corruption is covered.
pub proof fn lemma_tampered_ciphertext_rejected(
    b: PwBoxInner<SimpleKdf, SimpleCipher>,
    t: PwBoxInner<SimpleKdf, SimpleCipher>,
    password: Seq<u8>,
    i: int,
)
    requires
        b.wf(),
        b.spec_opens(password),
        t.salt@ == b.salt@,
        t.nonce@ == b.nonce@,
        t.kdf == b.kdf,
        t.cipher == b.cipher,
        t.encrypted.mac@ == b.encrypted.mac@,
        0 <= i < b.encrypted.ciphertext@.len(),
        t.encrypted.ciphertext@ == b.encrypted.ciphertext@.update(i, t.encrypted.ciphertext@[i]),
        t.encrypted.ciphertext@[i] != b.encrypted.ciphertext@[i],
    ensures
        !t.spec_opens(password),
{
    let key = b.spec_key_of(password);
    assert(t.spec_key_of(password) == key);
    let cb = b.encrypted.ciphertext@;
    let ct = t.encrypted.ciphertext@;
    let v = ct[i];
    lemma_byte_xor_update(cb, i, v);
    let d = cb[i] ^ v;
    let old_byte = cb[i];
    assert(old_byte != v ==> (old_byte ^ v) != 0) by (bit_vector);
    let x = byte_xor(cb);
    let k0 = key[0];
    let n0 = b.nonce@[0];
    if t.spec_opens(password) {
        assert(t.cipher.spec_mac(ct, t.nonce@, key)[0] == t.encrypted.mac@[0]);
        assert(b.cipher.spec_mac(cb, b.nonce@, key)[0] == b.encrypted.mac@[0]);
        assert(simple_mac_byte(ct, b.nonce@, key, 0) == simple_mac_byte(cb, b.nonce@, key, 0));
        assert(byte_xor(ct) == (x ^ d));
        assert(d != 0 ==> ((((x ^ d) ^ k0) ^ n0) ^ ((0int % 256) as u8)) != (((x ^ k0) ^ n0) ^ ((
        0int % 256) as u8))) by (bit_vector);
        assert(false);
    }
}

/// Tamper detection for the stored MAC: changing any single byte of the MAC
/// of a container that opens under a password yields a container that no
/// longer opens under that password.
pub proof fn lemma_tampered_mac_rejected(
    b: PwBoxInner<SimpleKdf, SimpleCipher>,
    t: PwBoxInner<SimpleKdf, SimpleCipher>,
    password: Seq<u8>,
    i: int,
)
    requires
        b.wf(),
        b.spec_opens(password),
        t.salt@ == b.salt@,
        t.nonce@ == b.nonce@,
        t.kdf == b.kdf,
        t.cipher == b.cipher,
        t.encrypted.ciphertext@ == b.encrypted.ciphertext@,
        0 <= i < b.encrypted.mac@.len(),
        t.encrypted.mac@ == b.encrypted.mac@.update(i, t.encrypted.mac@[i]),
        t.encrypted.mac@[i] != b.encrypted.mac@[i],
    ensures
        !t.spec_opens(password),
{
    let key = b.spec_key_of(password);
    assert(t.spec_key_of(password) == key);
    if t.spec_opens(password) {
        assert(t.encrypted.mac@[i] == t.cipher.spec_mac(t.encrypted.ciphertext@, t.nonce@, key)[i]);
        assert(b.encrypted.mac@[i] == b.cipher.spec_mac(b.encrypted.ciphertext@, b.nonce@, key)[i]);
        assert(false);
    }
}

impl ErasableKdf for SimpleKdf {
    open spec fn spec_algorithm_id(&self) -> Seq<char> {
        "simple-kdf"@
    }

    open spec fn spec_params(&self) -> Seq<(Seq<char>, u64)> {
        seq![("rounds"@, self.rounds as u64)]
    }

    fn algorithm_id(&self) -> String {
        "simple-kdf".to_string()
    }

    fn to_params(&self) -> (r: KdfParams) {
        let mut p = KdfParams::new();
        p.push_entry("rounds".to_string(), self.rounds as u64);
        assert(params_view(&p) =~= self.spec_params());
        p
    }
}

impl ErasableCipher for SimpleCipher {
    open spec fn spec_algorithm_id(&self) -> Seq<char> {
        "simple-cipher"@
    }

    fn algorithm_id(&self) -> String {
        "simple-cipher".to_string()
    }
}

/// Restores [`SimpleKdf`] handles from record parameters: a single entry
/// named for the difficulty parameter, holding a value that fits in 32 bits.
pub struct SimpleKdfFactory {
}

impl KdfFactory for SimpleKdfFactory {
    open spec fn spec_algorithm_id(&self) -> Seq<char> {
        "simple-kdf"@
    }

    open spec fn spec_salt_len(&self, params: Seq<(Seq<char>, u64)>) -> usize {
        SIMPLE_SALT_LEN
    }

    open spec fn spec_params_ok(&self, params: Seq<(Seq<char>, u64)>) -> bool {
        params.len() == 1 && params[0].0 == "rounds"@ && params[0].1 <= 0xffff_ffffu64
    }

    fn algorithm_id(&self) -> String {
        "simple-kdf".to_string()
    }

    fn salt_len_for(&self, params: &KdfParams) -> usize {
        SIMPLE_SALT_LEN
    }

    fn restore_kdf(&self, params: &KdfParams) -> (r: Result<Box<dyn DeriveKey>, Error>) {
        if params.entries.len() != 1 {
            return Err(Error::KdfParams("expected a single parameter".to_string()));
        }
        let entry = vstd::std_specs::vec::vec_index(&params.entries, 0);
        let expected = "rounds".to_string();
        if !(entry.0 == expected) {
            return Err(Error::KdfParams("unknown parameter name".to_string()));
        }
        if entry.1 > 0xffff_ffff {
            return Err(Error::KdfParams("difficulty parameter out of range".to_string()));
        }
        let kdf = SimpleKdf { rounds: entry.1 as u32 };
        Ok(Box::new(kdf))
    }
}

/// Creates [`SimpleCipher`] handles.
pub struct SimpleCipherFactory {
}

impl CipherFactory for SimpleCipherFactory {
    open spec fn spec_algorithm_id(&self) -> Seq<char> {
        "simple-cipher"@
    }

    open spec fn spec_nonce_len(&self) -> usize {
        SIMPLE_NONCE_LEN
    }

    open spec fn spec_mac_len(&self) -> usize {
        SIMPLE_MAC_LEN
    }

    fn algorithm_id(&self) -> String {
        "simple-cipher".to_string()
    }

    fn nonce_len(&self) -> usize {
        SIMPLE_NONCE_LEN
    }

    fn mac_len(&self) -> usize {
        SIMPLE_MAC_LEN
    }

    fn create(&self) -> Option<Box<dyn Cipher>> {
        Some(Box::new(SimpleCipher {  }))
    }
}

/// The bundled suite: [`SimpleKdf`] and [`SimpleCipher`] under their
/// canonical names.
pub struct SimpleSuite {
}

impl Suite for SimpleSuite {
    type Kdf = SimpleKdf;

    type Cipher = SimpleCipher;

    type KdfFac = SimpleKdfFactory;

    type CipherFac = SimpleCipherFactory;

    open spec fn spec_kdf_name() -> Seq<char> {
        "simple-kdf"@
    }

    open spec fn spec_cipher_name() -> Seq<char> {
        "simple-cipher"@
    }

    fn default_kdf() -> SimpleKdf {
        SimpleKdf { rounds: 16 }
    }

    fn cipher() -> SimpleCipher {
        SimpleCipher {  }
    }

    fn kdf_factory() -> SimpleKdfFactory {
        SimpleKdfFactory {  }
    }

    fn cipher_factory() -> SimpleCipherFactory {
        SimpleCipherFactory {  }
    }
}

/// The XOR keystream of [`SimpleCipher`], packaged as an unauthenticated
/// cipher for use in [`crate::CipherWithMac`].
#[derive(Clone, Copy, Debug, PartialEq, Eq, Structural)]
pub struct SimpleStreamCipher {
}

impl UnauthenticatedCipher for SimpleStreamCipher {
    open spec fn spec_key_len(&self) -> usize {
        SIMPLE_KEY_LEN
    }

    open spec fn spec_nonce_len(&self) -> usize {
        SIMPLE_NONCE_LEN
    }

    open spec fn spec_encrypt(&self, message: Seq<u8>, nonce: Seq<u8>, key: Seq<u8>) -> Seq<u8> {
        Seq::new(message.len(), |i: int| message[i] ^ stream_byte(nonce, key, i))
    }

    open spec fn spec_decrypt(&self, ciphertext: Seq<u8>, nonce: Seq<u8>, key: Seq<u8>) -> Seq<
        u8,
    > {
        Seq::new(ciphertext.len(), |i: int| ciphertext[i] ^ stream_byte(nonce, key, i))
    }

    fn key_len(&self) -> usize {
        SIMPLE_KEY_LEN
    }

    fn nonce_len(&self) -> usize {
        SIMPLE_NONCE_LEN
    }

    fn encrypt(&self, message: &[u8], nonce: &[u8], key: &[u8]) -> (r: Vec<u8>) {
        let mut ciphertext: Vec<u8> = Vec::new();
        let n = message.len();
        let mut i: usize = 0;
        while i < n
            invariant
                i <= n,
                n == message@.len(),
                key@.len() == SIMPLE_KEY_LEN,
                nonce@.len() == SIMPLE_NONCE_LEN,
                ciphertext@.len() == i,
                forall|j: int|
                    0 <= j < i ==> ciphertext@[j] == (message@[j] ^ stream_byte(nonce@, key@, j)),
            decreases n - i,
        {
            ciphertext.push(message[i] ^ stream_byte_exec(nonce, key, i));
            i = i + 1;
        }
        assert(ciphertext@ =~= self.spec_encrypt(message@, nonce@, key@));
        proof {
            let ct = self.spec_encrypt(message@, nonce@, key@);
            assert forall|j: int| 0 <= j < message@.len() implies self.spec_decrypt(
                ct,
                nonce@,
                key@,
            )[j] == message@[j] by {
                let m = message@[j];
                let s = stream_byte(nonce@, key@, j);
                assert((m ^ s) ^ s == m) by (bit_vector);
            }
            assert(self.spec_decrypt(ct, nonce@, key@) =~= message@);
        }
        ciphertext
    }

    fn decrypt(&self, ciphertext: &[u8], nonce: &[u8], key: &[u8]) -> (r: Vec<u8>) {
        let mut plaintext: Vec<u8> = Vec::new();
        let n = ciphertext.len();
        let mut i: usize = 0;
        while i < n
            invariant
                i <= n,
                n == ciphertext@.len(),
                key@.len() == SIMPLE_KEY_LEN,
                nonce@.len() == SIMPLE_NONCE_LEN,
                plaintext@.len() == i,
                forall|j: int|
                    0 <= j < i ==> plaintext@[j] == (ciphertext@[j] ^ stream_byte(nonce@, key@,
                    j)),
            decreases n - i,
        {
            plaintext.push(ciphertext[i] ^ stream_byte_exec(nonce, key, i));
            i = i + 1;
        }
        assert(plaintext@ =~= self.spec_decrypt(ciphertext@, nonce@, key@));
        plaintext
    }
}

/// Byte `j` of the digest that [`SimpleMac`] computes.
pub open spec fn simple_digest_byte(data: Seq<u8>, key: Seq<u8>, j: int) -> u8 {
    if key.len() > 0 {
        (byte_xor(data) ^ key[j % key.len() as int]) ^ ((j % 256) as u8)
    } else {
        byte_xor(data) ^ ((j % 256) as u8)
    }
}

/// The XOR-fold MAC of the bundled pair, packaged for use in
/// [`crate::CipherWithMac`].
#[derive(Clone, Copy, Debug, PartialEq, Eq, Structural)]
pub struct SimpleMac {
}

impl Mac for SimpleMac {
    open spec fn spec_mac_len(&self) -> usize {
        SIMPLE_MAC_LEN
    }

    open spec fn spec_digest(&self, data: Seq<u8>, key: Seq<u8>) -> Seq<u8> {
        Seq::new(SIMPLE_MAC_LEN as nat, |j: int| simple_digest_byte(data, key, j))
    }

    fn mac_len(&self) -> usize {
        SIMPLE_MAC_LEN
    }

    fn digest(&self, data: &[u8], key: &[u8]) -> (r: Vec<u8>) {
        let fx = fold_xor(data);
        let mut tag: Vec<u8> = Vec::new();
        let mut j: usize = 0;
        while j < SIMPLE_MAC_LEN
            invariant
                j <= SIMPLE_MAC_LEN,
                fx == byte_xor(data@),
                tag@.len() == j,
                forall|l: int| 0 <= l < j ==> tag@[l] == simple_digest_byte(data@, key@, l),
            decreases SIMPLE_MAC_LEN - j,
        {
            let jb: u8 = (j % 256) as u8;
            if key.len() > 0 {
                tag.push((fx ^ key[j % key.len()]) ^ jb);
            } else {
                tag.push(fx ^ jb);
            }
            j = j + 1;
        }
        assert(tag@ =~= self.spec_digest(data@, key@));
        tag
    }
}

} // verus!


