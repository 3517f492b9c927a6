//! Capability contracts for key derivation and authenticated encryption.

use vstd::prelude::*;

verus! {

/// Error raised by a key-derivation backend, for example for invalid
/// difficulty parameters or resource exhaustion.
#[derive(Debug)]
pub struct KdfError {
    /// Backend-specific description of the failure.
    pub message: String,
}

/// Key-derivation function (KDF).
///
/// A `DeriveKey` value stands for one KDF with one fixed set of difficulty
/// parameters; parameter variation is modelled as different values, not
/// different types. The derived key is a function of the password and the
/// salt alone, described by [`DeriveKey::spec_key`].
pub trait DeriveKey {
    /// Byte length of the salt this KDF consumes.
    spec fn spec_salt_len(&self) -> usize;

    /// Whether key derivation is guaranteed to succeed on every input.
    spec fn spec_infallible(&self) -> bool;

    /// Whether derivation succeeds on this password and salt: like the
    /// derived key itself, success is a function of the inputs alone, so
    /// retrying a failed derivation without changing them cannot help.
    spec fn spec_succeeds(&self, password: Seq<u8>, salt: Seq<u8>) -> bool;

    /// The key of length `key_len` derived from `password` and `salt`.
    spec fn spec_key(&self, key_len: nat, password: Seq<u8>, salt: Seq<u8>) -> Seq<u8>;

    /// Byte length of the salt this KDF consumes.
    fn salt_len(&self) -> (r: usize)
        ensures
            r == self.spec_salt_len(),
    ;

    /// Derives a key from `password` and `salt`, filling all of `buf`.
    fn derive_key(&self, buf: &mut Vec<u8>, password: &[u8], salt: &[u8]) -> (r: Result<
        (),
        KdfError,
    >)
        requires
            salt@.len() == self.spec_salt_len(),
        ensures
            final(buf)@.len() == old(buf)@.len(),
            r is Ok ==> final(buf)@ == self.spec_key(old(buf)@.len() as nat, password@, salt@),
            r is Ok <==> self.spec_succeeds(password@, salt@),
            self.spec_infallible() ==> r is Ok,
    ;
}

/// Output of sealing a message with an authenticated cipher: the ciphertext,
/// of the same length as the message, and the message authentication code.
#[derive(Debug)]
pub struct CipherOutput {
    /// Encrypted data; has the same length as the original message.
    pub ciphertext: Vec<u8>,
    /// Message authentication code over the ciphertext.
    pub mac: Vec<u8>,
}

impl CipherOutput {
    /// An independent copy of this output.
    pub fn duplicate(&self) -> (r: CipherOutput)
        ensures
            r.ciphertext@ == self.ciphertext@,
            r.mac@ == self.mac@,
    {
        let mut ciphertext: Vec<u8> = Vec::new();
        let mut i: usize = 0;
        while i < self.ciphertext.len()
            invariant
                i <= self.ciphertext@.len(),
                ciphertext@ == self.ciphertext@.take(i as int),
            decreases self.ciphertext@.len() - i,
        {
            ciphertext.push(self.ciphertext[i]);
            assert(ciphertext@ =~= self.ciphertext@.take((i + 1) as int));
            i = i + 1;
        }
        assert(ciphertext@ =~= self.ciphertext@);
        let mut mac: Vec<u8> = Vec::new();
        let mut j: usize = 0;
        while j < self.mac.len()
            invariant
                j <= self.mac@.len(),
                mac@ == self.mac@.take(j as int),
            decreases self.mac@.len() - j,
        {
            mac.push(self.mac[j]);
            assert(mac@ =~= self.mac@.take((j + 1) as int));
            j = j + 1;
        }
        assert(mac@ =~= self.mac@);
        CipherOutput { ciphertext, mac }
    }
}

/// Compares two equal-length byte slices without an early exit, so that the
/// time taken does not depend on where they first differ. MAC verification
/// must use such a comparison to avoid timing side channels.
pub fn constant_time_eq(a: &[u8], b: &[u8]) -> (r: bool)
    requires
        a@.len() == b@.len(),
    ensures
        r == (a@ == b@),
{
    let mut diff: u8 = 0;
    let mut i: usize = 0;
    while i < a.len()
        invariant
            i <= a@.len(),
            a@.len() == b@.len(),
            (diff == 0) <==> (forall|j: int| 0 <= j < i ==> a@[j] == b@[j]),
        decreases a@.len() - i,
    {
        let x = a[i] ^ b[i];
        proof {
            let d = diff;
            assert((d | x) == 0 <==> (d == 0 && x == 0)) by (bit_vector);
            assert(x == (a@[i as int] ^ b@[i as int]));
            let p = a@[i as int];
            let q = b@[i as int];
            assert((p ^ q) == 0 <==> p == q) by (bit_vector);
        }
        diff = diff | x;
        i = i + 1;
    }
    if diff == 0 {
        proof {
            assert(a@ =~= b@);
        }
        true
    } else {
        false
    }
}

/// Authenticated symmetric cipher.
///
/// Sealing encrypts a message under a key and a nonce and authenticates the
/// ciphertext with a MAC; opening verifies the MAC before any decryption and
/// reports a bare verification failure on mismatch, without distinguishing
/// ciphertext from MAC corruption. Ciphertext, plaintext and MAC are each a
/// function of the inputs alone, described by the spec functions below.
pub trait Cipher {
    /// Byte length of a key.
    spec fn spec_key_len(&self) -> usize;

    /// Byte length of a nonce.
    spec fn spec_nonce_len(&self) -> usize;

    /// Byte length of a message authentication code.
    spec fn spec_mac_len(&self) -> usize;

    /// The ciphertext of `message` under `nonce` and `key`.
    spec fn spec_ciphertext(&self, message: Seq<u8>, nonce: Seq<u8>, key: Seq<u8>) -> Seq<u8>;

    /// The plaintext of `ciphertext` under `nonce` and `key`.
    spec fn spec_plaintext(&self, ciphertext: Seq<u8>, nonce: Seq<u8>, key: Seq<u8>) -> Seq<u8>;

    /// The MAC over `ciphertext` under `nonce` and `key`.
    spec fn spec_mac(&self, ciphertext: Seq<u8>, nonce: Seq<u8>, key: Seq<u8>) -> Seq<u8>;

    /// Byte length of a key.
    fn key_len(&self) -> (r: usize)
        ensures
            r == self.spec_key_len(),
    ;

    /// Byte length of a nonce.
    fn nonce_len(&self) -> (r: usize)
        ensures
            r == self.spec_nonce_len(),
    ;

    /// Byte length of a message authentication code.
    fn mac_len(&self) -> (r: usize)
        ensures
            r == self.spec_mac_len(),
    ;

    /// Encrypts `message` and authenticates the ciphertext. Decryption
    /// inverts encryption: the plaintext of the returned ciphertext, under
    /// the same nonce and key, is the message itself.
    fn seal(&self, message: &[u8], nonce: &[u8], key: &[u8]) -> (r: CipherOutput)
        requires
            nonce@.len() == self.spec_nonce_len(),
            key@.len() == self.spec_key_len(),
        ensures
            r.ciphertext@ == self.spec_ciphertext(message@, nonce@, key@),
            r.ciphertext@.len() == message@.len(),
            r.mac@ == self.spec_mac(r.ciphertext@, nonce@, key@),
            r.mac@.len() == self.spec_mac_len(),
            self.spec_plaintext(r.ciphertext@, nonce@, key@) == message@,
    ;

    /// Verifies the MAC of `encrypted` and, on success, decrypts its
    /// ciphertext into `output`. Succeeds exactly when the stored MAC is the
    /// MAC of the stored ciphertext under the given nonce and key.
    fn open(&self, output: &mut Vec<u8>, encrypted: &CipherOutput, nonce: &[u8], key: &[u8]) -> (r:
        Result<(), ()>)
        requires
            old(output)@.len() == encrypted.ciphertext@.len(),
            nonce@.len() == self.spec_nonce_len(),
            key@.len() == self.spec_key_len(),
            encrypted.mac@.len() == self.spec_mac_len(),
        ensures
            final(output)@.len() == old(output)@.len(),
            r is Ok <==> encrypted.mac@ == self.spec_mac(
                encrypted.ciphertext@,
                nonce@,
                key@,
            ),
            r is Ok ==> final(output)@ == self.spec_plaintext(
                encrypted.ciphertext@,
                nonce@,
                key@,
            ),
            r is Err ==> final(output)@ == old(output)@,
    ;
}

} // verus!
