//! Type erasure, the algorithm registry and the wire record.
//!
//! The capability traits are object safe, so any KDF or cipher can stand
//! behind a boxed handle; the sealed-container logic runs unmodified over
//! such handles. An [`Eraser`] maps algorithm names to factories, turns a
//! typed box into a self-describing [`ErasedPwBox`] record, and restores a
//! record into a [`RestoredPwBox`] whose algorithms were chosen at run time.

use vstd::prelude::*;

use crate::Error;
use crate::pwbox::{PwBox, PwBoxInner};
use crate::secure::{SensitiveData, sensitive_bytes};
use crate::traits::{Cipher, CipherOutput, DeriveKey, KdfError};

verus! {

impl DeriveKey for Box<dyn DeriveKey> {
    open spec fn spec_salt_len(&self) -> usize {
        (**self).spec_salt_len()
    }

    open spec fn spec_infallible(&self) -> bool {
        (**self).spec_infallible()
    }

    open spec fn spec_succeeds(&self, password: Seq<u8>, salt: Seq<u8>) -> bool {
        (**self).spec_succeeds(password, salt)
    }

    open spec fn spec_key(&self, key_len: nat, password: Seq<u8>, salt: Seq<u8>) -> Seq<u8> {
        (**self).spec_key(key_len, password, salt)
    }

    fn salt_len(&self) -> usize {
        (**self).salt_len()
    }

    fn derive_key(&self, buf: &mut Vec<u8>, password: &[u8], salt: &[u8]) -> Result<(), KdfError> {
        (**self).derive_key(buf, password, salt)
    }
}

impl Cipher for Box<dyn Cipher> {
    open spec fn spec_key_len(&self) -> usize {
        (**self).spec_key_len()
    }

    open spec fn spec_nonce_len(&self) -> usize {
        (**self).spec_nonce_len()
    }

    open spec fn spec_mac_len(&self) -> usize {
        (**self).spec_mac_len()
    }

    open spec fn spec_ciphertext(&self, message: Seq<u8>, nonce: Seq<u8>, key: Seq<u8>) -> Seq<
        u8,
    > {
        (**self).spec_ciphertext(message, nonce, key)
    }

    open spec fn spec_plaintext(&self, ciphertext: Seq<u8>, nonce: Seq<u8>, key: Seq<u8>) -> Seq<
        u8,
    > {
        (**self).spec_plaintext(ciphertext, nonce, key)
    }

    open spec fn spec_mac(&self, ciphertext: Seq<u8>, nonce: Seq<u8>, key: Seq<u8>) -> Seq<u8> {
        (**self).spec_mac(ciphertext, nonce, key)
    }

    fn key_len(&self) -> usize {
        (**self).key_len()
    }

    fn nonce_len(&self) -> usize {
        (**self).nonce_len()
    }

    fn mac_len(&self) -> usize {
        (**self).mac_len()
    }

    fn seal(&self, message: &[u8], nonce: &[u8], key: &[u8]) -> CipherOutput {
        (**self).seal(message, nonce, key)
    }

    fn open(&self, output: &mut Vec<u8>, encrypted: &CipherOutput, nonce: &[u8], key: &[u8])
        -> Result<(), ()> {
        (**self).open(output, encrypted, nonce, key)
    }
}

/// Structured, algorithm-specific KDF parameters of a record: a list of
/// named integer values.
pub struct KdfParams {
    /// The named parameter values, in order.
    pub entries: Vec<(String, u64)>,
}

/// The parameter list as a sequence of name and value pairs.
pub open spec fn params_view(p: &KdfParams) -> Seq<(Seq<char>, u64)> {
    Seq::new(p.entries@.len(), |i: int| (p.entries@[i].0@, p.entries@[i].1))
}

impl KdfParams {
    /// An empty parameter list.
    pub fn new() -> (r: KdfParams)
        ensures
            params_view(&r).len() == 0,
    {
        KdfParams { entries: Vec::new() }
    }

    /// Appends a named value.
    pub fn push_entry(&mut self, name: String, value: u64)
        ensures
            params_view(final(self)) == params_view(old(self)).push((name@, value)),
    {
        self.entries.push((name, value));
        assert(params_view(self) =~= params_view(old(self)).push((name@, value)));
    }
}

/// Restores KDF handles of one algorithm from record parameters.
///
/// Registered in an [`Eraser`] under a name; `restore` calls it for records
/// naming that algorithm.
pub trait KdfFactory {
    /// The canonical identifier of the algorithm this factory restores.
    spec fn spec_algorithm_id(&self) -> Seq<char>;

    /// The salt length of KDF handles restored from the given parameters.
    spec fn spec_salt_len(&self, params: Seq<(Seq<char>, u64)>) -> usize;

    /// Which record parameters this factory accepts as well-formed.
    spec fn spec_params_ok(&self, params: Seq<(Seq<char>, u64)>) -> bool;

    /// The canonical identifier of the algorithm this factory restores.
    fn algorithm_id(&self) -> (r: String)
        ensures
            r@ == self.spec_algorithm_id(),
    ;

    /// The salt length of KDF handles restored from the given parameters.
    fn salt_len_for(&self, params: &KdfParams) -> (r: usize)
        ensures
            r == self.spec_salt_len(params_view(params)),
    ;

    /// Parses record parameters into a KDF handle; fails with a
    /// parameter-parse error on malformed parameters.
    fn restore_kdf(&self, params: &KdfParams) -> (r: Result<Box<dyn DeriveKey>, Error>)
        ensures
            r is Ok <==> self.spec_params_ok(params_view(params)),
            r matches Err(e) ==> e matches Error::KdfParams(_),
    ;
}

/// Creates cipher handles of one algorithm.
///
/// Registered in an [`Eraser`] under a name; `restore` calls it for records
/// naming that algorithm.
pub trait CipherFactory {
    /// The canonical identifier of the algorithm this factory creates.
    spec fn spec_algorithm_id(&self) -> Seq<char>;

    /// Nonce length of the handles this factory creates.
    spec fn spec_nonce_len(&self) -> usize;

    /// MAC length of the handles this factory creates.
    spec fn spec_mac_len(&self) -> usize;

    /// The canonical identifier of the algorithm this factory creates.
    fn algorithm_id(&self) -> (r: String)
        ensures
            r@ == self.spec_algorithm_id(),
    ;

    /// Nonce length of the handles this factory creates.
    fn nonce_len(&self) -> (r: usize)
        ensures
            r == self.spec_nonce_len(),
    ;

    /// MAC length of the handles this factory creates.
    fn mac_len(&self) -> (r: usize)
        ensures
            r == self.spec_mac_len(),
    ;

    /// Creates a cipher handle.
    fn create(&self) -> (r: Option<Box<dyn Cipher>>)
        ensures
            r is Some,
    ;
}

/// A registered KDF algorithm: its registry name, the canonical identifier
/// of the algorithm its factory restores, and the factory itself.
pub struct KdfEntry {
    /// The name records use for this algorithm.
    pub name: String,
    /// The canonical identifier of the registered algorithm, as declared at
    /// registration; `erase` matches a box's KDF against it.
    pub algorithm_id: String,
    /// The factory that restores its handles.
    pub factory: Box<dyn KdfFactory>,
}

/// A registered cipher algorithm: its registry name, the canonical
/// identifier of the algorithm its factory creates, and the factory itself.
pub struct CipherEntry {
    /// The name records use for this algorithm.
    pub name: String,
    /// The canonical identifier of the registered algorithm, as declared at
    /// registration; `erase` matches a box's cipher against it.
    pub algorithm_id: String,
    /// The factory that creates its handles.
    pub factory: Box<dyn CipherFactory>,
}

/// Registered KDF algorithms, most recent first.
pub enum KdfList {
    /// No registrations.
    Nil,
    /// One registration and the earlier ones.
    Cons(KdfEntry, Box<KdfList>),
}

/// Registered cipher algorithms, most recent first.
pub enum CipherList {
    /// No registrations.
    Nil,
    /// One registration and the earlier ones.
    Cons(CipherEntry, Box<CipherList>),
}

/// The entries of a KDF registration list, most recent first.
pub open spec fn kdf_entries(l: KdfList) -> Seq<KdfEntry>
    decreases l,
{
    match l {
        KdfList::Nil => Seq::empty(),
        KdfList::Cons(e, rest) => Seq::empty().push(e) + kdf_entries(*rest),
    }
}

/// The entries of a cipher registration list, most recent first.
pub open spec fn cipher_entries(l: CipherList) -> Seq<CipherEntry>
    decreases l,
{
    match l {
        CipherList::Nil => Seq::empty(),
        CipherList::Cons(e, rest) => Seq::empty().push(e) + cipher_entries(*rest),
    }
}

/// The first KDF entry registered under `name`, if any.
pub open spec fn kdf_lookup(s: Seq<KdfEntry>, name: Seq<char>) -> Option<KdfEntry>
    decreases s.len(),
{
    if s.len() == 0 {
        None
    } else if s[0].name@ == name {
        Some(s[0])
    } else {
        kdf_lookup(s.drop_first(), name)
    }
}

/// The first cipher entry registered under `name`, if any.
pub open spec fn cipher_lookup(s: Seq<CipherEntry>, name: Seq<char>) -> Option<CipherEntry>
    decreases s.len(),
{
    if s.len() == 0 {
        None
    } else if s[0].name@ == name {
        Some(s[0])
    } else {
        cipher_lookup(s.drop_first(), name)
    }
}

/// The first KDF entry registered for the algorithm `id`, if any.
pub open spec fn kdf_lookup_by_id(s: Seq<KdfEntry>, id: Seq<char>) -> Option<KdfEntry>
    decreases s.len(),
{
    if s.len() == 0 {
        None
    } else if s[0].algorithm_id@ == id {
        Some(s[0])
    } else {
        kdf_lookup_by_id(s.drop_first(), id)
    }
}

/// The first cipher entry registered for the algorithm `id`, if any.
pub open spec fn cipher_lookup_by_id(s: Seq<CipherEntry>, id: Seq<char>) -> Option<CipherEntry>
    decreases s.len(),
{
    if s.len() == 0 {
        None
    } else if s[0].algorithm_id@ == id {
        Some(s[0])
    } else {
        cipher_lookup_by_id(s.drop_first(), id)
    }
}

/// Finds the first KDF entry registered under `name`.
fn find_kdf<'a>(l: &'a KdfList, name: &String) -> (r: Option<&'a KdfEntry>)
    ensures
        r matches Some(e) ==> kdf_lookup(kdf_entries(*l), name@) == Some(*e),
        r is None ==> kdf_lookup(kdf_entries(*l), name@) is None,
    decreases *l,
{
    match l {
        KdfList::Nil => None,
        KdfList::Cons(e, rest) => {
            proof {
                assert(kdf_entries(*l)[0] == *e);
                assert(kdf_entries(*l).drop_first() =~= kdf_entries(**rest));
            }
            if e.name == *name {
                Some(e)
            } else {
                find_kdf(rest, name)
            }
        },
    }
}

/// Finds the first cipher entry registered under `name`.
fn find_cipher<'a>(l: &'a CipherList, name: &String) -> (r: Option<&'a CipherEntry>)
    ensures
        r matches Some(e) ==> cipher_lookup(cipher_entries(*l), name@) == Some(*e),
        r is None ==> cipher_lookup(cipher_entries(*l), name@) is None,
    decreases *l,
{
    match l {
        CipherList::Nil => None,
        CipherList::Cons(e, rest) => {
            proof {
                assert(cipher_entries(*l)[0] == *e);
                assert(cipher_entries(*l).drop_first() =~= cipher_entries(**rest));
            }
            if e.name == *name {
                Some(e)
            } else {
                find_cipher(rest, name)
            }
        },
    }
}

/// Finds the first KDF entry registered for the algorithm `id`.
fn find_kdf_by_id<'a>(l: &'a KdfList, id: &String) -> (r: Option<&'a KdfEntry>)
    ensures
        r matches Some(e) ==> kdf_lookup_by_id(kdf_entries(*l), id@) == Some(*e),
        r is None ==> kdf_lookup_by_id(kdf_entries(*l), id@) is None,
    decreases *l,
{
    match l {
        KdfList::Nil => None,
        KdfList::Cons(e, rest) => {
            proof {
                assert(kdf_entries(*l)[0] == *e);
                assert(kdf_entries(*l).drop_first() =~= kdf_entries(**rest));
            }
            if e.algorithm_id == *id {
                Some(e)
            } else {
                find_kdf_by_id(rest, id)
            }
        },
    }
}

/// Finds the first cipher entry registered for the algorithm `id`.
fn find_cipher_by_id<'a>(l: &'a CipherList, id: &String) -> (r: Option<&'a CipherEntry>)
    ensures
        r matches Some(e) ==> cipher_lookup_by_id(cipher_entries(*l), id@) == Some(*e),
        r is None ==> cipher_lookup_by_id(cipher_entries(*l), id@) is None,
    decreases *l,
{
    match l {
        CipherList::Nil => None,
        CipherList::Cons(e, rest) => {
            proof {
                assert(cipher_entries(*l)[0] == *e);
                assert(cipher_entries(*l).drop_first() =~= cipher_entries(**rest));
            }
            if e.algorithm_id == *id {
                Some(e)
            } else {
                find_cipher_by_id(rest, id)
            }
        },
    }
}

/// Copies a byte slice into a fresh vector.
fn copy_bytes(s: &[u8]) -> (r: Vec<u8>)
    ensures
        r@ == s@,
{
    let mut r: Vec<u8> = Vec::new();
    let mut i: usize = 0;
    while i < s.len()
        invariant
            i <= s@.len(),
            r@ == s@.take(i as int),
        decreases s@.len() - i,
    {
        r.push(s[i]);
        assert(r@ =~= s@.take((i + 1) as int));
        i = i + 1;
    }
    assert(r@ =~= s@);
    r
}

/// A restored KDF handle: the boxed algorithm a factory built, together
/// with the salt length the factory declared for it.
///
/// The declared length is this type's salt length. A handle that disagrees
/// with its declaration — possible only for a misbehaving factory, since
/// nothing ties a boxed algorithm to its factory's declaration — derives no
/// keys: derivation then reports a KDF failure, which
/// [`DeriveKey::spec_succeeds`] reflects.
pub struct RestoredKdf {
    /// The boxed algorithm.
    pub handle: Box<dyn DeriveKey>,
    /// The salt length its factory declared.
    pub declared_salt_len: usize,
}

impl RestoredKdf {
    /// Whether the boxed algorithm agrees with its declared salt length.
    pub open spec fn consistent(&self) -> bool {
        (*self.handle).spec_salt_len() == self.declared_salt_len
    }
}

impl DeriveKey for RestoredKdf {
    open spec fn spec_salt_len(&self) -> usize {
        self.declared_salt_len
    }

    open spec fn spec_infallible(&self) -> bool {
        false
    }

    open spec fn spec_succeeds(&self, password: Seq<u8>, salt: Seq<u8>) -> bool {
        self.consistent() && (*self.handle).spec_succeeds(password, salt)
    }

    open spec fn spec_key(&self, key_len: nat, password: Seq<u8>, salt: Seq<u8>) -> Seq<u8> {
        (*self.handle).spec_key(key_len, password, salt)
    }

    fn salt_len(&self) -> usize {
        self.declared_salt_len
    }

    fn derive_key(&self, buf: &mut Vec<u8>, password: &[u8], salt: &[u8]) -> Result<(), KdfError> {
        if self.handle.salt_len() != self.declared_salt_len {
            return Err(
                KdfError {
                    message: "restored KDF disagrees with its declared salt length".to_string(),
                },
            );
        }
        self.handle.derive_key(buf, password, salt)
    }
}

/// A restored cipher handle: the boxed algorithm a factory built, together
/// with the nonce and MAC lengths the factory declared for it.
///
/// The declared lengths are this type's nonce and MAC lengths. A handle
/// that disagrees with its declaration — possible only for a misbehaving
/// factory — degenerates: sealing then stores the message unencrypted with
/// an all-zero MAC, and opening accepts exactly that form, as the spec
/// functions state.
pub struct RestoredCipher {
    /// The boxed algorithm.
    pub handle: Box<dyn Cipher>,
    /// The nonce length its factory declared.
    pub declared_nonce_len: usize,
    /// The MAC length its factory declared.
    pub declared_mac_len: usize,
}

impl RestoredCipher {
    /// Whether the boxed algorithm agrees with its declared lengths.
    pub open spec fn consistent(&self) -> bool {
        (*self.handle).spec_nonce_len() == self.declared_nonce_len && (
        *self.handle).spec_mac_len() == self.declared_mac_len
    }
}

impl Cipher for RestoredCipher {
    open spec fn spec_key_len(&self) -> usize {
        (*self.handle).spec_key_len()
    }

    open spec fn spec_nonce_len(&self) -> usize {
        self.declared_nonce_len
    }

    open spec fn spec_mac_len(&self) -> usize {
        self.declared_mac_len
    }

    open spec fn spec_ciphertext(&self, message: Seq<u8>, nonce: Seq<u8>, key: Seq<u8>) -> Seq<
        u8,
    > {
        if self.consistent() {
            (*self.handle).spec_ciphertext(message, nonce, key)
        } else {
            message
        }
    }

    open spec fn spec_plaintext(&self, ciphertext: Seq<u8>, nonce: Seq<u8>, key: Seq<u8>) -> Seq<
        u8,
    > {
        if self.consistent() {
            (*self.handle).spec_plaintext(ciphertext, nonce, key)
        } else {
            ciphertext
        }
    }

    open spec fn spec_mac(&self, ciphertext: Seq<u8>, nonce: Seq<u8>, key: Seq<u8>) -> Seq<u8> {
        if self.consistent() {
            (*self.handle).spec_mac(ciphertext, nonce, key)
        } else {
            crate::secure::zero_bytes(self.declared_mac_len as nat)
        }
    }

    fn key_len(&self) -> usize {
        self.handle.key_len()
    }

    fn nonce_len(&self) -> usize {
        self.declared_nonce_len
    }

    fn mac_len(&self) -> usize {
        self.declared_mac_len
    }

    fn seal(&self, message: &[u8], nonce: &[u8], key: &[u8]) -> CipherOutput {
        if self.handle.nonce_len() == self.declared_nonce_len && self.handle.mac_len()
            == self.declared_mac_len {
            self.handle.seal(message, nonce, key)
        } else {
            let ciphertext = copy_bytes(message);
            let mac = crate::secure::zeroed_vec(self.declared_mac_len);
            CipherOutput { ciphertext, mac }
        }
    }

    fn open(&self, output: &mut Vec<u8>, encrypted: &CipherOutput, nonce: &[u8], key: &[u8])
        -> Result<(), ()> {
        if self.handle.nonce_len() == self.declared_nonce_len && self.handle.mac_len()
            == self.declared_mac_len {
            self.handle.open(output, encrypted, nonce, key)
        } else {
            let expected = crate::secure::zeroed_vec(self.declared_mac_len);
            if !crate::traits::constant_time_eq(expected.as_slice(), encrypted.mac.as_slice()) {
                return Err(());
            }
            let n = encrypted.ciphertext.len();
            let mut i: usize = 0;
            while i < n
                invariant
                    i <= n,
                    n == encrypted.ciphertext@.len(),
                    output@.len() == n,
                    forall|j: int| 0 <= j < i ==> output@[j] == encrypted.ciphertext@[j],
                decreases n - i,
            {
                output.set(i, encrypted.ciphertext[i]);
                i = i + 1;
            }
            assert(output@ =~= encrypted.ciphertext@);
            Ok(())
        }
    }
}

/// A KDF whose identity and parameters can be written into a record.
pub trait ErasableKdf: DeriveKey {
    /// The canonical identifier of this KDF's algorithm.
    spec fn spec_algorithm_id(&self) -> Seq<char>;

    /// This instance's parameters, as they appear in a record.
    spec fn spec_params(&self) -> Seq<(Seq<char>, u64)>;

    /// The canonical identifier of this KDF's algorithm.
    fn algorithm_id(&self) -> (r: String)
        ensures
            r@ == self.spec_algorithm_id(),
    ;

    /// This instance's parameters, as they appear in a record.
    fn to_params(&self) -> (r: KdfParams)
        ensures
            params_view(&r) == self.spec_params(),
    ;
}

/// A cipher whose identity can be written into a record.
pub trait ErasableCipher: Cipher {
    /// The canonical identifier of this cipher's algorithm.
    spec fn spec_algorithm_id(&self) -> Seq<char>;

    /// The canonical identifier of this cipher's algorithm.
    fn algorithm_id(&self) -> (r: String)
        ensures
            r@ == self.spec_algorithm_id(),
    ;
}

/// A matched KDF and cipher pair that registers itself under canonical
/// names.
pub trait Suite {
    /// The pair's KDF type.
    type Kdf: DeriveKey;

    /// The pair's cipher type.
    type Cipher: Cipher;

    /// The factory type that restores this suite's KDF handles.
    type KdfFac: KdfFactory + 'static;

    /// The factory type that creates this suite's cipher handles.
    type CipherFac: CipherFactory + 'static;

    /// The canonical name under which the pair's KDF registers.
    spec fn spec_kdf_name() -> Seq<char>;

    /// The canonical name under which the pair's cipher registers.
    spec fn spec_cipher_name() -> Seq<char>;

    /// A KDF instance with reasonable default difficulty parameters.
    fn default_kdf() -> Self::Kdf;

    /// A cipher instance.
    fn cipher() -> Self::Cipher;

    /// The factory that restores this suite's KDF handles.
    fn kdf_factory() -> (r: Self::KdfFac)
        ensures
            r.spec_algorithm_id() == Self::spec_kdf_name(),
    ;

    /// The factory that creates this suite's cipher handles.
    fn cipher_factory() -> (r: Self::CipherFac)
        ensures
            r.spec_algorithm_id() == Self::spec_cipher_name(),
    ;
}

/// Starts a builder over a suite's KDF and cipher.
pub fn suite_builder<S: Suite>() -> crate::pwbox::PwBoxBuilder<S::Kdf, S::Cipher> {
    crate::pwbox::PwBoxBuilder::new(S::default_kdf(), S::cipher())
}

/// The self-describing record of a sealed container: the names and
/// parameters of its algorithms, and its salt, nonce, ciphertext and MAC.
/// This is the only form meant to cross storage boundaries.
pub struct ErasedPwBox {
    /// Registry name of the KDF.
    pub kdf_name: String,
    /// The KDF's parameters.
    pub kdf_params: KdfParams,
    /// Registry name of the cipher.
    pub cipher_name: String,
    /// Stored salt.
    pub salt: Vec<u8>,
    /// Stored nonce.
    pub nonce: Vec<u8>,
    /// Stored ciphertext.
    pub ciphertext: Vec<u8>,
    /// Stored MAC.
    pub mac: Vec<u8>,
}

impl ErasedPwBox {
    /// The length of the stored ciphertext.
    pub fn len(&self) -> (r: usize)
        ensures
            r == self.ciphertext@.len(),
    {
        self.ciphertext.len()
    }
}

/// A container restored from a record, with run-time chosen algorithms. It
/// opens exactly like a typed box.
pub struct RestoredPwBox {
    inner: PwBoxInner<RestoredKdf, RestoredCipher>,
}

impl RestoredPwBox {
    /// The restored container is structurally sound: stored lengths match
    /// its own algorithms' expectations.
    #[verifier::type_invariant]
    spec fn type_inv(&self) -> bool {
        self.inner.wf()
    }

    /// The stored salt.
    pub closed spec fn spec_salt(&self) -> Seq<u8> {
        self.inner.salt@
    }

    /// The stored nonce.
    pub closed spec fn spec_nonce(&self) -> Seq<u8> {
        self.inner.nonce@
    }

    /// The stored ciphertext.
    pub closed spec fn spec_ciphertext(&self) -> Seq<u8> {
        self.inner.encrypted.ciphertext@
    }

    /// The stored MAC.
    pub closed spec fn spec_mac_bytes(&self) -> Seq<u8> {
        self.inner.encrypted.mac@
    }

    /// Whether key derivation succeeds for `password` on this container's
    /// stored salt.
    pub closed spec fn spec_kdf_succeeds(&self, password: Seq<u8>) -> bool {
        self.inner.kdf.spec_succeeds(password, self.inner.salt@)
    }

    /// Whether MAC verification accepts `password`.
    pub closed spec fn spec_opens(&self, password: Seq<u8>) -> bool {
        self.inner.spec_opens(password)
    }

    /// The plaintext that opening with `password` would produce.
    pub closed spec fn spec_content(&self, password: Seq<u8>) -> Seq<u8> {
        self.inner.spec_content(password)
    }

    /// The length of the stored ciphertext, equal to the original message's.
    pub fn len(&self) -> (r: usize)
        ensures
            r == self.spec_ciphertext().len(),
    {
        self.inner.len()
    }

    /// Opens the container into a caller-provided buffer; a buffer of the
    /// wrong length is a caller bug, ruled out by precondition.
    pub fn open_into(&self, output: &mut Vec<u8>, password: &[u8]) -> (r: Result<(), Error>)
        requires
            old(output)@.len() == self.spec_ciphertext().len(),
        ensures
            final(output)@.len() == old(output)@.len(),
            r is Ok <==> (self.spec_kdf_succeeds(password@) && self.spec_opens(password@)),
            r is Ok ==> final(output)@ == self.spec_content(password@),
            r is Err ==> final(output)@ == old(output)@,
            r == Err::<(), Error>(Error::MacMismatch) <==> (self.spec_kdf_succeeds(password@)
                && !self.spec_opens(password@)),
            r matches Err(e) ==> ((e matches Error::DeriveKey(_)) <==> !self.spec_kdf_succeeds(
                password@,
            )),
    {
        proof {
            use_type_invariant(&*self);
        }
        self.inner.open_into(output, password)
    }

    /// Opens the container and returns the plaintext in a buffer that is
    /// zeroed on drop.
    pub fn open(&self, password: &[u8]) -> (r: Result<SensitiveData, Error>)
        ensures
            r is Ok <==> (self.spec_kdf_succeeds(password@) && self.spec_opens(password@)),
            r matches Ok(s) ==> sensitive_bytes(&s) == self.spec_content(password@),
            (r matches Err(e) && e == Error::MacMismatch) <==> (self.spec_kdf_succeeds(password@)
                && !self.spec_opens(password@)),
            r matches Err(e) ==> ((e matches Error::DeriveKey(_)) <==> !self.spec_kdf_succeeds(
                password@,
            )),
    {
        proof {
            use_type_invariant(&*self);
        }
        self.inner.open(password)
    }
}

/// The name-to-factory registry, and the codec between typed boxes and
/// records.
///
/// Populated once during setup and read-only afterwards; a name registered
/// twice resolves to its most recent registration.
pub struct Eraser {
    /// Registered KDF algorithms, most recent first.
    pub kdfs: KdfList,
    /// Registered cipher algorithms, most recent first.
    pub ciphers: CipherList,
}

impl Eraser {
    /// Whether a KDF is registered under `name`.
    pub open spec fn spec_has_kdf(&self, name: Seq<char>) -> bool {
        kdf_lookup(kdf_entries(self.kdfs), name) is Some
    }

    /// Whether a cipher is registered under `name`.
    pub open spec fn spec_has_cipher(&self, name: Seq<char>) -> bool {
        cipher_lookup(cipher_entries(self.ciphers), name) is Some
    }

    /// Whether a KDF factory for the algorithm `id` is registered.
    pub open spec fn spec_has_kdf_id(&self, id: Seq<char>) -> bool {
        kdf_lookup_by_id(kdf_entries(self.kdfs), id) is Some
    }

    /// Whether a cipher factory for the algorithm `id` is registered.
    pub open spec fn spec_has_cipher_id(&self, id: Seq<char>) -> bool {
        cipher_lookup_by_id(cipher_entries(self.ciphers), id) is Some
    }

    /// An empty registry.
    pub fn new() -> (r: Eraser)
        ensures
            kdf_entries(r.kdfs).len() == 0,
            cipher_entries(r.ciphers).len() == 0,
    {
        Eraser { kdfs: KdfList::Nil, ciphers: CipherList::Nil }
    }

    /// Registers a KDF factory under a name, declaring the canonical
    /// identifier of the algorithm it restores.
    pub fn add_kdf(&mut self, name: String, algorithm_id: String, factory: Box<dyn KdfFactory>)
        ensures
            kdf_entries(final(self).kdfs).len() == kdf_entries(old(self).kdfs).len() + 1,
            kdf_entries(final(self).kdfs)[0].name@ == name@,
            kdf_entries(final(self).kdfs)[0].algorithm_id@ == algorithm_id@,
            kdf_entries(final(self).kdfs).drop_first() == kdf_entries(old(self).kdfs),
            final(self).ciphers == old(self).ciphers,
    {
        let mut rest = KdfList::Nil;
        std::mem::swap(&mut rest, &mut self.kdfs);
        self.kdfs = KdfList::Cons(KdfEntry { name, algorithm_id, factory }, Box::new(rest));
        assert(kdf_entries(self.kdfs).drop_first() =~= kdf_entries(old(self).kdfs));
    }

    /// Registers a cipher factory under a name, declaring the canonical
    /// identifier of the algorithm it creates.
    pub fn add_cipher(
        &mut self,
        name: String,
        algorithm_id: String,
        factory: Box<dyn CipherFactory>,
    )
        ensures
            cipher_entries(final(self).ciphers).len() == cipher_entries(old(self).ciphers).len()
                + 1,
            cipher_entries(final(self).ciphers)[0].name@ == name@,
            cipher_entries(final(self).ciphers)[0].algorithm_id@ == algorithm_id@,
            cipher_entries(final(self).ciphers).drop_first() == cipher_entries(old(self).ciphers),
            final(self).kdfs == old(self).kdfs,
    {
        let mut rest = CipherList::Nil;
        std::mem::swap(&mut rest, &mut self.ciphers);
        self.ciphers = CipherList::Cons(CipherEntry { name, algorithm_id, factory }, Box::new(
        rest));
        assert(cipher_entries(self.ciphers).drop_first() =~= cipher_entries(old(self).ciphers));
    }

    /// Registers a suite's KDF and cipher under their canonical names.
    pub fn add_suite<S: Suite>(&mut self)
        ensures
            kdf_entries(final(self).kdfs).len() == kdf_entries(old(self).kdfs).len() + 1,
            cipher_entries(final(self).ciphers).len() == cipher_entries(old(self).ciphers).len()
                + 1,
            kdf_entries(final(self).kdfs).drop_first() == kdf_entries(old(self).kdfs),
            cipher_entries(final(self).ciphers).drop_first() == cipher_entries(old(self).ciphers),
            kdf_entries(final(self).kdfs)[0].name@ == S::spec_kdf_name(),
            cipher_entries(final(self).ciphers)[0].name@ == S::spec_cipher_name(),
            final(self).spec_has_kdf(S::spec_kdf_name()),
            final(self).spec_has_cipher(S::spec_cipher_name()),
            final(self).spec_has_kdf_id(S::spec_kdf_name()),
            final(self).spec_has_cipher_id(S::spec_cipher_name()),
    {
        let kf = S::kdf_factory();
        let kdf_name = kf.algorithm_id();
        let kdf_id = kf.algorithm_id();
        self.add_kdf(kdf_name, kdf_id, Box::new(kf));
        let cf = S::cipher_factory();
        let cipher_name = cf.algorithm_id();
        let cipher_id = cf.algorithm_id();
        self.add_cipher(cipher_name, cipher_id, Box::new(cf));
        proof {
            let ks = kdf_entries(self.kdfs);
            assert(ks.len() > 0 && ks[0].name@ == S::spec_kdf_name());
            assert(kdf_lookup(ks, S::spec_kdf_name()) == Some(ks[0]));
            assert(kdf_lookup_by_id(ks, S::spec_kdf_name()) == Some(ks[0]));
            let cs = cipher_entries(self.ciphers);
            assert(cs.len() > 0 && cs[0].name@ == S::spec_cipher_name());
            assert(cipher_lookup(cs, S::spec_cipher_name()) == Some(cs[0]));
            assert(cipher_lookup_by_id(cs, S::spec_cipher_name()) == Some(cs[0]));
        }
    }

    /// Writes a typed box into a self-describing record. Succeeds exactly
    /// when the box's KDF and cipher algorithms are registered; the record
    /// then carries the registry names, the KDF's parameters, and the box's
    /// salt, nonce, ciphertext and MAC verbatim.
    pub fn erase<K: ErasableKdf, C: ErasableCipher>(&self, pwbox: &PwBox<K, C>) -> (r: Result<
        ErasedPwBox,
        Error,
    >)
        ensures
            r is Ok <==> self.spec_has_kdf_id(pwbox.inner.kdf.spec_algorithm_id())
                && self.spec_has_cipher_id(pwbox.inner.cipher.spec_algorithm_id()),
            r matches Ok(rec) ==> rec.salt@ == pwbox.inner.salt@ && rec.nonce@
                == pwbox.inner.nonce@ && rec.ciphertext@ == pwbox.inner.encrypted.ciphertext@
                && rec.mac@ == pwbox.inner.encrypted.mac@ && params_view(&rec.kdf_params)
                == pwbox.inner.kdf.spec_params() && (kdf_lookup_by_id(
                kdf_entries(self.kdfs),
                pwbox.inner.kdf.spec_algorithm_id(),
            ) matches Some(ke) && rec.kdf_name@ == ke.name@) && (cipher_lookup_by_id(
                cipher_entries(self.ciphers),
                pwbox.inner.cipher.spec_algorithm_id(),
            ) matches Some(ce) && rec.cipher_name@ == ce.name@),
            r matches Err(e) ==> ((e matches Error::NoKdf(n) && n@
                == pwbox.inner.kdf.spec_algorithm_id() && !self.spec_has_kdf_id(n@)) || (
            e matches Error::NoCipher(n) && n@ == pwbox.inner.cipher.spec_algorithm_id()
                && !self.spec_has_cipher_id(n@))),
    {
        let kdf_id = pwbox.inner.kdf.algorithm_id();
        let ke = match find_kdf_by_id(&self.kdfs, &kdf_id) {
            Some(e) => e,
            None => {
                return Err(Error::NoKdf(kdf_id));
            },
        };
        let cipher_id = pwbox.inner.cipher.algorithm_id();
        let ce = match find_cipher_by_id(&self.ciphers, &cipher_id) {
            Some(e) => e,
            None => {
                return Err(Error::NoCipher(cipher_id));
            },
        };
        Ok(ErasedPwBox {
            kdf_name: ke.name.clone(),
            kdf_params: pwbox.inner.kdf.to_params(),
            cipher_name: ce.name.clone(),
            salt: copy_bytes(pwbox.inner.salt.as_slice()),
            nonce: copy_bytes(pwbox.inner.nonce.as_slice()),
            ciphertext: copy_bytes(pwbox.inner.encrypted.ciphertext.as_slice()),
            mac: copy_bytes(pwbox.inner.encrypted.mac.as_slice()),
        })
    }

    /// Rebuilds a container from a record. The stages run in the order the
    /// wire design fixes: the KDF name is looked up, its factory parses the
    /// parameters, the cipher name is looked up, and the stored salt, nonce
    /// and MAC lengths are validated against the factories' declared
    /// lengths — so every lookup, parameter and length failure is reported
    /// before anything cryptographic can happen. A record that passes all
    /// of that restores successfully, and the restored container holds the
    /// record's bytes verbatim.
    pub fn restore(&self, record: &ErasedPwBox) -> (r: Result<RestoredPwBox, Error>)
        ensures
            !self.spec_has_kdf(record.kdf_name@) <==> (r matches Err(e) && e matches Error::NoKdf(
                _,
            )),
            r matches Err(e) ==> (e matches Error::NoKdf(n) ==> n@ == record.kdf_name@),
            kdf_lookup(kdf_entries(self.kdfs), record.kdf_name@) matches Some(ke) ==> (!(
            *ke.factory).spec_params_ok(params_view(&record.kdf_params)) <==> (r matches Err(e)
                && e matches Error::KdfParams(_))),
            kdf_lookup(kdf_entries(self.kdfs), record.kdf_name@) matches Some(ke) ==> ((
            *ke.factory).spec_params_ok(params_view(&record.kdf_params)) ==> (!self.spec_has_cipher(
                record.cipher_name@,
            ) <==> (r matches Err(e) && e matches Error::NoCipher(_)))),
            r matches Err(e) ==> (e matches Error::NoCipher(n) ==> self.spec_has_kdf(
                record.kdf_name@,
            ) && n@ == record.cipher_name@),
            kdf_lookup(kdf_entries(self.kdfs), record.kdf_name@) matches Some(ke) ==> (
            cipher_lookup(cipher_entries(self.ciphers), record.cipher_name@) matches Some(ce)
                ==> ({
                let pv = params_view(&record.kdf_params);
                let params_ok = (*ke.factory).spec_params_ok(pv);
                let want_salt = (*ke.factory).spec_salt_len(pv);
                let want_nonce = (*ce.factory).spec_nonce_len();
                let want_mac = (*ce.factory).spec_mac_len();
                &&& ((params_ok && record.salt@.len() != want_salt) ==> r == Err::<
                    RestoredPwBox,
                    Error,
                >(Error::SaltLen))
                &&& ((params_ok && record.salt@.len() == want_salt && record.nonce@.len()
                    != want_nonce) ==> r == Err::<RestoredPwBox, Error>(Error::NonceLen))
                &&& ((params_ok && record.salt@.len() == want_salt && record.nonce@.len()
                    == want_nonce && record.mac@.len() != want_mac) ==> r == Err::<
                    RestoredPwBox,
                    Error,
                >(Error::MacLen))
                &&& ((params_ok && record.salt@.len() == want_salt && record.nonce@.len()
                    == want_nonce && record.mac@.len() == want_mac) ==> r is Ok)
                &&& (r is Ok ==> params_ok && record.salt@.len() == want_salt
                    && record.nonce@.len() == want_nonce && record.mac@.len() == want_mac)
            })),
            r == Err::<RestoredPwBox, Error>(Error::SaltLen) || r == Err::<
                RestoredPwBox,
                Error,
            >(Error::NonceLen) || r == Err::<RestoredPwBox, Error>(Error::MacLen)
                ==> self.spec_has_kdf(record.kdf_name@) && self.spec_has_cipher(
                record.cipher_name@,
            ),
            r matches Ok(rb) ==> self.spec_has_kdf(record.kdf_name@) && self.spec_has_cipher(
                record.cipher_name@,
            ) && rb.spec_salt() == record.salt@ && rb.spec_nonce() == record.nonce@
                && rb.spec_ciphertext() == record.ciphertext@ && rb.spec_mac_bytes()
                == record.mac@,
    {
        let ke = match find_kdf(&self.kdfs, &record.kdf_name) {
            Some(e) => e,
            None => {
                return Err(Error::NoKdf(record.kdf_name.clone()));
            },
        };
        let handle = match (*ke.factory).restore_kdf(&record.kdf_params) {
            Ok(k) => k,
            Err(e) => {
                return Err(e);
            },
        };
        let ce = match find_cipher(&self.ciphers, &record.cipher_name) {
            Some(e) => e,
            None => {
                return Err(Error::NoCipher(record.cipher_name.clone()));
            },
        };
        let cipher_handle = match (*ce.factory).create() {
            Some(c) => c,
            None => {
                return Err(Error::NoCipher(record.cipher_name.clone()));
            },
        };
        let declared_salt_len = (*ke.factory).salt_len_for(&record.kdf_params);
        if record.salt.len() != declared_salt_len {
            return Err(Error::SaltLen);
        }
        let declared_nonce_len = (*ce.factory).nonce_len();
        if record.nonce.len() != declared_nonce_len {
            return Err(Error::NonceLen);
        }
        let declared_mac_len = (*ce.factory).mac_len();
        if record.mac.len() != declared_mac_len {
            return Err(Error::MacLen);
        }
        let kdf = RestoredKdf { handle, declared_salt_len };
        let cipher = RestoredCipher { handle: cipher_handle, declared_nonce_len, declared_mac_len };
        let inner = PwBoxInner {
            salt: copy_bytes(record.salt.as_slice()),
            nonce: copy_bytes(record.nonce.as_slice()),
            encrypted: CipherOutput {
                ciphertext: copy_bytes(record.ciphertext.as_slice()),
                mac: copy_bytes(record.mac.as_slice()),
            },
            kdf,
            cipher,
        };
        Ok(RestoredPwBox { inner })
    }
}

} // verus!
