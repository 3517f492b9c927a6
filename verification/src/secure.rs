//! Secure byte buffers that are wiped before their storage is released.

use vstd::prelude::*;

use clear_on_drop::ClearOnDrop;
use smallvec::SmallVec;

verus! {

/// A byte sequence of the given length, all zero.
pub open spec fn zero_bytes(len: nat) -> Seq<u8> {
    Seq::new(len, |i: int| 0u8)
}

/// Allocates a zero-filled byte vector of the given length.
pub fn zeroed_vec(len: usize) -> (r: Vec<u8>)
    ensures
        r@ == zero_bytes(len as nat),
        r@.len() == len,
{
    let mut v: Vec<u8> = Vec::new();
    let mut i: usize = 0;
    while i < len
        invariant
            i <= len,
            v@.len() == i,
            v@ == zero_bytes(i as nat),
        decreases len - i,
    {
        v.push(0u8);
        assert(v@ =~= zero_bytes((i + 1) as nat));
        i = i + 1;
    }
    assert(v@ =~= zero_bytes(len as nat));
    v
}

/// Overwrites every byte of a vector with zero. Secret staging buffers are
/// wiped with this before they are released, on every exit path.
pub fn wipe(v: &mut Vec<u8>)
    ensures
        final(v)@ == zero_bytes(old(v)@.len()),
{
    let n = v.len();
    let mut i: usize = 0;
    while i < n
        invariant
            i <= n,
            n == v@.len(),
            forall|j: int| 0 <= j < i ==> v@[j] == 0u8,
        decreases n - i,
    {
        v.set(i, 0u8);
        i = i + 1;
    }
    assert(v@ =~= zero_bytes(n as nat));
}

/// Container for secret bytes, such as the plaintext obtained by opening a
/// sealed box.
///
/// The buffer is overwritten with zeros before its storage is released, on
/// every exit path: the bytes sit behind `clear_on_drop::ClearOnDrop`, whose
/// destructor performs the wipe, and buffers of at most 256 bytes are held
/// inline by `smallvec::SmallVec`, avoiding a separate heap allocation.
#[verifier::external_body]
pub struct SensitiveData {
    inner: ClearOnDrop<SmallVec<[u8; 256]>>,
}

/// The bytes currently held by a `SensitiveData` buffer.
pub uninterp spec fn sensitive_bytes(s: &SensitiveData) -> Seq<u8>;

impl SensitiveData {
    /// Relies on `smallvec::SmallVec::from_elem` and
    /// `clear_on_drop::ClearOnDrop::new`: the buffer holds `len` zero bytes.
    #[verifier::external_body]
    pub fn zeros(len: usize) -> (r: SensitiveData)
        ensures
            sensitive_bytes(&r) == zero_bytes(len as nat),
    {
        SensitiveData { inner: ClearOnDrop::new(SmallVec::from_elem(0u8, len)) }
    }

    /// Relies on `smallvec::SmallVec::from_slice` and
    /// `clear_on_drop::ClearOnDrop::new`: the buffer holds exactly the bytes
    /// of the given vector, and the source vector's own storage is wiped
    /// (by dropping it through `ClearOnDrop`) before it is released.
    #[verifier::external_body]
    pub(crate) fn from_vec(bytes: Vec<u8>) -> (r: SensitiveData)
        ensures
            sensitive_bytes(&r) == bytes@,
    {
        let held: SmallVec<[u8; 256]> = SmallVec::from_slice(&bytes);
        drop(ClearOnDrop::new(bytes));
        SensitiveData { inner: ClearOnDrop::new(held) }
    }

    /// Relies on `smallvec::SmallVec`'s slice access (through
    /// `clear_on_drop::ClearOnDrop`'s `Deref`): the slice is the held bytes.
    #[verifier::external_body]
    pub fn as_bytes(&self) -> (r: &[u8])
        ensures
            r@ == sensitive_bytes(self),
    {
        &self.inner
    }

    /// The number of bytes held.
    pub fn len(&self) -> (r: usize)
        ensures
            r == sensitive_bytes(self).len(),
    {
        self.as_bytes().len()
    }
}

} // verus!
