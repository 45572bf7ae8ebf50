//! A 32-byte public key, the identity that owns a record.
//!
//! The outer host verifies signatures; inside the library a key is nothing
//! but its 32 bytes, and authorization is plain byte equality.

use vstd::prelude::*;

verus! {

/// The fixed width of a public key, in bytes.
pub const PUBKEY_LEN: usize = 32;

/// A 32-byte public key held as plain bytes.
#[derive(Debug)]
pub struct Pubkey {
    bytes: Vec<u8>,
}

impl View for Pubkey {
    type V = Seq<u8>;

    closed spec fn view(&self) -> Seq<u8> {
        self.bytes@
    }
}

impl Pubkey {
    /// A key is well formed when it holds exactly 32 bytes; every
    /// constructor of this type establishes that, and the type invariant
    /// keeps it true of every key value.
    #[verifier::type_invariant]
    pub open spec fn wf(&self) -> bool {
        self@.len() == PUBKEY_LEN
    }

    /// Builds a key from a fixed 32-byte array.
    pub fn new_from_array(key: [u8; 32]) -> (out: Pubkey)
        ensures
            out@ == key@,
            out.wf(),
    {
        let mut bytes: Vec<u8> = Vec::new();
        let mut i: usize = 0;
        while i < 32
            invariant
                0 <= i <= 32,
                bytes@.len() == i,
                forall|j: int| 0 <= j < i ==> bytes@[j] == key@[j],
            decreases 32 - i,
        {
            bytes.push(key[i]);
            i = i + 1;
        }
        assert(bytes@ =~= key@);
        Pubkey { bytes }
    }

    /// Builds a key from a buffer of exactly 32 bytes.
    pub fn new_from_bytes(key: Vec<u8>) -> (out: Pubkey)
        requires
            key@.len() == PUBKEY_LEN,
        ensures
            out@ == key@,
            out.wf(),
    {
        Pubkey { bytes: key }
    }

    /// The bytes of the key, in order.
    pub fn to_bytes(&self) -> (out: Vec<u8>)
        ensures
            out@ == self@,
    {
        let mut out: Vec<u8> = Vec::new();
        let mut i: usize = 0;
        let n: usize = self.bytes.len();
        while i < n
            invariant
                n == self.bytes@.len(),
                0 <= i <= n,
                out@.len() == i,
                forall|j: int| 0 <= j < i ==> out@[j] == self.bytes@[j],
            decreases n - i,
        {
            out.push(self.bytes[i]);
            i = i + 1;
        }
        assert(out@ =~= self@);
        out
    }

    /// An explicit copy of the key.
    pub fn duplicate(&self) -> (out: Pubkey)
        ensures
            out@ == self@,
    {
        proof {
            use_type_invariant(&*self);
        }
        Pubkey { bytes: self.to_bytes() }
    }
}

impl PartialEq for Pubkey {
    /// Two keys are equal exactly when their bytes are equal.
    fn eq(&self, other: &Self) -> (r: bool) {
        let mut i: usize = 0;
        let n: usize = self.bytes.len();
        if n != other.bytes.len() {
            return false;
        }
        while i < n
            invariant
                n == self.bytes@.len(),
                n == other.bytes@.len(),
                0 <= i <= n,
                forall|j: int| 0 <= j < i ==> self.bytes@[j] == other.bytes@[j],
            decreases n - i,
        {
            if self.bytes[i] != other.bytes[i] {
                return false;
            }
            i = i + 1;
        }
        assert(self@ =~= other@);
        true
    }
}

impl vstd::std_specs::cmp::PartialEqSpecImpl for Pubkey {
    open spec fn obeys_eq_spec() -> bool {
        true
    }

    open spec fn eq_spec(&self, other: &Pubkey) -> bool {
        self@ == other@
    }
}

impl Eq for Pubkey {
}

} // verus!
