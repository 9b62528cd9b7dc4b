//! Account addresses.

use vstd::prelude::*;
use vstd::std_specs::cmp::PartialEqSpecImpl;
use crate::bytes::bytes_eq;

verus! {

/// A 32-byte account address.
#[derive(Clone, Copy, Debug)]
pub struct Pubkey {
    pub bytes: [u8; 32],
}

impl View for Pubkey {
    type V = Seq<u8>;

    open spec fn view(&self) -> Seq<u8> {
        self.bytes@
    }
}

impl PartialEq for Pubkey {
    fn eq(&self, other: &Pubkey) -> (r: bool) {
        bytes_eq(self.bytes.as_slice(), other.bytes.as_slice())
    }
}

impl Eq for Pubkey {
}

impl PartialEqSpecImpl for Pubkey {
    open spec fn obeys_eq_spec() -> bool {
        true
    }

    open spec fn eq_spec(&self, other: &Pubkey) -> bool {
        self.bytes@ == other.bytes@
    }
}

impl Pubkey {
    /// The address made of the given bytes.
    pub fn new(bytes: [u8; 32]) -> (r: Pubkey)
        ensures
            r.bytes == bytes,
    {
        Pubkey { bytes }
    }

    /// The bytes of the all-zero address.
    pub open spec fn default_bytes() -> Seq<u8> {
        Seq::new(32, |i: int| 0u8)
    }

    /// The all-zero address, which stands for "not set".
    pub fn default() -> (r: Pubkey)
        ensures
            r@ == Pubkey::default_bytes(),
    {
        let r = Pubkey { bytes: [0u8; 32] };
        proof {
            assert(r@ =~= Pubkey::default_bytes());
        }
        r
    }

    /// Whether this is the all-zero address.
    pub fn is_default(&self) -> (r: bool)
        ensures
            r == (self@ == Pubkey::default_bytes()),
    {
        let zero = Pubkey::default();
        *self == zero
    }
}

/// Addresses with the same bytes are the same address.
pub proof fn lemma_pubkey_ext(a: Pubkey, b: Pubkey)
    ensures
        (a@ == b@) == (a == b),
{
    if a@ == b@ {
        assert(a.bytes@ =~= b.bytes@);
        assert(a.bytes == b.bytes);
    }
}

} // verus!
