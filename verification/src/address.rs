//! Account and contract addresses, held as their XDR encoding.

use vstd::prelude::*;

verus! {

/// An address (account or contract), held as the bytes of its XDR encoding.
///
/// The XDR encoding of an address is canonical, so two addresses are equal
/// exactly when their encodings are; the view of an `Addr` is that encoding.
#[derive(Debug)]
pub struct Addr {
    bytes: Vec<u8>,
}

impl View for Addr {
    type V = Seq<u8>;

    open spec fn view(&self) -> Seq<u8> {
        self.spec_bytes()
    }
}

impl Addr {
    /// The encoding held by this address.
    pub closed spec fn spec_bytes(&self) -> Seq<u8> {
        self.bytes@
    }

    /// An address from the bytes of its XDR encoding.
    pub fn from_xdr(bytes: Vec<u8>) -> (a: Addr)
        ensures
            a@ == bytes@,
    {
        Addr { bytes }
    }

    /// The bytes of the XDR encoding of this address.
    pub fn to_xdr(&self) -> (bytes: Vec<u8>)
        ensures
            bytes@ == self@,
    {
        self.bytes.clone()
    }

    /// The length in bytes of the XDR encoding of this address.
    pub fn xdr_len(&self) -> (n: usize)
        ensures
            n == self@.len(),
    {
        self.bytes.len()
    }

    /// A copy of this address.
    pub fn duplicate(&self) -> (a: Addr)
        ensures
            a@ == self@,
    {
        Addr { bytes: self.bytes.clone() }
    }

    /// Whether two addresses are the same address.
    pub fn same(&self, other: &Addr) -> (r: bool)
        ensures
            r == (self@ == other@),
    {
        let n = self.bytes.len();
        if n != other.bytes.len() {
            return false;
        }
        let mut i: usize = 0;
        while i < n
            invariant
                n == self.bytes@.len(),
                n == other.bytes@.len(),
                i <= n,
                forall|j: int| 0 <= j < i ==> self.bytes@[j] == other.bytes@[j],
            decreases n - i,
        {
            if self.bytes[i] != other.bytes[i] {
                return false;
            }
            i = i + 1;
        }
        assert(self.bytes@ =~= other.bytes@);
        true
    }
}

} // verus!
