//! Account and contract identities, held as their canonical XDR encoding.

use vstd::prelude::*;
use crate::bytes::{bytes_eq, bytes_to_vec};

verus! {

/// An account or contract address, held as the XDR encoding of the address
/// value. Two addresses are the same exactly when their encodings are.
#[derive(Clone, Debug, PartialEq, Eq)]
pub struct Address {
    pub xdr: Vec<u8>,
}

impl View for Address {
    type V = Seq<u8>;

    open spec fn view(&self) -> Seq<u8> {
        self.xdr@
    }
}

impl Address {
    /// The address whose XDR encoding is `xdr`.
    pub fn from_xdr(xdr: Vec<u8>) -> (r: Address)
        ensures
            r@ == xdr@,
    {
        Address { xdr }
    }

    /// Whether two addresses are the same.
    pub fn same(&self, other: &Address) -> (r: bool)
        ensures
            r == (self@ == other@),
    {
        bytes_eq(self.xdr.as_slice(), other.xdr.as_slice())
    }

    /// An independent copy of this address.
    pub fn duplicate(&self) -> (r: Address)
        ensures
            r@ == self@,
    {
        Address { xdr: bytes_to_vec(self.xdr.as_slice()) }
    }
}

/// The encodings of a list of addresses, in order.
pub open spec fn views_of(s: Seq<Address>) -> Seq<Seq<u8>> {
    s.map_values(|a: Address| a@)
}

} // verus!
