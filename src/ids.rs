//! Account addresses and token identifiers.
use vstd::prelude::*;

verus! {

/// The identifier of the chain's native currency, `EGLD`, as bytes.
pub open spec fn native_token_name() -> Seq<u8> {
    seq![0x45u8, 0x47u8, 0x4cu8, 0x44u8]
}

/// A 32-byte account address.
#[derive(Clone, Copy, Debug, PartialEq, Eq)]
pub struct Address {
    pub bytes: [u8; 32],
}

/// The identifier of a token, as the bytes of its ticker (`EGLD`,
/// `WHEEL-a1b2c3`).
#[derive(Debug)]
pub struct TokenId {
    pub name: Vec<u8>,
}

impl View for TokenId {
    type V = Seq<u8>;

    open spec fn view(&self) -> Seq<u8> {
        self.name@
    }
}

impl Address {
    pub fn new(bytes: [u8; 32]) -> (r: Address)
        ensures
            r.bytes == bytes,
    {
        Address { bytes }
    }

    /// Whether two addresses are the same account.
    pub fn same_as(&self, other: &Address) -> (r: bool)
        ensures
            r == (self.bytes@ == other.bytes@),
    {
        let mut i: usize = 0;
        while i < 32
            invariant
                0 <= i <= 32,
                forall|j: int| 0 <= j < i ==> self.bytes@[j] == other.bytes@[j],
            decreases 32 - i,
        {
            if self.bytes[i] != other.bytes[i] {
                return false;
            }
            i = i + 1;
        }
        assert(self.bytes@ =~= other.bytes@);
        true
    }
}

impl TokenId {
    pub fn new(name: Vec<u8>) -> (r: TokenId)
        ensures
            r@ == name@,
    {
        TokenId { name }
    }

    /// The chain's native currency.
    pub fn native() -> (r: TokenId)
        ensures
            r@ == native_token_name(),
    {
        let r = TokenId { name: vec![0x45u8, 0x47u8, 0x4cu8, 0x44u8] };
        assert(r@ =~= native_token_name());
        r
    }

    /// Whether this is the chain's native currency.
    pub fn is_native(&self) -> (r: bool)
        ensures
            r == (self@ == native_token_name()),
    {
        if self.name.len() != 4 {
            return false;
        }
        let r = self.name[0] == 0x45u8 && self.name[1] == 0x47u8 && self.name[2] == 0x4cu8
            && self.name[3] == 0x44u8;
        if r {
            assert(self@ =~= native_token_name());
        }
        r
    }

    /// A copy of this identifier.
    pub fn copy(&self) -> (r: TokenId)
        ensures
            r@ == self@,
    {
        TokenId { name: self.name.clone() }
    }
}

} // verus!
