//! Account and contract addresses.

use vstd::prelude::*;

use crate::base::bytes::{
    append_be, be_bytes, be_value, lemma_be_bytes_len, lemma_be_bytes_of_value, lemma_be_value_bound,
    lemma_be_value_of_bytes, pow256, read_be,
};

verus! {

/// Length of the text form of an address.
pub const ADDRESS_LEN: usize = 56;

/// An account or contract address, compared by its text form.
#[derive(Clone, Copy, Debug, PartialEq, Eq, Structural)]
pub struct Address {
    /// Characters 0 to 13 of the text form.
    pub a: u128,
    /// Characters 14 to 27.
    pub b: u128,
    /// Characters 28 to 41.
    pub c: u128,
    /// Characters 42 to 55.
    pub d: u128,
}

impl View for Address {
    type V = Address;

    open spec fn view(&self) -> Address {
        *self
    }
}

impl Address {
    /// Each part holds fourteen characters.
    pub open spec fn valid(self) -> bool {
        &&& self.a < pow256(14)
        &&& self.b < pow256(14)
        &&& self.c < pow256(14)
        &&& self.d < pow256(14)
    }

    /// The text form, one byte per character.
    pub open spec fn text(self) -> Seq<u8> {
        be_bytes(self.a as nat, 14) + be_bytes(self.b as nat, 14) + be_bytes(self.c as nat, 14)
            + be_bytes(self.d as nat, 14)
    }

    /// The address with the given text form.
    pub fn from_text(text: &[u8]) -> (r: Address)
        requires
            text@.len() == ADDRESS_LEN,
        ensures
            r.text() == text@,
            r.valid(),
    {
        let r = Address {
            a: read_be(text, 0, 14),
            b: read_be(text, 14, 28),
            c: read_be(text, 28, 42),
            d: read_be(text, 42, 56),
        };
        proof {
            lemma_be_bytes_of_value(text@.subrange(0, 14));
            lemma_be_bytes_of_value(text@.subrange(14, 28));
            lemma_be_bytes_of_value(text@.subrange(28, 42));
            lemma_be_bytes_of_value(text@.subrange(42, 56));
            assert(r.text() =~= text@);
            lemma_be_value_bound(text@.subrange(0, 14));
            lemma_be_value_bound(text@.subrange(14, 28));
            lemma_be_value_bound(text@.subrange(28, 42));
            lemma_be_value_bound(text@.subrange(42, 56));
        }
        r
    }

    /// The text form, one byte per character.
    pub fn to_text(&self) -> (text: Vec<u8>)
        ensures
            text@ == self.text(),
            text@.len() == ADDRESS_LEN,
    {
        let mut text: Vec<u8> = Vec::new();
        append_be(&mut text, self.a, 14);
        append_be(&mut text, self.b, 14);
        append_be(&mut text, self.c, 14);
        append_be(&mut text, self.d, 14);
        proof {
            lemma_be_bytes_len(self.a as nat, 14);
            lemma_be_bytes_len(self.b as nat, 14);
            lemma_be_bytes_len(self.c as nat, 14);
            lemma_be_bytes_len(self.d as nat, 14);
            assert(text@ =~= self.text());
        }
        text
    }
}

/// Valid addresses with the same text are the same.
pub proof fn addresses_are_their_texts(x: Address, y: Address)
    requires
        x.valid(),
        y.valid(),
        x.text() == y.text(),
    ensures
        x == y,
{
    lemma_parts(x);
    lemma_parts(y);
}

proof fn lemma_parts(x: Address)
    requires
        x.valid(),
    ensures
        x.text().len() == ADDRESS_LEN,
        be_value(x.text().subrange(0, 14)) == x.a,
        be_value(x.text().subrange(14, 28)) == x.b,
        be_value(x.text().subrange(28, 42)) == x.c,
        be_value(x.text().subrange(42, 56)) == x.d,
{
    lemma_be_bytes_len(x.a as nat, 14);
    lemma_be_bytes_len(x.b as nat, 14);
    lemma_be_bytes_len(x.c as nat, 14);
    lemma_be_bytes_len(x.d as nat, 14);
    lemma_be_value_of_bytes(x.a as nat, 14);
    lemma_be_value_of_bytes(x.b as nat, 14);
    lemma_be_value_of_bytes(x.c as nat, 14);
    lemma_be_value_of_bytes(x.d as nat, 14);
    assert(x.text().subrange(0, 14) =~= be_bytes(x.a as nat, 14));
    assert(x.text().subrange(14, 28) =~= be_bytes(x.b as nat, 14));
    assert(x.text().subrange(28, 42) =~= be_bytes(x.c as nat, 14));
    assert(x.text().subrange(42, 56) =~= be_bytes(x.d as nat, 14));
}

} // verus!
