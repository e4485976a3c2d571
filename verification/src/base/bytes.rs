//! Big-endian numbers and fixed-width byte words.

use vstd::prelude::*;

verus! {

/// 256 to the power `n`.
pub open spec fn pow256(n: nat) -> nat
    decreases n,
{
    if n == 0 {
        1
    } else {
        256 * pow256((n - 1) as nat)
    }
}

/// The number that a byte string denotes, most significant byte first.
pub open spec fn be_value(s: Seq<u8>) -> nat
    decreases s.len(),
{
    if s.len() == 0 {
        0
    } else {
        256 * be_value(s.drop_last()) + s.last() as nat
    }
}

/// The `len` low-order bytes of `n`, most significant byte first.
pub open spec fn be_bytes(n: nat, len: nat) -> Seq<u8>
    decreases len,
{
    if len == 0 {
        Seq::empty()
    } else {
        be_bytes(n / 256, (len - 1) as nat).push((n % 256) as u8)
    }
}

/// A byte string of length `n` denotes a number below 256 to the power `n`.
pub proof fn lemma_be_value_bound(s: Seq<u8>)
    ensures
        be_value(s) < pow256(s.len()),
    decreases s.len(),
{
    if s.len() > 0 {
        lemma_be_value_bound(s.drop_last());
    }
}

pub proof fn lemma_be_bytes_len(n: nat, len: nat)
    ensures
        be_bytes(n, len).len() == len,
    decreases len,
{
    if len > 0 {
        lemma_be_bytes_len(n / 256, (len - 1) as nat);
    }
}

/// Writing a byte string's number back gives the byte string.
pub proof fn lemma_be_bytes_of_value(s: Seq<u8>)
    ensures
        be_bytes(be_value(s), s.len()) == s,
    decreases s.len(),
{
    if s.len() > 0 {
        let n: nat = be_value(s);
        let front = s.drop_last();
        lemma_be_bytes_of_value(front);
        assert(n / 256 == be_value(front));
        assert(n % 256 == s.last() as nat);
        assert(front.push(s.last()) =~= s);
    } else {
        assert(be_bytes(0, 0) =~= s);
    }
}

/// Reading back the bytes of a number that fits gives the number.
pub proof fn lemma_be_value_of_bytes(n: nat, len: nat)
    requires
        n < pow256(len),
    ensures
        be_value(be_bytes(n, len)) == n,
    decreases len,
{
    if len > 0 {
        lemma_be_value_of_bytes(n / 256, (len - 1) as nat);
        let s = be_bytes(n, len);
        assert(s.drop_last() =~= be_bytes(n / 256, (len - 1) as nat));
    }
}

pub proof fn lemma_pow256_values()
    ensures
        pow256(1) == 0x100,
        pow256(4) == 0x1_0000_0000,
        pow256(8) == 0x1_0000_0000_0000_0000,
        pow256(14) == 0x1_0000_0000_0000_0000_0000_0000_0000,
        pow256(16) == 0x1_0000_0000_0000_0000_0000_0000_0000_0000,
{
    reveal_with_fuel(pow256, 17);
}

pub proof fn lemma_pow256_monotonic(a: nat, b: nat)
    requires
        a <= b,
    ensures
        pow256(a) <= pow256(b),
    decreases b,
{
    if a < b {
        lemma_pow256_monotonic(a, (b - 1) as nat);
    }
}

/// The number that `data[from..to]` denotes, most significant byte first.
pub fn read_be(data: &[u8], from: usize, to: usize) -> (n: u128)
    requires
        from <= to <= data@.len(),
        to - from <= 16,
    ensures
        n == be_value(data@.subrange(from as int, to as int)),
{
    let mut n: u128 = 0;
    let mut i: usize = from;
    proof {
        lemma_pow256_values();
    }
    while i < to
        invariant
            from <= i <= to <= data@.len(),
            to - from <= 16,
            n == be_value(data@.subrange(from as int, i as int)),
            pow256(16) == 0x1_0000_0000_0000_0000_0000_0000_0000_0000,
        decreases to - i,
    {
        proof {
            let s = data@.subrange(from as int, i as int);
            let t = data@.subrange(from as int, i + 1);
            assert(t.drop_last() =~= s);
            lemma_be_value_bound(t);
            lemma_pow256_monotonic(t.len(), 16);
        }
        n = n * 256 + data[i] as u128;
        i += 1;
    }
    n
}

/// Appends the `len` low-order bytes of `n` to `out`, most significant byte first.
pub fn append_be(out: &mut Vec<u8>, n: u128, len: usize)
    ensures
        final(out)@ == old(out)@ + be_bytes(n as nat, len as nat),
    decreases len,
{
    if len > 0 {
        append_be(out, n / 256, len - 1);
        out.push((n % 256) as u8);
        assert(out@ =~= old(out)@ + be_bytes(n as nat, len as nat));
    } else {
        assert(out@ =~= old(out)@ + be_bytes(n as nat, len as nat));
    }
}

/// Thirty-two bytes, held as two big-endian halves.
#[derive(Clone, Copy, Debug, PartialEq, Eq, Structural)]
pub struct Word32 {
    pub hi: u128,
    pub lo: u128,
}

impl Word32 {
    /// The thirty-two bytes in order.
    pub open spec fn bytes(self) -> Seq<u8> {
        be_bytes(self.hi as nat, 16) + be_bytes(self.lo as nat, 16)
    }

    /// The word with the given thirty-two bytes.
    pub open spec fn of(b: Seq<u8>) -> Word32 {
        Word32 {
            hi: be_value(b.subrange(0, 16)) as u128,
            lo: be_value(b.subrange(16, 32)) as u128,
        }
    }

    /// Packs thirty-two bytes.
    pub fn from_bytes(b: &[u8]) -> (w: Word32)
        requires
            b@.len() == 32,
        ensures
            w.bytes() == b@,
            w == Word32::of(b@),
    {
        let w = Word32 { hi: read_be(b, 0, 16), lo: read_be(b, 16, 32) };
        proof {
            lemma_be_bytes_of_value(b@.subrange(0, 16));
            lemma_be_bytes_of_value(b@.subrange(16, 32));
            assert(w.bytes() =~= b@);
        }
        w
    }

    /// The thirty-two bytes in order.
    pub fn to_bytes(&self) -> (b: Vec<u8>)
        ensures
            b@ == self.bytes(),
            b@.len() == 32,
    {
        let mut b: Vec<u8> = Vec::new();
        append_be(&mut b, self.hi, 16);
        append_be(&mut b, self.lo, 16);
        proof {
            lemma_be_bytes_len(self.hi as nat, 16);
            lemma_be_bytes_len(self.lo as nat, 16);
            assert(b@ =~= self.bytes());
        }
        b
    }
}

/// A word is determined by its bytes, and is the word of them.
pub proof fn lemma_word_bytes(w: Word32)
    ensures
        w.bytes().len() == 32,
        Word32::of(w.bytes()) == w,
{
    lemma_pow256_values();
    lemma_be_bytes_len(w.hi as nat, 16);
    lemma_be_bytes_len(w.lo as nat, 16);
    lemma_be_value_of_bytes(w.hi as nat, 16);
    lemma_be_value_of_bytes(w.lo as nat, 16);
    assert(w.bytes().subrange(0, 16) =~= be_bytes(w.hi as nat, 16));
    assert(w.bytes().subrange(16, 32) =~= be_bytes(w.lo as nat, 16));
}

/// The bytes of the word of thirty-two bytes are these bytes.
pub proof fn lemma_word_of_bytes(b: Seq<u8>)
    requires
        b.len() == 32,
    ensures
        Word32::of(b).bytes() == b,
{
    lemma_pow256_values();
    lemma_be_value_bound(b.subrange(0, 16));
    lemma_be_value_bound(b.subrange(16, 32));
    lemma_be_bytes_of_value(b.subrange(0, 16));
    lemma_be_bytes_of_value(b.subrange(16, 32));
    assert(Word32::of(b).bytes() =~= b);
}

} // verus!
