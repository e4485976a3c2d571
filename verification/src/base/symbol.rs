//! Short names: up to thirty-two letters, digits and underscores.

use vstd::prelude::*;

use crate::base::bytes::Word32;

verus! {

/// Number of characters that a symbol holds at most.
pub const MAX_SYMBOL_LEN: usize = 32;

/// Whether `c` may occur in a symbol.
pub open spec fn is_symbol_char(c: char) -> bool {
    ('a' <= c && c <= 'z') || ('A' <= c && c <= 'Z') || ('0' <= c && c <= '9') || c == '_'
}

/// Whether `text` is the text of a symbol.
pub open spec fn is_symbol_text(text: Seq<char>) -> bool {
    &&& text.len() <= MAX_SYMBOL_LEN
    &&& forall|i: int| 0 <= i < text.len() ==> is_symbol_char(#[trigger] text[i])
}

/// The text as thirty-two bytes, padded with zeros; a character beyond one
/// byte is cut to its low-order byte and text beyond the limit is cut off.
pub open spec fn symbol_bytes(text: Seq<char>) -> Seq<u8> {
    Seq::new(
        32,
        |i: int|
            if i < text.len() {
                ((text[i] as u32) % 256) as u8
            } else {
                0u8
            },
    )
}

/// A short name, compared by its characters.
#[derive(Clone, Copy, Debug, PartialEq, Eq, Structural)]
pub struct Symbol {
    /// The characters, one byte each, padded with zeros.
    pub word: Word32,
}

impl View for Symbol {
    type V = Symbol;

    open spec fn view(&self) -> Symbol {
        *self
    }
}

/// The symbol with the given text.
pub open spec fn sym(text: Seq<char>) -> Symbol {
    Symbol { word: Word32::of(symbol_bytes(text)) }
}

impl Symbol {
    /// The symbol with the given text.
    pub fn new(text: &str) -> (s: Symbol)
        requires
            is_symbol_text(text@),
        ensures
            s == sym(text@),
    {
        symbol_short(text)
    }

    /// The empty symbol.
    pub fn empty() -> (s: Symbol)
        ensures
            s == sym(""@),
    {
        symbol_short("")
    }
}

/// The symbol with the given text, for literals in the code.
pub(crate) fn symbol_short(text: &str) -> (s: Symbol)
    ensures
        s == sym(text@),
{
    let len: usize = text.unicode_len();
    let mut b: Vec<u8> = Vec::new();
    let mut i: usize = 0;
    while i < 32
        invariant
            i <= 32,
            len == text@.len(),
            b@.len() == i,
            forall|j: int| 0 <= j < i ==> b@[j] == symbol_bytes(text@)[j],
        decreases 32 - i,
    {
        if i < len {
            let c: u32 = text.get_char(i) as u32;
            b.push((c % 256) as u8);
        } else {
            b.push(0);
        }
        i += 1;
    }
    assert(b@ =~= symbol_bytes(text@));
    Symbol { word: Word32::from_bytes(b.as_slice()) }
}

/// Two symbols are the same exactly when their texts are.
pub proof fn symbols_are_their_texts(a: Seq<char>, b: Seq<char>)
    requires
        is_symbol_text(a),
        is_symbol_text(b),
    ensures
        sym(a) == sym(b) <==> a == b,
{
    if sym(a) == sym(b) {
        crate::base::bytes::lemma_word_of_bytes(symbol_bytes(a));
        crate::base::bytes::lemma_word_of_bytes(symbol_bytes(b));
        let x = symbol_bytes(a);
        let y = symbol_bytes(b);
        assert(x == y);
        if a.len() < b.len() {
            assert(is_symbol_char(b[a.len() as int]));
            assert(x[a.len() as int] == y[a.len() as int]);
            assert(false);
        }
        if b.len() < a.len() {
            assert(is_symbol_char(a[b.len() as int]));
            assert(x[b.len() as int] == y[b.len() as int]);
            assert(false);
        }
        assert forall|i: int| 0 <= i < a.len() implies a[i] == b[i] by {
            assert(is_symbol_char(a[i]) && is_symbol_char(b[i]));
            assert(x[i] == y[i]);
        }
        assert(a =~= b);
    }
}

} // verus!
