//! Hashing of values through a canonical serialisation into 64-bit words.
//!
//! A value that can be hashed first states what it is as a sequence of words;
//! the hash is then a function of that sequence alone.

use std::collections::hash_map::DefaultHasher;
use std::hash::Hasher;
use vstd::bytes::{
    lemma_auto_spec_u64_to_from_le_bytes, spec_u64_from_le_bytes, spec_u64_to_le_bytes,
    spec_u64_to_le_bytes_to_open,
};
use vstd::prelude::*;
use vstd::std_specs::hash::DefaultHasherAdditionalSpecFns;

verus! {

/// The byte chunks handed to the hasher: each word as its eight little-endian bytes.
pub open spec fn word_chunks(words: Seq<u64>) -> Seq<Seq<u8>> {
    words.map_values(|w: u64| spec_u64_to_le_bytes(w))
}

/// The 64-bit digest of a sequence of words.
pub open spec fn hash_of(words: Seq<u64>) -> u64 {
    DefaultHasher::spec_finish(word_chunks(words))
}

/// Distinct word sequences are handed to the hasher as distinct byte chunks,
/// so two serialisations share a hash only where the 64-bit digest itself collides.
pub proof fn lemma_word_chunks_injective(a: Seq<u64>, b: Seq<u64>)
    requires
        word_chunks(a) == word_chunks(b),
    ensures
        a == b,
{
    lemma_auto_spec_u64_to_from_le_bytes();
    assert(a.len() == word_chunks(a).len());
    assert(b.len() == word_chunks(b).len());
    assert forall|i: int| 0 <= i < a.len() implies a[i] == b[i] by {
        assert(word_chunks(a)[i] == spec_u64_to_le_bytes(a[i]));
        assert(word_chunks(b)[i] == spec_u64_to_le_bytes(b[i]));
        assert(spec_u64_from_le_bytes(spec_u64_to_le_bytes(a[i])) == a[i]);
        assert(spec_u64_from_le_bytes(spec_u64_to_le_bytes(b[i])) == b[i]);
    }
    assert(a =~= b);
}

/// Writes the eight little-endian bytes of a word into a buffer.
fn write_le_bytes(word: u64, bytes: &mut Vec<u8>)
    ensures
        final(bytes)@ == spec_u64_to_le_bytes(word),
{
    bytes.clear();
    bytes.push((word & 0xff) as u8);
    bytes.push(((word >> 8) & 0xff) as u8);
    bytes.push(((word >> 16) & 0xff) as u8);
    bytes.push(((word >> 24) & 0xff) as u8);
    bytes.push(((word >> 32) & 0xff) as u8);
    bytes.push(((word >> 40) & 0xff) as u8);
    bytes.push(((word >> 48) & 0xff) as u8);
    bytes.push(((word >> 56) & 0xff) as u8);
    proof {
        spec_u64_to_le_bytes_to_open(word);
    }
}

/// Hashes a sequence of words.
pub fn hash_words(words: &Vec<u64>) -> (h: u64)
    ensures
        h == hash_of(words@),
{
    let mut hasher = DefaultHasher::new();
    let mut bytes: Vec<u8> = Vec::with_capacity(8);
    let mut i: usize = 0;
    while i < words.len()
        invariant
            i <= words.len(),
            hasher@ == word_chunks(words@.take(i as int)),
        decreases words.len() - i,
    {
        write_le_bytes(words[i], &mut bytes);
        hasher.write(bytes.as_slice());
        i += 1;
    }
    proof {
        assert(words@.take(i as int) =~= words@);
    }
    hasher.finish()
}

/// Plain data with a canonical serialisation: digests and transitions.
///
/// The serialisation determines the value, so it can stand for it wherever
/// values are hashed or compared.
pub trait Canonical: Sized {
    /// The words that stand for this value.
    spec fn encoding(&self) -> Seq<u64>;

    /// No two values share a serialisation.
    proof fn lemma_encoding_injective(a: Self, b: Self)
        requires
            a.encoding() == b.encoding(),
        ensures
            a == b,
    ;

    fn encode(&self) -> (words: Vec<u64>)
        ensures
            words@ == self.encoding(),
    ;

    fn duplicate(&self) -> (copy: Self)
        ensures
            copy == *self,
    ;
}

/// Appends words to a sequence under construction.
pub fn append_words(out: &mut Vec<u64>, words: &Vec<u64>)
    ensures
        final(out)@ == old(out)@ + words@,
{
    let mut i: usize = 0;
    while i < words.len()
        invariant
            i <= words.len(),
            out@ == old(out)@ + words@.take(i as int),
        decreases words.len() - i,
    {
        out.push(words[i]);
        i += 1;
    }
}

/// Whether two word sequences are equal.
pub fn same_words(a: &Vec<u64>, b: &Vec<u64>) -> (eq: bool)
    ensures
        eq == (a@ == b@),
{
    if a.len() != b.len() {
        return false;
    }
    let mut i: usize = 0;
    while i < a.len()
        invariant
            i <= a.len(),
            a.len() == b.len(),
            forall|j: int| 0 <= j < i ==> a@[j] == b@[j],
        decreases a.len() - i,
    {
        if a[i] != b[i] {
            return false;
        }
        i += 1;
    }
    proof {
        assert(a@ =~= b@);
    }
    true
}

/// Whether two values are equal, decided on their serialisations.
pub fn same<T: Canonical>(a: &T, b: &T) -> (eq: bool)
    ensures
        eq == (*a == *b),
{
    let wa = a.encode();
    let wb = b.encode();
    let eq = same_words(&wa, &wb);
    proof {
        if eq {
            T::lemma_encoding_injective(*a, *b);
        }
    }
    eq
}

/// The hash of a value.
pub fn hash_value<T: Canonical>(value: &T) -> (h: u64)
    ensures
        h == hash_of(value.encoding()),
{
    let words = value.encode();
    hash_words(&words)
}

/// The serialisations of the items of a sequence, one after the other.
pub open spec fn items_encoding<T: Canonical>(items: Seq<T>) -> Seq<u64>
    decreases items.len(),
{
    if items.len() == 0 {
        Seq::empty()
    } else {
        items_encoding(items.drop_last()) + items.last().encoding()
    }
}

/// The serialisation of a sequence: its length, then its items.
pub open spec fn sequence_encoding<T: Canonical>(items: Seq<T>) -> Seq<u64> {
    seq![items.len() as u64] + items_encoding(items)
}

/// The hash of a sequence of values.
pub open spec fn sequence_root<T: Canonical>(items: Seq<T>) -> u64 {
    hash_of(sequence_encoding(items))
}

/// The hash of a sequence without items, whatever the kind of item.
pub open spec fn empty_sequence_root() -> u64 {
    hash_of(seq![0u64])
}

/// Hashes a sequence without items.
pub fn hash_empty_sequence() -> (root: u64)
    ensures
        root == empty_sequence_root(),
{
    let mut words: Vec<u64> = Vec::new();
    words.push(0);
    hash_words(&words)
}

/// A sequence without items has the root of the empty sequence.
pub proof fn lemma_empty_sequence_root<T: Canonical>(items: Seq<T>)
    requires
        items.len() == 0,
    ensures
        sequence_root(items) == empty_sequence_root(),
{
    assert(sequence_encoding(items) =~= seq![0u64]);
}

/// Hashes a sequence of values.
pub fn hash_sequence<T: Canonical>(items: &Vec<T>) -> (root: u64)
    ensures
        root == sequence_root(items@),
{
    let mut words: Vec<u64> = Vec::new();
    words.push(items.len() as u64);
    let mut i: usize = 0;
    while i < items.len()
        invariant
            i <= items.len(),
            words@ == seq![items@.len() as u64] + items_encoding(items@.take(i as int)),
        decreases items.len() - i,
    {
        let item_words = items[i].encode();
        append_words(&mut words, &item_words);
        proof {
            let upto = items@.take(i + 1);
            assert(upto.drop_last() =~= items@.take(i as int));
        }
        i += 1;
    }
    proof {
        assert(items@.take(i as int) =~= items@);
    }
    hash_words(&words)
}

/// Copies a sequence of values.
pub fn duplicate_all<T: Canonical>(items: &Vec<T>) -> (copies: Vec<T>)
    ensures
        copies@ == items@,
{
    let mut copies: Vec<T> = Vec::new();
    let mut i: usize = 0;
    while i < items.len()
        invariant
            i <= items.len(),
            copies@ == items@.take(i as int),
        decreases items.len() - i,
    {
        copies.push(items[i].duplicate());
        i += 1;
    }
    copies
}

impl Canonical for u64 {
    open spec fn encoding(&self) -> Seq<u64> {
        seq![*self]
    }

    proof fn lemma_encoding_injective(a: Self, b: Self) {
        assert(a.encoding()[0] == a);
        assert(b.encoding()[0] == b);
    }

    fn encode(&self) -> (words: Vec<u64>) {
        let mut words: Vec<u64> = Vec::new();
        words.push(*self);
        words
    }

    fn duplicate(&self) -> (copy: Self) {
        *self
    }
}

impl Canonical for () {
    open spec fn encoding(&self) -> Seq<u64> {
        Seq::empty()
    }

    proof fn lemma_encoding_injective(a: Self, b: Self) {
    }

    fn encode(&self) -> (words: Vec<u64>) {
        Vec::new()
    }

    fn duplicate(&self) -> (copy: Self) {
        ()
    }
}

} // verus!
