//! The vector that stands for a thread's summary in similarity search.

use vstd::prelude::*;

verus! {

/// A fixed-dimension vector of 32-bit floating-point components, each held
/// as its IEEE 754 bit pattern. The engine stores and returns embeddings
/// and never computes with them.
#[derive(Debug, PartialEq, Eq)]
pub struct Embedding {
    pub bits: Vec<u32>,
}

impl View for Embedding {
    type V = Seq<u32>;

    open spec fn view(&self) -> Seq<u32> {
        self.bits@
    }
}

/// The components of an optional embedding.
pub open spec fn opt_embedding(e: Option<Embedding>) -> Option<Seq<u32>> {
    match e {
        Some(v) => Some(v@),
        None => None,
    }
}

impl Clone for Embedding {
    fn clone(&self) -> (r: Self)
        ensures
            r@ == self@,
    {
        let bits = self.bits.clone();
        assert(bits@ =~= self.bits@);
        Embedding { bits }
    }
}

impl Embedding {
    /// The embedding with the given component bit patterns.
    pub fn new(bits: Vec<u32>) -> (r: Self)
        ensures
            r@ == bits@,
    {
        Embedding { bits }
    }

    /// The number of components.
    pub fn len(&self) -> (n: usize)
        ensures
            n == self@.len(),
    {
        self.bits.len()
    }
}

/// Copies an optional embedding.
pub fn clone_opt_embedding(e: &Option<Embedding>) -> (r: Option<Embedding>)
    ensures
        opt_embedding(r) == opt_embedding(*e),
{
    match e {
        Some(v) => Some(v.clone()),
        None => None,
    }
}

} // verus!
