//! Messages saved on the node, and the content hash that answers a save.
use vstd::prelude::*;

verus! {

/// The SHA3-256 digest of the bytes.
pub uninterp spec fn sha3_256_of(content: Seq<u8>) -> Seq<u8>;

/// Relies on `sha3::Sha3_256` through `digest::Digest::digest`: the 32-byte
/// SHA3-256 digest of the input.
#[verifier::external_body]
fn sha3_256(content: &Vec<u8>) -> (r: Vec<u8>)
    ensures
        r@ == sha3_256_of(content@),
        r@.len() == 32,
{
    <sha3::Sha3_256 as sha3::Digest>::digest(content.as_slice()).to_vec()
}

/// A request to save a message under a content address.
pub struct SaveMessageRequest {
    pub address: Vec<u8>,
    pub content: Vec<u8>,
}

impl SaveMessageRequest {
    /// The SHA3-256 digest of the message's content, which answers the save.
    pub fn hash_content(&self) -> (r: Vec<u8>)
        ensures
            r@ == sha3_256_of(self.content@),
            r@.len() == 32,
    {
        sha3_256(&self.content)
    }
}

/// A request counter of the web front end.
pub struct OBData {
    count: usize,
}

impl OBData {
    /// The number of requests counted so far.
    pub closed spec fn count_spec(&self) -> nat {
        self.count as nat
    }

    pub fn new() -> (r: OBData)
        ensures
            r.count_spec() == 0,
    {
        OBData { count: 0 }
    }

    pub fn count(&self) -> (r: usize)
        ensures
            r as nat == self.count_spec(),
    {
        self.count
    }

    /// Adds `incr` to the count and returns the new count; `None`, with the
    /// count unchanged, where the sum does not fit.
    pub fn add(&mut self, incr: usize) -> (r: Option<usize>)
        ensures
            old(self).count_spec() + incr <= usize::MAX ==> r == Some((old(self).count_spec() + incr) as usize)
                && final(self).count_spec() == old(self).count_spec() + incr,
            old(self).count_spec() + incr > usize::MAX ==> r is None && final(self).count_spec() == old(self).count_spec(),
    {
        match self.count.checked_add(incr) {
            Some(c) => {
                self.count = c;
                Some(c)
            },
            None => None,
        }
    }
}

} // verus!
