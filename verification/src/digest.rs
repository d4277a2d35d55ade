//! Streaming MD5, as the upload's integrity check uses it: bytes are fed in
//! chunks as they are read and the digest of everything fed comes out at
//! the end.

use vstd::prelude::*;

verus! {

/// An MD5 computation in progress: `md5::Md5` held opaque. What it has been
/// fed is named by [`md5_fed`].
#[verifier::external_body]
pub struct Md5Stream {
    hasher: md5::Md5,
}

/// The bytes a running hasher has been fed, in order.
pub uninterp spec fn md5_fed(s: Md5Stream) -> Seq<u8>;

/// The MD5 digest of a byte sequence; MD5 is a fixed function of its input.
pub uninterp spec fn md5_digest(data: Seq<u8>) -> Seq<u8>;

impl View for Md5Stream {
    type V = Seq<u8>;

    /// The bytes fed so far.
    open spec fn view(&self) -> Seq<u8> {
        md5_fed(*self)
    }
}

/// `Digest::new` for `md5::Md5`: a hasher that has been fed nothing.
#[verifier::external_body]
fn md5_new() -> (s: Md5Stream)
    ensures
        md5_fed(s) == Seq::<u8>::empty(),
{
    Md5Stream { hasher: <md5::Md5 as md5::Digest>::new() }
}

/// `Digest::update`: feeds `data` after what was fed before.
#[verifier::external_body]
fn md5_update(s: &mut Md5Stream, data: &[u8])
    ensures
        md5_fed(*final(s)) == md5_fed(*old(s)) + data@,
{
    md5::Digest::update(&mut s.hasher, data);
}

/// `Digest::finalize`: the 16-byte digest of everything fed.
#[verifier::external_body]
fn md5_finalize(s: Md5Stream) -> (d: [u8; 16])
    ensures
        d@ == md5_digest(md5_fed(s)),
{
    md5::Digest::finalize(s.hasher).into()
}

impl Md5Stream {
    /// A hasher that has seen nothing.
    pub fn new() -> (s: Md5Stream)
        ensures
            s@ == Seq::<u8>::empty(),
    {
        md5_new()
    }

    /// Feed the next chunk.
    pub fn update(&mut self, data: &[u8])
        ensures
            final(self)@ == old(self)@ + data@,
    {
        md5_update(self, data)
    }

    /// The digest of every byte fed, in order.
    pub fn finalize(self) -> (d: [u8; 16])
        ensures
            d@ == md5_digest(self@),
    {
        md5_finalize(self)
    }
}

} // verus!
