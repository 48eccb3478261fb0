use vstd::prelude::*;

verus! {

/// Length in bytes of a SHA-256 digest.
pub const DIGEST_SIZE: usize = 32;

/// A running SHA-256 computation: a `sha2::Sha256` hasher. That type is an
/// alias of nested generic types bounded by traits of `digest` and `typenum`,
/// which cannot be declared to the verifier; so the hasher is held here, as
/// a store of bytes whose inside the verifier does not read. Contracts speak
/// of the bytes that it has taken in so far.
#[verifier::external_body]
#[derive(Debug)]
pub struct HashContext {
    inner: sha2::Sha256,
}

/// The bytes that a hash context has taken in since it was made, in order.
pub uninterp spec fn absorbed(context: HashContext) -> Seq<u8>;

/// The SHA-256 digest of a message, as `sha2` computes it.
pub uninterp spec fn sha256(message: Seq<u8>) -> Seq<u8>;

impl HashContext {
    /// Calls `sha2::Digest::new` for `Sha256`. Trusted: a new hasher has
    /// taken in nothing.
    #[verifier::external_body]
    pub(crate) fn new() -> (context: HashContext)
        ensures
            absorbed(context) == Seq::<u8>::empty(),
    {
        HashContext { inner: <sha2::Sha256 as sha2::Digest>::new() }
    }

    /// Calls `sha2::Digest::update`. Trusted: the hasher has then taken in
    /// `data` after all that it had taken in before.
    #[verifier::external_body]
    pub(crate) fn update(&mut self, data: &[u8])
        ensures
            absorbed(*final(self)) == absorbed(*old(self)) + data@,
    {
        sha2::Digest::update(&mut self.inner, data)
    }

    /// Calls `Clone::clone` of the hasher. Trusted: the copy has taken in
    /// the same bytes.
    #[verifier::external_body]
    pub(crate) fn duplicate(&self) -> (copy: HashContext)
        ensures
            absorbed(copy) == absorbed(*self),
    {
        HashContext { inner: self.inner.clone() }
    }

    /// Calls `sha2::Digest::finalize`. Trusted: the result is the SHA-256
    /// digest of the bytes taken in, which depends on those bytes alone.
    #[verifier::external_body]
    pub(crate) fn finalize(self) -> (digest: [u8; DIGEST_SIZE])
        ensures
            digest@ == sha256(absorbed(self)),
    {
        sha2::Digest::finalize(self.inner).into()
    }
}

} // verus!
